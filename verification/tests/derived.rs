use diana::activity::daily_activity;
use diana::error::SyncError;
use diana::models::{MatchDto, MatchInfo, ParticipantDto};
use diana::persist::ingest;
use diana::progress::{latest_outcomes, ranked_progress, reconstruct, RankedOutcome};
use diana::store::CacheStore;
use diana::summary::{div_rounded, summarize, Performance};

fn participant(puuid: &str, champion: &str, kills: i32, deaths: i32, assists: i32, win: bool) -> ParticipantDto {
    ParticipantDto {
        puuid: puuid.to_string(),
        championName: champion.to_string(),
        kills,
        deaths,
        assists,
        win,
        totalMinionsKilled: None,
        neutralMinionsKilled: None,
        goldEarned: 0,
        item0: 0,
        item1: 0,
        item2: 0,
        item3: 0,
        item4: 0,
        item5: 0,
        item6: 0,
        totalDamageDealtToChampions: 0,
        totalDamageTaken: 0,
        visionScore: 0,
        teamPosition: String::new(),
        teamId: 100,
        challenges: None,
        turretTakedowns: 0,
        dragonKills: 0,
        baronKills: 0,
    }
}

fn game(creation: i64, duration: i64, queue: i32, people: Vec<ParticipantDto>) -> MatchDto {
    MatchDto { info: MatchInfo { gameCreation: creation, gameDuration: duration, queueId: queue, participants: people } }
}

fn played(champion: &str, kills: i32, deaths: i32, assists: i32, win: bool) -> Performance {
    Performance { champion: champion.to_string(), win, kills, deaths, assists }
}

fn outcome(id: &str, creation: i64, win: bool) -> RankedOutcome {
    RankedOutcome { match_id: id.to_string(), game_creation: Some(creation), win }
}

#[test]
fn without_deaths_the_ratio_is_kills_and_assists() {
    let s = summarize(&vec![played("Ahri", 4, 0, 9, true), played("Zed", 3, 0, 1, false)]);
    assert_eq!(s.kda_hundredths, 1700);
    assert_eq!(s.games, 2);
    assert_eq!(s.wins, 1);
    assert_eq!(s.losses, 1);
    assert_eq!(s.winrate, 50);
    assert_eq!(s.streak, 0);
    let none = summarize(&Vec::new());
    assert_eq!(none.kda_hundredths, 0);
    assert_eq!(none.games, 0);
    assert_eq!(none.winrate, 0);
    assert!(none.top_champs.is_empty());
}

#[test]
fn the_ratio_is_rounded_to_hundredths() {
    // (7 + 3) / 4 = 2.5
    assert_eq!(summarize(&vec![played("Ahri", 7, 4, 3, true)]).kda_hundredths, 250);
    // (1 + 1) / 3 = 0.666..
    assert_eq!(summarize(&vec![played("Ahri", 1, 3, 1, true)]).kda_hundredths, 67);
    // (1 + 0) / 3 = 0.333..
    assert_eq!(summarize(&vec![played("Ahri", 1, 3, 0, true)]).kda_hundredths, 33);
    // (0 + 1) / 8 = 0.125: the half goes up.
    assert_eq!(summarize(&vec![played("Ahri", 0, 8, 1, true)]).kda_hundredths, 13);
    assert_eq!(summarize(&vec![played("Ahri", i32::MAX, 1, i32::MAX, true)]).kda_hundredths, 429_496_729_400);
    assert_eq!(div_rounded(7, 2), 4);
    assert_eq!(div_rounded(-7, 2), -4);
    assert_eq!(div_rounded(7, -2), -4);
    assert_eq!(div_rounded(-7, -2), 4);
    assert_eq!(div_rounded(6, 4), 2);
    assert_eq!(div_rounded(5, 4), 1);
    assert_eq!(div_rounded(0, 9), 0);
}

#[test]
fn the_share_of_wins_is_a_whole_number_of_percent() {
    let rate = |wins: usize, games: usize| {
        let rows: Vec<Performance> = (0..games).map(|i| played("Ahri", 1, 1, 1, i < wins)).collect();
        summarize(&rows).winrate
    };
    assert_eq!(rate(0, 1), 0);
    assert_eq!(rate(1, 1), 100);
    assert_eq!(rate(1, 3), 33);
    assert_eq!(rate(2, 3), 67);
    assert_eq!(rate(1, 8), 13);
    assert_eq!(rate(3, 8), 38);
    assert_eq!(rate(1, 200), 1);
    assert_eq!(rate(1, 201), 0);
}

#[test]
fn a_champion_played_twice_is_not_listed_even_with_every_game_won() {
    let rows = vec![
        played("Ahri", 9, 0, 9, true),
        played("Zed", 1, 5, 1, false),
        played("Ahri", 9, 0, 9, true),
        played("Zed", 1, 5, 1, false),
        played("Zed", 1, 5, 1, true),
    ];
    let s = summarize(&rows);
    assert_eq!(s.top_champs.len(), 1);
    let zed = &s.top_champs[0];
    assert_eq!(zed.champion_name, "Zed");
    assert_eq!(zed.games, 3);
    assert_eq!(zed.wins, 1);
    assert_eq!(zed.winrate, 33);
    assert_eq!(zed.kda_hundredths, 40);
    assert_eq!(zed.icon_url, "https://ddragon.leagueoflegends.com/cdn/14.18.1/img/champion/Zed.png");
}

#[test]
fn champions_are_listed_by_games_then_wins_and_at_most_ten() {
    let mut rows = Vec::new();
    // Twelve champions: champion k is played k + 3 times and wins k % 3 of those games.
    for k in 0..12 {
        for g in 0..(k + 3) {
            rows.push(played(&format!("C{}", k), 1, 1, 1, g < k % 3));
        }
    }
    // Two more with as many games as C11, one with more wins and one with fewer.
    for g in 0..14 {
        rows.push(played("More", 1, 1, 1, g < 5));
        rows.push(played("Fewer", 1, 1, 1, g < 1));
    }
    let s = summarize(&rows);
    let names: Vec<&str> = s.top_champs.iter().map(|c| c.champion_name.as_str()).collect();
    assert_eq!(names, vec!["More", "C11", "Fewer", "C10", "C9", "C8", "C7", "C6", "C5", "C4"]);
    assert_eq!(s.top_champs[0].games, 14);
    assert_eq!(s.top_champs[0].wins, 5);
    assert_eq!(s.top_champs[1].wins, 2);
    assert_eq!(s.top_champs[2].wins, 1);
    assert_eq!(s.top_champs[9].games, 7);
    let copy = s.duplicate();
    assert_eq!(copy.top_champs.len(), 10);
    assert_eq!(copy.top_champs[3].champion_name, "C10");
    assert_eq!(copy.games, s.games);
    let stats = s.stats();
    assert_eq!(stats.games, s.games);
    assert_eq!(stats.winrate, s.winrate);
    assert_eq!(stats.kda_hundredths, 200);
}

#[test]
fn only_long_games_of_the_ranked_queue_count() {
    let mut store = CacheStore::new();
    let me = |win| participant("p-1", "Ahri", 2, 1, 2, win);
    let other = || participant("p-2", "Zed", 9, 9, 9, true);
    ingest(&mut store, "ranked", "p-1", &game(10, 1800, 420, vec![other(), me(true)]), None).unwrap();
    ingest(&mut store, "remake", "p-1", &game(11, 299, 420, vec![me(false), other()]), None).unwrap();
    ingest(&mut store, "edge", "p-1", &game(12, 300, 420, vec![me(false), other()]), None).unwrap();
    ingest(&mut store, "flex", "p-1", &game(13, 1800, 440, vec![me(true), other()]), None).unwrap();
    ingest(&mut store, "absent", "p-1", &game(14, 1800, 420, vec![other()]), None).unwrap();
    let s = store.compute_player_summary("p-1", 99);
    assert_eq!(s.games, 2);
    assert_eq!(s.wins, 1);
    assert_eq!(s.losses, 1);
    assert_eq!(s.winrate, 50);
    assert_eq!(s.kda_hundredths, 400);
    let cached = store.cached_summary("p-1").unwrap();
    assert_eq!(cached.games, 2);
    assert!(store.cached_summary("p-2").is_none());
    // The other player is summarized over the games he was in, whoever brought them.
    let his = store.compute_player_summary("p-2", 100);
    assert_eq!(his.games, 3);
    assert_eq!(his.top_champs.len(), 1);
    // A later compilation takes the place of the earlier one.
    ingest(&mut store, "more", "p-1", &game(15, 1800, 420, vec![me(true)]), None).unwrap();
    assert_eq!(store.compute_player_summary("p-1", 101).games, 3);
    assert_eq!(store.cached_summary("p-1").unwrap().games, 3);
    assert_eq!(store.cached_summary("p-2").unwrap().games, 3);
}

#[test]
fn the_timeline_walks_back_from_the_present_score() {
    // Newest first: a win, a loss, a win.
    let history = vec![outcome("m3", 30, true), outcome("m2", 20, false), outcome("m1", 10, true)];
    let steps = reconstruct(&history, "GOLD", "II", 100);
    assert_eq!(steps.len(), 3);
    assert_eq!((steps[2].lp_before, steps[2].lp_delta, steps[2].lp_after), (85, 15, 100));
    assert_eq!((steps[1].lp_before, steps[1].lp_delta, steps[1].lp_after), (100, -15, 85));
    assert_eq!((steps[0].lp_before, steps[0].lp_delta, steps[0].lp_after), (85, 15, 100));
    assert_eq!(steps[0].match_id, "m1");
    assert_eq!(steps[1].match_id, "m2");
    assert_eq!(steps[2].match_id, "m3");
    assert_eq!(steps[0].label_index, 1);
    assert_eq!(steps[1].label_index, 2);
    assert_eq!(steps[2].label_index, 3);
    assert_eq!(steps[0].result, "Win");
    assert_eq!(steps[1].result, "Loss");
    for step in &steps {
        assert_eq!(step.tier_before, "GOLD");
        assert_eq!(step.tier_after, "GOLD");
        assert_eq!(step.division_before, "II");
        assert_eq!(step.division_after, "II");
        assert!(!step.exact);
    }
}

#[test]
fn the_timeline_covers_the_ten_latest_games() {
    let history: Vec<RankedOutcome> = (0..14).map(|i| outcome(&format!("m{}", i), 1000 - i, i % 2 == 0)).collect();
    let steps = reconstruct(&history, "IRON", "IV", 0);
    assert_eq!(steps.len(), 10);
    assert_eq!(steps[9].match_id, "m0");
    assert_eq!(steps[9].lp_after, 0);
    assert_eq!(steps[0].match_id, "m9");
    assert_eq!(steps[0].label_index, 1);
    // Five wins and four losses lie between the earliest game and the present.
    assert_eq!(steps[0].lp_after, -15);
    assert_eq!(steps[0].lp_before, 0);
    assert!(reconstruct(&Vec::new(), "IRON", "IV", 0).is_empty());
    let low = reconstruct(&history, "IRON", "IV", -2147483498);
    assert_eq!(low[9].lp_after, -2147483498);
    assert_eq!(low[0].lp_after, -2147483498 - 15);
    let all_losses: Vec<RankedOutcome> = (0..10).map(|i| outcome("m", i, false)).collect();
    assert_eq!(reconstruct(&all_losses, "IRON", "IV", 2147483497)[0].lp_before, i32::MAX);
    let all_wins: Vec<RankedOutcome> = (0..10).map(|i| outcome("m", i, true)).collect();
    assert_eq!(reconstruct(&all_wins, "IRON", "IV", -2147483498)[0].lp_before, i32::MIN);
}

#[test]
fn there_is_no_timeline_while_the_rank_is_not_known() {
    let history = vec![outcome("m1", 10, true)];
    assert_eq!(ranked_progress(&history, Some("GOLD"), Some("II"), Some(40)).len(), 1);
    assert!(ranked_progress(&history, None, Some("II"), Some(40)).is_empty());
    assert!(ranked_progress(&history, Some("GOLD"), None, Some(40)).is_empty());
    assert!(ranked_progress(&history, Some("GOLD"), Some("II"), None).is_empty());
    assert!(ranked_progress(&history, Some("GOLD"), Some("II"), Some(i32::MAX)).is_empty());
    assert!(ranked_progress(&history, Some("GOLD"), Some("II"), Some(i32::MIN)).is_empty());
}

#[test]
fn the_latest_outcomes_come_first() {
    let all = vec![
        outcome("a", 10, true),
        outcome("b", 30, false),
        RankedOutcome { match_id: "timeless".to_string(), game_creation: None, win: true },
        outcome("c", 20, true),
        outcome("d", 30, true),
    ];
    let ids = |limit| -> Vec<String> { latest_outcomes(&all, limit).into_iter().map(|o| o.match_id).collect() };
    assert_eq!(ids(10), vec!["timeless", "b", "d", "c", "a"]);
    assert_eq!(ids(3), vec!["timeless", "b", "d"]);
    assert!(ids(0).is_empty());
}

#[test]
fn steps_are_cached_once() {
    let mut store = CacheStore::new();
    let me = |win| vec![participant("p-1", "Ahri", 2, 1, 2, win)];
    ingest(&mut store, "m1", "p-1", &game(10, 1800, 420, me(true)), None).unwrap();
    ingest(&mut store, "m2", "p-1", &game(20, 1800, 420, me(false)), None).unwrap();
    ingest(&mut store, "short", "p-1", &game(25, 100, 420, me(false)), None).unwrap();
    ingest(&mut store, "m3", "p-1", &game(30, 1800, 420, me(true)), None).unwrap();
    let steps = store.compute_rank_progress_and_cache("p-1", "GOLD", "II", 100).unwrap();
    let ids: Vec<&str> = steps.iter().map(|s| s.match_id.as_str()).collect();
    assert_eq!(ids, vec!["m1", "m2", "m3"]);
    assert_eq!(steps[2].lp_after, 100);
    assert_eq!(steps[0].lp_before, 85);
    // A later run infers the steps afresh.
    let later = store.compute_rank_progress_and_cache("p-1", "GOLD", "I", 40).unwrap();
    assert_eq!(later.len(), 3);
    assert_eq!(later[2].lp_after, 40);
    assert_eq!(later[2].division_after, "I");
    assert_eq!(
        store.compute_rank_progress_and_cache("p-1", "GOLD", "I", i32::MAX).unwrap_err(),
        SyncError::StoreFailure
    );
    assert!(store.compute_rank_progress_and_cache("nobody", "GOLD", "I", 40).unwrap().is_empty());
}

#[test]
fn the_activity_view_has_thirty_days_in_a_row() {
    let mut store = CacheStore::new();
    let now = 1_710_504_000_000; // 2024-03-15, noon
    let day = 86_400_000;
    let me = || vec![participant("p-1", "Ahri", 2, 1, 2, true)];
    ingest(&mut store, "today-1", "p-1", &game(now - 1000, 1800, 420, me()), None).unwrap();
    ingest(&mut store, "today-2", "p-1", &game(now - 11 * 3_600_000, 60, 420, me()), None).unwrap();
    ingest(&mut store, "yesterday", "p-1", &game(now - day, 1800, 420, me()), None).unwrap();
    ingest(&mut store, "leap-day", "p-1", &game(now - 15 * day, 1800, 420, me()), None).unwrap();
    ingest(&mut store, "first-day", "p-1", &game(now - 29 * day - 12 * 3_600_000, 1800, 420, me()), None).unwrap();
    ingest(&mut store, "too-old", "p-1", &game(now - 30 * day, 1800, 420, me()), None).unwrap();
    ingest(&mut store, "flex", "p-1", &game(now - 2 * day, 1800, 440, me()), None).unwrap();
    ingest(&mut store, "other", "p-2", &game(now - 3 * day, 1800, 420, me()), None).unwrap();
    let view = store.get_daily_activity("p-1", now);
    assert_eq!(view.len(), 30);
    assert_eq!(view[0].date, "2024-02-15");
    assert_eq!(view[13].date, "2024-02-28");
    assert_eq!(view[14].date, "2024-02-29");
    assert_eq!(view[15].date, "2024-03-01");
    assert_eq!(view[29].date, "2024-03-15");
    let mut dates: Vec<&str> = view.iter().map(|e| e.date.as_str()).collect();
    let as_given = dates.clone();
    dates.sort();
    dates.dedup();
    assert_eq!(dates, as_given);
    let games: Vec<u64> = view.iter().map(|e| e.games).collect();
    let mut expected = vec![0u64; 30];
    expected[29] = 2;
    expected[28] = 1;
    expected[14] = 1;
    expected[0] = 1;
    assert_eq!(games, expected);
    // A player without games has the same thirty days, all empty.
    let empty = daily_activity(&Vec::new(), "p-9", now);
    assert_eq!(empty.len(), 30);
    assert!(empty.iter().all(|e| e.games == 0));
    assert_eq!(empty[0].date, "2024-02-15");
    // So has a moment before the epoch.
    let early = store.get_daily_activity("p-1", -1);
    assert_eq!(early.len(), 30);
    assert_eq!(early[29].date, "1969-12-31");
    assert_eq!(early[0].date, "1969-12-02");
}

#[test]
fn recent_matches_come_latest_first() {
    let mut store = CacheStore::new();
    let me = || vec![participant("p-1", "Ahri", 2, 1, 2, true)];
    for (id, creation) in [("a", 10), ("b", 30), ("c", 20), ("d", 30), ("e", 5)] {
        ingest(&mut store, id, "p-1", &game(creation, 1800, 420, me()), None).unwrap();
    }
    ingest(&mut store, "x", "p-2", &game(99, 1800, 420, me()), None).unwrap();
    let ids = |limit| -> Vec<String> {
        store.get_recent_matches("p-1", limit).unwrap().into_iter().map(|r| r.matchId).collect()
    };
    assert_eq!(ids(10), vec!["b", "d", "c", "a", "e"]);
    assert_eq!(ids(2), vec!["b", "d"]);
    assert!(ids(0).is_empty());
    assert_eq!(ids(i64::MAX).len(), 5);
    assert_eq!(store.get_recent_matches("p-1", -1).unwrap_err(), SyncError::StoreFailure);
    let rows = store.get_recent_matches("p-1", 1).unwrap();
    assert_eq!(rows[0].mid, 2);
    assert_eq!(rows[0].entryPlayerPuuid, "p-1");
    assert_eq!(rows[0].gameCreation, 30);
    assert_eq!(store.latest_match_for_puuid("p-1"), Ok(Some("b".to_string())));
    assert_eq!(store.latest_match_for_puuid("p-2"), Ok(Some("x".to_string())));
    assert_eq!(store.latest_match_for_puuid("p-3"), Ok(None));
}

#[test]
fn a_match_without_a_creation_time_fails_the_queries_that_return_it() {
    let mut store = CacheStore::new();
    store
        .insert_match_details_tx(
            "timeless",
            "p-1",
            Some("14.1"),
            None,
            None,
            None,
            None,
            Some("CLASSIC"),
            None,
            None,
            None,
            Vec::new(),
            diana::models::TeamsTag { queueId: 0 },
        )
        .unwrap();
    assert_eq!(store.latest_match_for_puuid("p-1"), Err(SyncError::StoreFailure));
    assert!(store.get_recent_matches("p-1", 5).is_err());
    assert!(store.get_recent_matches("p-1", 0).unwrap().is_empty());
    assert!(store.get_recent_matches("p-2", 5).unwrap().is_empty());
}

#[test]
fn a_snapshot_is_stored_once_per_player() {
    let mut store = CacheStore::new();
    assert!(store.get_summoner("p-1").is_none());
    store.upsert_summoner("p-1", "Old Name", "EUW", "EUW", None, None, None, 1000);
    let first = store.get_summoner("p-1").unwrap();
    assert_eq!(first.gameName, "Old Name");
    assert_eq!(first.tier, "UNRANKED");
    assert_eq!(first.rank, None);
    assert_eq!(first.lp, 0);
    assert_eq!(first.lastUpdated, 1000);
    assert_eq!(first.lastMissingDataNotification, 1000);
    store.upsert_summoner("p-2", "Other", "NA1", "NA", Some("IRON"), Some("IV"), Some(3), 1500);
    store.upsert_summoner("p-1", "New Name", "EUW2", "EUNE", Some("GOLD"), Some("II"), Some(57), 2000);
    let second = store.get_summoner("p-1").unwrap();
    assert_eq!(second.puuid, "p-1");
    assert_eq!(second.gameName, "New Name");
    assert_eq!(second.tagLine, "EUW2");
    assert_eq!(second.region, "EUNE");
    assert_eq!(second.tier, "GOLD");
    assert_eq!(second.rank, Some("II".to_string()));
    assert_eq!(second.lp, 57);
    assert_eq!(second.lastUpdated, 2000);
    assert_eq!(second.lastMissingDataNotification, 1000);
    let other = store.get_summoner("p-2").unwrap();
    assert_eq!(other.gameName, "Other");
    assert_eq!(other.lp, 3);
    // A snapshot that comes with an earlier time does not set the time back.
    store.upsert_summoner("p-1", "Newer Name", "EUW2", "EUNE", None, None, None, 1200);
    let third = store.get_summoner("p-1").unwrap();
    assert_eq!(third.gameName, "Newer Name");
    assert_eq!(third.tier, "UNRANKED");
    assert_eq!(third.lp, 0);
    assert_eq!(third.lastUpdated, 2000);
}
