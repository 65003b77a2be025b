use diana::db_proxy::{
    compute_player_summary_url, compute_rank_progress_url, get_daily_activity_url,
    get_match_details_url, get_recent_matches_url, get_summoner_url, init_pool,
    insert_match_details_url, insert_timeline_frame_url, inserted_frame_id, inserted_match_id,
    latest_match_for_puuid_url, match_exists_url, proxy_base_url, proxy_health_url, reply_has_row,
    store_reply, summarize_match_url, timeline_frame_exists_url, upsert_summoner_url,
};
use diana::error::SyncError;
use diana::models::{AccountDto, LeagueEntryDto, SummonerDto};
use diana::profile::{build_profile, display_name, profile_icon_url, rank_is_known};
use diana::riot::{
    account_reply, check_proxy_connectivity, get_account_by_puuid_url, get_account_by_riot_id_url,
    get_latest_ddragon_version_url, get_match_by_id_url, get_match_ids_url, get_rank_solo_url,
    get_summoner_by_puuid_url, get_summoner_names_by_puuids_url, get_timeline_by_id_url,
    is_success, latest_version, map_region, pick_solo_rank, provider_reply,
};
use diana::text::{ascii_upper_is, same_text, upper_char};

const BASE: &str = "http://localhost:4000/api";

#[test]
fn regions_are_routed_whatever_their_case() {
    assert_eq!(map_region("EUW"), Some(("euw1", "europe")));
    assert_eq!(map_region("euw1"), Some(("euw1", "europe")));
    assert_eq!(map_region("Eune"), Some(("eun1", "europe")));
    assert_eq!(map_region("EUN1"), Some(("eun1", "europe")));
    assert_eq!(map_region("na"), Some(("na1", "americas")));
    assert_eq!(map_region("NA1"), Some(("na1", "americas")));
    assert_eq!(map_region("kr"), Some(("kr", "asia")));
    assert_eq!(map_region("JP"), Some(("jp1", "asia")));
    assert_eq!(map_region("jp1"), Some(("jp1", "asia")));
    assert_eq!(map_region("BR"), Some(("br1", "americas")));
    assert_eq!(map_region("br1"), Some(("br1", "americas")));
    assert_eq!(map_region("LAN"), Some(("la1", "americas")));
    assert_eq!(map_region("la1"), Some(("la1", "americas")));
    assert_eq!(map_region("LAS"), Some(("la2", "americas")));
    assert_eq!(map_region("la2"), Some(("la2", "americas")));
    assert_eq!(map_region("oce"), Some(("oc1", "sea")));
    assert_eq!(map_region("OC1"), Some(("oc1", "sea")));
    assert_eq!(map_region("tr"), Some(("tr1", "europe")));
    assert_eq!(map_region("TR1"), Some(("tr1", "europe")));
    assert_eq!(map_region("ru"), Some(("ru", "europe")));
    assert_eq!(map_region("RU1"), Some(("ru", "europe")));
}

#[test]
fn unknown_regions_are_not_routed() {
    assert_eq!(map_region(""), None);
    assert_eq!(map_region("KR1"), None);
    assert_eq!(map_region("EUW2"), None);
    assert_eq!(map_region(" euw"), None);
    assert_eq!(map_region("MOON"), None);
}

#[test]
fn names_and_tags_are_percent_encoded_in_the_account_address() {
    assert_eq!(
        get_account_by_riot_id_url(BASE, "asia", "Hide on bush", "KR1#é👾"),
        "http://localhost:4000/api/riot/account/v1/accounts/by-riot-id/Hide%20on%20bush/KR1%23%C3%A9%F0%9F%91%BE?region=asia"
    );
    assert_eq!(
        get_account_by_riot_id_url(BASE, "europe", "Plain-Name_1.0~", "EUW"),
        "http://localhost:4000/api/riot/account/v1/accounts/by-riot-id/Plain-Name_1.0~/EUW?region=europe"
    );
}

#[test]
fn provider_addresses_are_built_from_their_parts() {
    assert_eq!(
        get_account_by_puuid_url(BASE, "europe", "p-1"),
        "http://localhost:4000/api/riot/account/v1/accounts/by-puuid/p-1?region=europe"
    );
    assert_eq!(
        get_summoner_by_puuid_url(BASE, "euw1", "p-1"),
        "http://localhost:4000/api/lol/summoner/v4/summoners/by-puuid/p-1?platform=euw1"
    );
    assert_eq!(
        get_rank_solo_url(BASE, "euw1", "p-1"),
        "http://localhost:4000/api/lol/league/v4/entries/by-puuid/p-1?platform=euw1"
    );
    assert_eq!(
        get_match_ids_url(BASE, "europe", "p-1", 0, 10),
        "http://localhost:4000/api/lol/match/v5/matches/by-puuid/p-1/ids?region=europe&start=0&count=10"
    );
    assert_eq!(
        get_match_ids_url(BASE, "europe", "p-1", 4294967295, 120),
        "http://localhost:4000/api/lol/match/v5/matches/by-puuid/p-1/ids?region=europe&start=4294967295&count=120"
    );
    assert_eq!(
        get_match_by_id_url(BASE, "europe", "EUW1_1"),
        "http://localhost:4000/api/lol/match/v5/matches/EUW1_1?region=europe"
    );
    assert_eq!(
        get_timeline_by_id_url(BASE, "europe", "EUW1_1"),
        "http://localhost:4000/api/lol/match/v5/matches/EUW1_1/timeline?region=europe"
    );
    assert_eq!(get_latest_ddragon_version_url(BASE), "http://localhost:4000/api/ddragon/versions");
    assert_eq!(
        get_summoner_names_by_puuids_url(BASE, "europe"),
        "http://localhost:4000/api/riot/account/v1/accounts/batch?region=europe"
    );
}

#[test]
fn store_addresses_are_built_from_their_parts() {
    assert_eq!(upsert_summoner_url(BASE), "http://localhost:4000/api/db/summoners");
    assert_eq!(get_summoner_url(BASE, "p-1"), "http://localhost:4000/api/db/summoners/p-1");
    assert_eq!(match_exists_url(BASE, "EUW1_1"), "http://localhost:4000/api/db/matches/EUW1_1/exists");
    assert_eq!(latest_match_for_puuid_url(BASE, "p-1"), "http://localhost:4000/api/db/matches/p-1/latest");
    assert_eq!(
        get_recent_matches_url(BASE, "p-1", 10),
        "http://localhost:4000/api/db/matches/p-1/recent?limit=10"
    );
    assert_eq!(
        get_recent_matches_url(BASE, "p-1", -3),
        "http://localhost:4000/api/db/matches/p-1/recent?limit=-3"
    );
    assert_eq!(
        get_recent_matches_url(BASE, "p-1", i64::MIN),
        "http://localhost:4000/api/db/matches/p-1/recent?limit=-9223372036854775808"
    );
    assert_eq!(insert_match_details_url(BASE), "http://localhost:4000/api/db/matches");
    assert_eq!(insert_timeline_frame_url(BASE), "http://localhost:4000/api/db/timeline-frames");
    assert_eq!(
        timeline_frame_exists_url(BASE, 42, 7),
        "http://localhost:4000/api/db/timeline-frames/42/7/exists"
    );
    assert_eq!(compute_player_summary_url(BASE, "p-1"), "http://localhost:4000/api/db/summaries/p-1");
    assert_eq!(get_daily_activity_url(BASE, "p-1"), "http://localhost:4000/api/db/activity/p-1");
    assert_eq!(
        compute_rank_progress_url(BASE, "p-1", "GOLD", "II", 57),
        "http://localhost:4000/api/db/rank-progress/p-1?currentTier=GOLD&currentDivision=II&currentLp=57"
    );
    assert_eq!(
        summarize_match_url(BASE, "EUW1_1", "p-1", "14.18.1"),
        "http://localhost:4000/api/db/match-summary/EUW1_1/p-1/14.18.1"
    );
    assert_eq!(
        get_match_details_url(BASE, "EUW1_1", "p-1", "14.18.1"),
        "http://localhost:4000/api/db/match-details/EUW1_1/p-1/14.18.1"
    );
}

#[test]
fn the_health_check_leaves_off_the_api_ending() {
    assert_eq!(proxy_health_url("http://localhost:4000/api"), "http://localhost:4000/health");
    assert_eq!(proxy_health_url("http://localhost:4000/api/api"), "http://localhost:4000/health");
    assert_eq!(proxy_health_url("http://localhost:4000"), "http://localhost:4000/health");
    assert_eq!(proxy_health_url("http://localhost:4000/api/"), "http://localhost:4000/api//health");
    assert_eq!(proxy_health_url("/api"), "/health");
    assert_eq!(proxy_health_url("api"), "api/health");
    assert_eq!(proxy_health_url(""), "/health");
    assert_eq!(proxy_health_url("http://höst/api"), "http://höst/health");
}

#[test]
fn the_gateway_address_falls_back_to_the_default() {
    assert_eq!(proxy_base_url(Some("https://proxy.example/api")), "https://proxy.example/api");
    assert_eq!(proxy_base_url(None), "http://localhost:4000/api");
}

#[test]
fn only_statuses_of_the_two_hundreds_are_success() {
    assert!(!is_success(199));
    assert!(is_success(200));
    assert!(is_success(204));
    assert!(is_success(299));
    assert!(!is_success(300));
    assert!(!is_success(404));
    assert!(!is_success(500));
    assert_eq!(provider_reply(200), Ok(()));
    assert_eq!(provider_reply(429), Err(SyncError::ProviderRequestFailed(None)));
    assert_eq!(store_reply(201), Ok(()));
    assert_eq!(store_reply(500), Err(SyncError::StoreFailure));
}

#[test]
fn an_account_that_is_not_found_is_told_from_a_failed_request() {
    assert_eq!(account_reply(200), Ok(true));
    assert_eq!(account_reply(404), Ok(false));
    assert_eq!(account_reply(403), Err(SyncError::ProviderRequestFailed(None)));
    assert_eq!(account_reply(500), Err(SyncError::ProviderRequestFailed(None)));
}

#[test]
fn the_gateway_is_available_only_when_it_answers_with_success() {
    assert!(check_proxy_connectivity(Some(200)));
    assert!(!check_proxy_connectivity(Some(503)));
    assert!(!check_proxy_connectivity(None));
    assert_eq!(init_pool(Some(200)), Ok(()));
    assert_eq!(init_pool(Some(500)), Err(SyncError::ProviderUnavailable));
    assert_eq!(init_pool(None), Err(SyncError::ProviderUnavailable));
}

#[test]
fn answers_that_may_hold_a_row_are_read() {
    assert_eq!(reply_has_row(200, "{\"puuid\":\"p-1\"}", true), Ok(true));
    assert_eq!(reply_has_row(200, "null", true), Ok(false));
    assert_eq!(reply_has_row(404, "not found", true), Ok(false));
    assert_eq!(reply_has_row(404, "not found", false), Err(SyncError::StoreFailure));
    assert_eq!(reply_has_row(500, "null", true), Err(SyncError::StoreFailure));
    assert_eq!(reply_has_row(200, "null", false), Ok(false));
    assert_eq!(reply_has_row(200, "nul", false), Ok(true));
}

#[test]
fn a_missing_or_zero_surrogate_id_is_a_store_failure() {
    assert_eq!(inserted_match_id(Some(17)), Ok(17));
    assert_eq!(inserted_match_id(Some(-4)), Ok(-4));
    assert_eq!(inserted_match_id(Some(0)), Err(SyncError::StoreFailure));
    assert_eq!(inserted_match_id(None), Err(SyncError::StoreFailure));
    assert_eq!(inserted_frame_id(Some(9)), 9);
    assert_eq!(inserted_frame_id(None), 0);
}

fn entry(queue: &str, tier: &str, rank: &str, lp: i32) -> LeagueEntryDto {
    LeagueEntryDto {
        queueType: queue.to_string(),
        tier: tier.to_string(),
        rank: rank.to_string(),
        leaguePoints: lp,
    }
}

#[test]
fn the_rank_is_that_of_the_first_solo_entry() {
    let entries = vec![
        entry("RANKED_FLEX_SR", "SILVER", "I", 12),
        entry("RANKED_SOLO_5x5", "GOLD", "II", 57),
        entry("RANKED_SOLO_5x5", "IRON", "IV", 0),
    ];
    assert_eq!(
        pick_solo_rank(&entries),
        (Some("GOLD".to_string()), Some("II".to_string()), Some(57))
    );
    assert_eq!(pick_solo_rank(&vec![entry("RANKED_FLEX_SR", "SILVER", "I", 12)]), (None, None, None));
    assert_eq!(pick_solo_rank(&vec![entry("ranked_solo_5x5", "SILVER", "I", 12)]), (None, None, None));
    assert_eq!(pick_solo_rank(&Vec::new()), (None, None, None));
}

#[test]
fn the_data_version_is_the_first_listed() {
    assert_eq!(
        latest_version(&vec!["14.18.1".to_string(), "14.17.1".to_string()]),
        Ok("14.18.1".to_string())
    );
    assert_eq!(latest_version(&Vec::new()), Err(SyncError::ProviderRequestFailed(None)));
}

#[test]
fn a_profile_is_put_together_from_account_and_summoner() {
    let account = AccountDto {
        puuid: "p-1".to_string(),
        gameName: "Faker".to_string(),
        tagLine: "KR1".to_string(),
    };
    let summoner = SummonerDto {
        id: "s-1".to_string(),
        puuid: "p-1".to_string(),
        name: String::new(),
        profileIconId: 6,
        summonerLevel: 812,
    };
    let tier = Some("CHALLENGER".to_string());
    let division = Some("I".to_string());
    let profile = build_profile(&account, &summoner, "kr", "14.18.1", &tier, &division, Some(1500));
    assert_eq!(profile.puuid, "p-1");
    assert_eq!(profile.name, "Faker");
    assert_eq!(profile.tagline, "KR1");
    assert_eq!(profile.region, "KR");
    assert_eq!(profile.summoner_level, 812);
    assert_eq!(
        profile.profile_icon_url,
        "https://ddragon.leagueoflegends.com/cdn/14.18.1/img/profileicon/6.png"
    );
    assert_eq!(profile.tier, Some("CHALLENGER".to_string()));
    assert_eq!(profile.division, Some("I".to_string()));
    assert_eq!(profile.lp, Some(1500));

    let named = SummonerDto { name: "Hide on bush".to_string(), summonerLevel: 4294967296 + 7, ..summoner };
    let profile = build_profile(&account, &named, "straße", "14.18.1", &None, &None, None);
    assert_eq!(profile.name, "Hide on bush");
    assert_eq!(profile.region, "STRASSE");
    assert_eq!(profile.summoner_level, 7);
    assert_eq!(profile.tier, None);
    assert_eq!(profile.lp, None);
}

#[test]
fn the_shown_name_is_the_summoners_unless_it_is_empty() {
    assert_eq!(display_name("", "Account"), "Account");
    assert_eq!(display_name("Summoner", "Account"), "Summoner");
    assert_eq!(display_name("", ""), "");
    assert_eq!(profile_icon_url("15.1.1", -1), "https://ddragon.leagueoflegends.com/cdn/15.1.1/img/profileicon/-1.png");
}

#[test]
fn a_rank_is_known_when_all_its_parts_are() {
    let t = Some("GOLD".to_string());
    let d = Some("II".to_string());
    assert!(rank_is_known(&t, &d, Some(10)));
    assert!(!rank_is_known(&None, &d, Some(10)));
    assert!(!rank_is_known(&t, &None, Some(10)));
    assert!(!rank_is_known(&t, &d, None));
}

#[test]
fn texts_compare_with_and_without_case() {
    assert!(same_text("abc", "abc"));
    assert!(!same_text("abc", "abd"));
    assert!(!same_text("abc", "ab"));
    assert!(ascii_upper_is("kR", "KR"));
    assert!(ascii_upper_is("", ""));
    assert!(!ascii_upper_is("KR", "kr"));
    assert!(!ascii_upper_is("é", "É"));
    assert_eq!(upper_char('a'), 'A');
    assert_eq!(upper_char('z'), 'Z');
    assert_eq!(upper_char('A'), 'A');
    assert_eq!(upper_char('{'), '{');
    assert_eq!(upper_char('`'), '`');
    assert_eq!(upper_char('ß'), 'ß');
}
