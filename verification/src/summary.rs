//! A player's summary over their ranked games.
//!
//! Only games of the ranked queue that lasted long enough count. Over those,
//! the summary gives the number of games, wins and losses, the share of games
//! won, kills and assists per death, and the champions played most.

use vstd::prelude::*;
use vstd::string::*;
use crate::models::{ParticipantDto, ParticipantDtoView};
use crate::select::{is_top_selection, ranks_before, select_top, SortKey};
use crate::store::{MatchDetailsRow, MatchDetailsRowView};

verus! {

/// The queue whose games count.
pub const RANKED_QUEUE: i32 = 420;

/// The duration, in seconds, below which a game does not count.
pub const MIN_RANKED_DURATION: i32 = 300;

/// The number of games below which a champion is not listed.
pub const TOP_CHAMPION_MIN_GAMES: u64 = 3;

/// The number of champions listed at most.
pub const TOP_CHAMPION_LIMIT: usize = 10;

/// What one player did in one ranked game.
#[derive(Debug)]
pub struct Performance {
    pub champion: String,
    pub win: bool,
    pub kills: i32,
    pub deaths: i32,
    pub assists: i32,
}

/// What a [`Performance`] holds, as plain values.
pub struct PerformanceView {
    pub champion: Seq<char>,
    pub win: bool,
    pub kills: i32,
    pub deaths: i32,
    pub assists: i32,
}

impl DeepView for Performance {
    type V = PerformanceView;

    open spec fn deep_view(&self) -> PerformanceView {
        PerformanceView {
            champion: self.champion@,
            win: self.win,
            kills: self.kills,
            deaths: self.deaths,
            assists: self.assists,
        }
    }
}

/// One of a player's most played champions.
#[derive(Debug)]
pub struct TopChamp {
    pub champion_name: String,
    pub icon_url: String,
    pub games: u64,
    pub wins: u64,
    /// The share of games won, in percent, rounded to a whole number.
    pub winrate: u32,
    /// Kills and assists per death, in hundredths.
    pub kda_hundredths: i128,
}

/// What a [`TopChamp`] holds, as plain values.
pub struct TopChampView {
    pub champion_name: Seq<char>,
    pub icon_url: Seq<char>,
    pub games: u64,
    pub wins: u64,
    pub winrate: u32,
    pub kda_hundredths: i128,
}

impl DeepView for TopChamp {
    type V = TopChampView;

    open spec fn deep_view(&self) -> TopChampView {
        TopChampView {
            champion_name: self.champion_name@,
            icon_url: self.icon_url@,
            games: self.games,
            wins: self.wins,
            winrate: self.winrate,
            kda_hundredths: self.kda_hundredths,
        }
    }
}

/// The headline figures of a player's summary.
#[derive(Debug, Clone, Copy)]
pub struct PlayerStats {
    /// The share of games won, in percent, rounded to a whole number.
    pub winrate: u32,
    pub games: u64,
    pub streak: i32,
    /// Kills and assists per death, in hundredths.
    pub kda_hundredths: i128,
}

/// A player's summary over their ranked games.
#[derive(Debug)]
pub struct PlayerSummary {
    pub games: u64,
    pub wins: u64,
    pub losses: u64,
    /// Kills and assists per death, in hundredths.
    pub kda_hundredths: i128,
    /// The share of games won, in percent, rounded to a whole number.
    pub winrate: u32,
    pub streak: i32,
    pub top_champs: Vec<TopChamp>,
}

/// What a [`PlayerSummary`] holds, as plain values.
pub struct PlayerSummaryView {
    pub games: u64,
    pub wins: u64,
    pub losses: u64,
    pub kda_hundredths: i128,
    pub winrate: u32,
    pub streak: i32,
    pub top_champs: Seq<TopChampView>,
}

impl DeepView for PlayerSummary {
    type V = PlayerSummaryView;

    open spec fn deep_view(&self) -> PlayerSummaryView {
        PlayerSummaryView {
            games: self.games,
            wins: self.wins,
            losses: self.losses,
            kda_hundredths: self.kda_hundredths,
            winrate: self.winrate,
            streak: self.streak,
            top_champs: self.top_champs.deep_view(),
        }
    }
}

/// Whether a stored match counts towards the summary.
pub open spec fn counts_as_ranked(m: MatchDetailsRowView) -> bool {
    &&& m.queue_type == Some(RANKED_QUEUE)
    &&& m.game_duration matches Some(d) && d >= MIN_RANKED_DURATION
}

/// What a participant entry says of the player's game.
pub open spec fn performance_of(p: ParticipantDtoView) -> PerformanceView {
    PerformanceView {
        champion: p.championName,
        win: p.win,
        kills: p.kills,
        deaths: p.deaths,
        assists: p.assists,
    }
}

/// The player's performances among the first `upto` participants of a match.
pub open spec fn performances_in(people: Seq<ParticipantDtoView>, puuid: Seq<char>, upto: nat)
    -> Seq<PerformanceView>
    decreases upto,
{
    if upto == 0 {
        Seq::empty()
    } else {
        let before = performances_in(people, puuid, (upto - 1) as nat);
        if people[upto - 1].puuid == puuid {
            before.push(performance_of(people[upto - 1]))
        } else {
            before
        }
    }
}

/// The player's performances in the first `upto` stored matches, those that
/// count, in the order of the store.
pub open spec fn performances(matches: Seq<MatchDetailsRowView>, puuid: Seq<char>, upto: nat)
    -> Seq<PerformanceView>
    decreases upto,
{
    if upto == 0 {
        Seq::empty()
    } else {
        let before = performances(matches, puuid, (upto - 1) as nat);
        let m = matches[upto - 1];
        if counts_as_ranked(m) {
            before + performances_in(m.participants, puuid, m.participants.len())
        } else {
            before
        }
    }
}

/// Sums over performances.
pub struct Tally {
    pub games: nat,
    pub wins: nat,
    pub kills: int,
    pub deaths: int,
    pub assists: int,
}

/// The sums over the first `upto` performances: over all of them, or over
/// those on one champion.
pub open spec fn tally(rows: Seq<PerformanceView>, only: Option<Seq<char>>, upto: nat) -> Tally
    decreases upto,
{
    if upto == 0 {
        Tally { games: 0, wins: 0, kills: 0, deaths: 0, assists: 0 }
    } else {
        let before = tally(rows, only, (upto - 1) as nat);
        let row = rows[upto - 1];
        if only matches Some(name) && row.champion != name {
            before
        } else {
            Tally {
                games: before.games + 1,
                wins: before.wins + if row.win { 1nat } else { 0nat },
                kills: before.kills + row.kills,
                deaths: before.deaths + row.deaths,
                assists: before.assists + row.assists,
            }
        }
    }
}

/// `a / b` rounded to the nearest whole number, halves away from zero.
pub open spec fn div_round(a: int, b: int) -> int
    recommends
        b != 0,
{
    let (n, d) = if b < 0 {
        (-a, -b)
    } else {
        (a, b)
    };
    if n >= 0 {
        (2 * n + d) / (2 * d)
    } else {
        -((2 * (-n) + d) / (2 * d))
    }
}

/// Kills and assists per death, in hundredths; with no death, kills and
/// assists themselves.
pub open spec fn efficiency_hundredths(kills: int, deaths: int, assists: int) -> int {
    if deaths == 0 {
        100 * (kills + assists)
    } else {
        div_round(100 * (kills + assists), deaths)
    }
}

/// The share of games won, in percent, rounded to a whole number; zero
/// without games.
pub open spec fn percent_won(wins: nat, games: nat) -> int {
    if games == 0 {
        0
    } else {
        div_round(100 * (wins as int), games as int)
    }
}

/// Where the icon of a champion is found.
pub open spec fn champion_icon_url(name: Seq<char>) -> Seq<char> {
    "https://ddragon.leagueoflegends.com/cdn/14.18.1/img/champion/"@ + name + ".png"@
}

/// Whether an entry describes the named champion as the performances do, and
/// the champion was played often enough to be listed.
pub open spec fn describes_champion(rows: Seq<PerformanceView>, e: TopChampView) -> bool {
    let t = tally(rows, Some(e.champion_name), rows.len());
    &&& t.games >= TOP_CHAMPION_MIN_GAMES
    &&& e.games == t.games
    &&& e.wins == t.wins
    &&& e.winrate == percent_won(t.wins, t.games)
    &&& e.kda_hundredths == efficiency_hundredths(t.kills, t.deaths, t.assists)
    &&& e.icon_url == champion_icon_url(e.champion_name)
}

/// Whether a champion with these figures may stand before one with those:
/// more games, or as many games and at least as many wins.
pub open spec fn not_below(games: int, wins: int, other_games: int, other_wins: int) -> bool {
    games > other_games || (games == other_games && wins >= other_wins)
}

/// Whether `top` lists the champions played most: each listed once and
/// described as the performances do, more games first and more wins first
/// among equals, and none left out that was played often enough, unless the
/// list is full and every listed champion may stand before it.
pub open spec fn is_top_champions(rows: Seq<PerformanceView>, top: Seq<TopChampView>) -> bool {
    &&& top.len() <= TOP_CHAMPION_LIMIT
    &&& forall|i: int| 0 <= i < top.len() ==> describes_champion(rows, #[trigger] top[i])
    &&& forall|i: int, j: int|
        0 <= i < j < top.len() ==> (#[trigger] top[i]).champion_name != (
        #[trigger] top[j]).champion_name && not_below(
            top[i].games as int,
            top[i].wins as int,
            top[j].games as int,
            top[j].wins as int,
        )
    &&& forall|name: Seq<char>|
        (#[trigger] tally(rows, Some(name), rows.len())).games >= TOP_CHAMPION_MIN_GAMES ==> {
            ||| exists|i: int| 0 <= i < top.len() && (#[trigger] top[i]).champion_name == name
            ||| {
                &&& top.len() == TOP_CHAMPION_LIMIT
                &&& forall|i: int|
                    0 <= i < top.len() ==> not_below(
                        (#[trigger] top[i]).games as int,
                        top[i].wins as int,
                        tally(rows, Some(name), rows.len()).games as int,
                        tally(rows, Some(name), rows.len()).wins as int,
                    )
            }
        }
}

/// What a summary says of the performances it was compiled from.
pub open spec fn summarizes(rows: Seq<PerformanceView>, s: PlayerSummaryView) -> bool {
    let t = tally(rows, None, rows.len());
    &&& s.games == t.games
    &&& s.wins == t.wins
    &&& s.losses == t.games - t.wins
    &&& s.kda_hundredths == efficiency_hundredths(t.kills, t.deaths, t.assists)
    &&& s.winrate == percent_won(t.wins, t.games)
    &&& s.streak == 0
    &&& is_top_champions(rows, s.top_champs)
}

/// A tally counts no more games than there are performances, no more wins
/// than games, and its sums are bounded by the number of performances.
pub proof fn lemma_tally_bounds(rows: Seq<PerformanceView>, only: Option<Seq<char>>, upto: nat)
    ensures
        tally(rows, only, upto).wins <= tally(rows, only, upto).games <= upto,
        -0x8000_0000 * upto <= tally(rows, only, upto).kills <= 0x8000_0000 * upto,
        -0x8000_0000 * upto <= tally(rows, only, upto).deaths <= 0x8000_0000 * upto,
        -0x8000_0000 * upto <= tally(rows, only, upto).assists <= 0x8000_0000 * upto,
    decreases upto,
{
    if upto > 0 {
        lemma_tally_bounds(rows, only, (upto - 1) as nat);
    }
}

/// A champion that no performance so far is on has an empty tally; one with
/// a game in its tally has a performance on it.
pub proof fn lemma_tally_of_unplayed(rows: Seq<PerformanceView>, name: Seq<char>, upto: nat)
    requires
        upto <= rows.len(),
    ensures
        (forall|j: int| 0 <= j < upto ==> (#[trigger] rows[j]).champion != name) ==> tally(
            rows,
            Some(name),
            upto,
        ) == (Tally { games: 0, wins: 0, kills: 0, deaths: 0, assists: 0 }),
        tally(rows, Some(name), upto).games > 0 ==> exists|j: int|
            0 <= j < upto && (#[trigger] rows[j]).champion == name,
    decreases upto,
{
    if upto > 0 {
        lemma_tally_of_unplayed(rows, name, (upto - 1) as nat);
        if tally(rows, Some(name), upto).games > 0 {
            if rows[upto - 1].champion == name {
            } else {
                let j = choose|j: int| 0 <= j < upto - 1 && (#[trigger] rows[j]).champion == name;
                assert(rows[j].champion == name);
            }
        }
    }
}

/// Divides and rounds to the nearest whole number, halves away from zero.
pub fn div_rounded(a: i128, b: i128) -> (r: i128)
    requires
        b != 0,
        -0x4000_0000_0000_0000_0000_0000_0000_0000 < a < 0x4000_0000_0000_0000_0000_0000_0000_0000,
        -0x4000_0000_0000_0000_0000_0000_0000_0000 < b < 0x4000_0000_0000_0000_0000_0000_0000_0000,
    ensures
        r == div_round(a as int, b as int),
{
    let n: i128 = if b < 0 {
        -a
    } else {
        a
    };
    let d: i128 = if b < 0 {
        -b
    } else {
        b
    };
    if n >= 0 {
        let lifted: u128 = 2 * (n as u128) + (d as u128);
        let q: u128 = lifted / (2 * (d as u128));
        assert(2 * q <= lifted) by (nonlinear_arith)
            requires
                q as int == (lifted as int) / (2 * (d as int)),
                d >= 1,
                lifted >= 0,
        ;
        q as i128
    } else {
        let lifted: u128 = 2 * ((-n) as u128) + (d as u128);
        let q: u128 = lifted / (2 * (d as u128));
        assert(2 * q <= lifted) by (nonlinear_arith)
            requires
                q as int == (lifted as int) / (2 * (d as int)),
                d >= 1,
                lifted >= 0,
        ;
        -(q as i128)
    }
}

/// The running sums of the executable code.
struct Totals {
    games: u64,
    wins: u64,
    kills: i128,
    deaths: i128,
    assists: i128,
}

impl Totals {
    spec fn is(&self, t: Tally) -> bool {
        &&& self.games == t.games
        &&& self.wins == t.wins
        &&& self.kills == t.kills
        &&& self.deaths == t.deaths
        &&& self.assists == t.assists
    }
}

fn kda_of(t: &Totals, Ghost(tally): Ghost<Tally>, Ghost(upto): Ghost<nat>) -> (r: i128)
    requires
        t.is(tally),
        upto <= usize::MAX,
        -0x8000_0000 * upto <= tally.kills <= 0x8000_0000 * upto,
        -0x8000_0000 * upto <= tally.deaths <= 0x8000_0000 * upto,
        -0x8000_0000 * upto <= tally.assists <= 0x8000_0000 * upto,
    ensures
        r == efficiency_hundredths(tally.kills, tally.deaths, tally.assists),
{
    let both: i128 = t.kills + t.assists;
    if t.deaths == 0 {
        100 * both
    } else {
        div_rounded(100 * both, t.deaths)
    }
}

fn winrate_of(t: &Totals, Ghost(tally): Ghost<Tally>) -> (r: u32)
    requires
        t.is(tally),
        tally.wins <= tally.games,
    ensures
        r == percent_won(tally.wins, tally.games),
{
    if t.games == 0 {
        0
    } else {
        let wins: i128 = t.wins as i128;
        let games: i128 = t.games as i128;
        let q: i128 = div_rounded(100 * wins, games);
        assert(0 <= q <= 100) by (nonlinear_arith)
            requires
                q == (2 * (100 * wins) + games) / (2 * games),
                0 <= wins <= games,
                games >= 1,
        ;
        q as u32
    }
}

fn performance_from(p: &ParticipantDto) -> (r: Performance)
    ensures
        r.deep_view() == performance_of(p.deep_view()),
{
    Performance {
        champion: p.championName.clone(),
        win: p.win,
        kills: p.kills,
        deaths: p.deaths,
        assists: p.assists,
    }
}

/// Gathers the player's performances from the stored matches that count.
pub fn collect_performances(matches: &Vec<MatchDetailsRow>, puuid: &str) -> (rows: Vec<
    Performance,
>)
    ensures
        rows.deep_view() == performances(matches.deep_view(), puuid@, matches.len() as nat),
{
    let mut rows: Vec<Performance> = Vec::new();
    let n: usize = matches.len();
    let mut i: usize = 0;
    assert(rows.deep_view() =~= Seq::empty());
    while i < n
        invariant
            i <= n,
            n == matches.len(),
            rows.deep_view() == performances(matches.deep_view(), puuid@, i as nat),
        decreases n - i,
    {
        let m = &matches[i];
        let ranked = match (m.queue_type, m.game_duration) {
            (Some(q), Some(d)) => q == RANKED_QUEUE && d >= MIN_RANKED_DURATION,
            _ => false,
        };
        assert(matches.deep_view()[i as int] == m.deep_view());
        if ranked {
            let ghost before = rows.deep_view();
            let people: usize = m.participants.len();
            let mut j: usize = 0;
            assert(rows.deep_view() =~= before + performances_in(
                m.participants.deep_view(),
                puuid@,
                0,
            ));
            while j < people
                invariant
                    j <= people,
                    people == m.participants.len(),
                    rows.deep_view() == before + performances_in(
                        m.participants.deep_view(),
                        puuid@,
                        j as nat,
                    ),
                decreases people - j,
            {
                let p = &m.participants[j];
                assert(m.participants.deep_view()[j as int] == p.deep_view());
                if crate::text::same_text(p.puuid.as_str(), puuid) {
                    let ghost so_far = rows.deep_view();
                    let row = performance_from(p);
                    let ghost row_view = row.deep_view();
                    rows.push(row);
                    assert(rows.deep_view() =~= so_far.push(row_view));
                    assert(rows.deep_view() =~= before + performances_in(
                        m.participants.deep_view(),
                        puuid@,
                        (j + 1) as nat,
                    ));
                }
                j += 1;
            }
        }
        i += 1;
    }
    rows
}

fn add_to(t: &Totals, row: &Performance, Ghost(upto): Ghost<nat>) -> (r: Totals)
    requires
        upto < usize::MAX,
        t.wins <= t.games <= upto,
        -0x8000_0000 * upto <= t.kills <= 0x8000_0000 * upto,
        -0x8000_0000 * upto <= t.deaths <= 0x8000_0000 * upto,
        -0x8000_0000 * upto <= t.assists <= 0x8000_0000 * upto,
    ensures
        r.games == t.games + 1,
        r.wins == t.wins + if row.win { 1int } else { 0int },
        r.kills == t.kills + row.kills,
        r.deaths == t.deaths + row.deaths,
        r.assists == t.assists + row.assists,
{
    Totals {
        games: t.games + 1,
        wins: if row.win {
            t.wins + 1
        } else {
            t.wins
        },
        kills: t.kills + row.kills as i128,
        deaths: t.deaths + row.deaths as i128,
        assists: t.assists + row.assists as i128,
    }
}

fn tally_all(rows: &Vec<Performance>) -> (t: Totals)
    ensures
        t.is(tally(rows.deep_view(), None, rows.len() as nat)),
{
    let mut t = Totals { games: 0, wins: 0, kills: 0, deaths: 0, assists: 0 };
    let n: usize = rows.len();
    let mut i: usize = 0;
    while i < n
        invariant
            i <= n,
            n == rows.len(),
            t.is(tally(rows.deep_view(), None, i as nat)),
        decreases n - i,
    {
        proof {
            lemma_tally_bounds(rows.deep_view(), None, i as nat);
            assert(rows.deep_view()[i as int] == rows[i as int].deep_view());
        }
        t = add_to(&t, &rows[i], Ghost(i as nat));
        i += 1;
    }
    t
}

/// The performances on one champion, summed.
struct Group {
    name: String,
    totals: Totals,
}

/// Whether the groups hold, for each champion met among the first `upto`
/// performances, its sums over those performances, each champion once.
spec fn groups_cover(groups: Seq<Group>, rows: Seq<PerformanceView>, upto: nat) -> bool {
    &&& forall|g: int|
        0 <= g < groups.len() ==> (#[trigger] groups[g]).totals.is(
            tally(rows, Some(groups[g].name@), upto),
        )
    &&& forall|g: int, h: int|
        0 <= g < h < groups.len() ==> (#[trigger] groups[g]).name@ != (#[trigger] groups[h]).name@
    &&& forall|j: int| 0 <= j < upto ==> has_group(groups, (#[trigger] rows[j]).champion)
}

spec fn has_group(groups: Seq<Group>, name: Seq<char>) -> bool {
    exists|g: int| 0 <= g < groups.len() && (#[trigger] groups[g]).name@ == name
}

fn find_group(groups: &Vec<Group>, name: &String) -> (r: Option<usize>)
    ensures
        match r {
            Some(g) => g < groups.len() && groups[g as int].name@ == name@,
            None => !has_group(groups@, name@),
        },
{
    let n: usize = groups.len();
    let mut g: usize = 0;
    while g < n
        invariant
            g <= n,
            n == groups.len(),
            forall|h: int| 0 <= h < g ==> (#[trigger] groups[h]).name@ != name@,
        decreases n - g,
    {
        if groups[g].name == *name {
            return Some(g);
        }
        g += 1;
    }
    None
}

fn group_by_champion(rows: &Vec<Performance>) -> (groups: Vec<Group>)
    ensures
        groups_cover(groups@, rows.deep_view(), rows.len() as nat),
{
    let mut groups: Vec<Group> = Vec::new();
    let n: usize = rows.len();
    let ghost all = rows.deep_view();
    let mut i: usize = 0;
    while i < n
        invariant
            i <= n,
            n == rows.len(),
            all == rows.deep_view(),
            groups_cover(groups@, all, i as nat),
        decreases n - i,
    {
        let row = &rows[i];
        let ghost before = groups@;
        let ghost name = row.champion@;
        assert(all[i as int] == row.deep_view());
        match find_group(&groups, &row.champion) {
            Some(g) => {
                proof {
                    lemma_tally_bounds(all, Some(groups[g as int].name@), i as nat);
                }
                let grown = Group {
                    name: groups[g].name.clone(),
                    totals: add_to(&groups[g].totals, row, Ghost(i as nat)),
                };
                groups.set(g, grown);
                proof {
                    assert forall|h: int| 0 <= h < groups.len() implies (
                    #[trigger] groups@[h]).totals.is(
                        tally(all, Some(groups@[h].name@), (i + 1) as nat),
                    ) by {
                        if h != g {
                            assert(groups@[h] == before[h]);
                            assert(before[h].name@ != before[g as int].name@);
                        }
                    }
                    assert forall|j: int| 0 <= j < i + 1 implies has_group(
                        groups@,
                        (#[trigger] all[j]).champion,
                    ) by {
                        if j < i {
                            assert(has_group(before, all[j].champion));
                            let w = choose|w: int|
                                0 <= w < before.len() && (#[trigger] before[w]).name@
                                    == all[j].champion;
                            assert(groups@[w].name@ == all[j].champion);
                        } else {
                            assert(groups@[g as int].name@ == all[j].champion);
                        }
                    }
                }
            },
            None => {
                proof {
                    assert forall|j: int| 0 <= j < i implies (#[trigger] all[j]).champion
                        != name by {
                        if all[j].champion == name {
                            assert(has_group(before, all[j].champion));
                        }
                    }
                    lemma_tally_of_unplayed(all, name, i as nat);
                }
                let empty = Totals { games: 0, wins: 0, kills: 0, deaths: 0, assists: 0 };
                let fresh = Group {
                    name: row.champion.clone(),
                    totals: add_to(&empty, row, Ghost(i as nat)),
                };
                groups.push(fresh);
                proof {
                    let last = before.len() as int;
                    assert forall|h: int| 0 <= h < groups.len() implies (
                    #[trigger] groups@[h]).totals.is(
                        tally(all, Some(groups@[h].name@), (i + 1) as nat),
                    ) by {
                        if h < last {
                            assert(groups@[h] == before[h]);
                            if before[h].name@ == name {
                                assert(has_group(before, name));
                            }
                        }
                    }
                    assert forall|g: int, h: int| 0 <= g < h < groups.len() implies (
                    #[trigger] groups@[g]).name@ != (#[trigger] groups@[h]).name@ by {
                        assert(groups@[g] == before[g]);
                        if h < last {
                            assert(groups@[h] == before[h]);
                        } else if before[g].name@ == name {
                            assert(has_group(before, name));
                        }
                    }
                    assert forall|j: int| 0 <= j < i + 1 implies has_group(
                        groups@,
                        (#[trigger] all[j]).champion,
                    ) by {
                        if j < i {
                            assert(has_group(before, all[j].champion));
                            let w = choose|w: int|
                                0 <= w < before.len() && (#[trigger] before[w]).name@
                                    == all[j].champion;
                            assert(groups@[w].name@ == all[j].champion);
                        } else {
                            assert(groups@[last].name@ == all[j].champion);
                        }
                    }
                }
            },
        }
        i += 1;
    }
    groups
}

fn champion_icon(name: &String) -> (r: String)
    ensures
        r@ == champion_icon_url(name@),
{
    let mut url = "https://ddragon.leagueoflegends.com/cdn/14.18.1/img/champion/".to_owned();
    url.append(name.as_str());
    url.append(".png");
    url
}

/// Lists the champions played most over the given performances.
pub fn top_champions(rows: &Vec<Performance>) -> (top: Vec<TopChamp>)
    ensures
        is_top_champions(rows.deep_view(), top.deep_view()),
{
    let ghost all = rows.deep_view();
    let ghost total = rows.len() as nat;
    let groups = group_by_champion(rows);
    let count: usize = groups.len();
    let mut keys: Vec<SortKey> = Vec::new();
    let mut eligible: Vec<bool> = Vec::new();
    let mut g: usize = 0;
    while g < count
        invariant
            g <= count,
            count == groups.len(),
            keys.len() == g,
            eligible.len() == g,
            forall|h: int|
                0 <= h < g ==> (#[trigger] keys[h]) == (
                    groups[h].totals.games as i128,
                    groups[h].totals.wins as i128,
                ),
            forall|h: int|
                0 <= h < g ==> (#[trigger] eligible[h]) == (groups[h].totals.games
                    >= TOP_CHAMPION_MIN_GAMES),
        decreases count - g,
    {
        keys.push((groups[g].totals.games as i128, groups[g].totals.wins as i128));
        eligible.push(groups[g].totals.games >= TOP_CHAMPION_MIN_GAMES);
        g += 1;
    }
    let picked = select_top(&keys, &eligible, TOP_CHAMPION_LIMIT);
    let mut top: Vec<TopChamp> = Vec::new();
    let mut i: usize = 0;
    while i < picked.len()
        invariant
            i <= picked.len(),
            top.len() == i,
            count == groups.len(),
            keys.len() == count,
            eligible.len() == count,
            all == rows.deep_view(),
            total == rows.len(),
            groups_cover(groups@, all, total),
            is_top_selection(keys@, eligible@, TOP_CHAMPION_LIMIT as nat, picked@),
            forall|h: int|
                0 <= h < count ==> (#[trigger] eligible[h]) == (groups[h].totals.games
                    >= TOP_CHAMPION_MIN_GAMES),
            forall|k: int|
                0 <= k < i ==> {
                    &&& (#[trigger] top.deep_view()[k]).champion_name
                        == groups[picked[k] as int].name@
                    &&& top.deep_view()[k].games == groups[picked[k] as int].totals.games
                    &&& top.deep_view()[k].wins == groups[picked[k] as int].totals.wins
                    &&& describes_champion(all, top.deep_view()[k])
                },
        decreases picked.len() - i,
    {
        let p: usize = picked[i];
        let group = &groups[p];
        let ghost t = tally(all, Some(group.name@), total);
        proof {
            lemma_tally_bounds(all, Some(group.name@), total);
        }
        let entry = TopChamp {
            champion_name: group.name.clone(),
            icon_url: champion_icon(&group.name),
            games: group.totals.games,
            wins: group.totals.wins,
            winrate: winrate_of(&group.totals, Ghost(t)),
            kda_hundredths: kda_of(&group.totals, Ghost(t), Ghost(total)),
        };
        let ghost before = top.deep_view();
        let ghost entry_view = entry.deep_view();
        top.push(entry);
        proof {
            assert(top.deep_view() =~= before.push(entry_view));
            assert(describes_champion(all, entry_view));
        }
        i += 1;
    }
    proof {
        let listed = top.deep_view();
        assert forall|a: int, b: int| 0 <= a < b < listed.len() implies (
        #[trigger] listed[a]).champion_name != (#[trigger] listed[b]).champion_name && not_below(
            listed[a].games as int,
            listed[a].wins as int,
            listed[b].games as int,
            listed[b].wins as int,
        ) by {
            assert(ranks_before(keys@, picked[a] as int, picked[b] as int));
            let x = picked[a] as int;
            let y = picked[b] as int;
            assert(x != y);
            if x < y {
                assert(groups@[x].name@ != groups@[y].name@);
            } else {
                assert(groups@[y].name@ != groups@[x].name@);
            }
        }
        assert forall|name: Seq<char>|
            (#[trigger] tally(all, Some(name), all.len())).games
                >= TOP_CHAMPION_MIN_GAMES implies {
            ||| exists|k: int| 0 <= k < listed.len() && (#[trigger] listed[k]).champion_name == name
            ||| {
                &&& listed.len() == TOP_CHAMPION_LIMIT
                &&& forall|k: int|
                    0 <= k < listed.len() ==> not_below(
                        (#[trigger] listed[k]).games as int,
                        listed[k].wins as int,
                        tally(all, Some(name), all.len()).games as int,
                        tally(all, Some(name), all.len()).wins as int,
                    )
            }
        } by {
            lemma_tally_of_unplayed(all, name, total);
            let j = choose|j: int| 0 <= j < total && (#[trigger] all[j]).champion == name;
            assert(has_group(groups@, all[j].champion));
            let x = choose|x: int| 0 <= x < groups.len() && (#[trigger] groups@[x]).name@ == name;
            assert(groups@[x].totals.is(tally(all, Some(name), total)));
            assert(eligible[x]);
            if picked@.contains(x as usize) {
                let k = choose|k: int| 0 <= k < picked.len() && picked[k] == x as usize;
                assert(listed[k].champion_name == name);
            } else {
                assert forall|k: int| 0 <= k < listed.len() implies not_below(
                    (#[trigger] listed[k]).games as int,
                    listed[k].wins as int,
                    tally(all, Some(name), all.len()).games as int,
                    tally(all, Some(name), all.len()).wins as int,
                ) by {
                    assert(ranks_before(keys@, picked[k] as int, x));
                }
            }
        }
    }
    top
}

/// Compiles the player's summary from performances.
pub fn summarize(rows: &Vec<Performance>) -> (s: PlayerSummary)
    ensures
        summarizes(rows.deep_view(), s.deep_view()),
{
    let totals = tally_all(rows);
    let ghost t = tally(rows.deep_view(), None, rows.len() as nat);
    proof {
        lemma_tally_bounds(rows.deep_view(), None, rows.len() as nat);
    }
    PlayerSummary {
        games: totals.games,
        wins: totals.wins,
        losses: totals.games - totals.wins,
        kda_hundredths: kda_of(&totals, Ghost(t), Ghost(rows.len() as nat)),
        winrate: winrate_of(&totals, Ghost(t)),
        streak: 0,
        top_champs: top_champions(rows),
    }
}

/// Compiles the player's summary from the stored matches.
pub fn compile_summary(matches: &Vec<MatchDetailsRow>, puuid: &str) -> (s: PlayerSummary)
    ensures
        summarizes(
            performances(matches.deep_view(), puuid@, matches.len() as nat),
            s.deep_view(),
        ),
{
    let rows = collect_performances(matches, puuid);
    summarize(&rows)
}

impl PlayerSummary {
    /// A copy of the summary.
    pub fn duplicate(&self) -> (r: PlayerSummary)
        ensures
            r.deep_view() == self.deep_view(),
    {
        let mut top: Vec<TopChamp> = Vec::new();
        let n: usize = self.top_champs.len();
        let mut i: usize = 0;
        while i < n
            invariant
                i <= n,
                n == self.top_champs.len(),
                top.len() == i,
                forall|k: int|
                    0 <= k < i ==> (#[trigger] top.deep_view()[k])
                        == self.top_champs.deep_view()[k],
            decreases n - i,
        {
            let source = &self.top_champs[i];
            let entry = TopChamp {
                champion_name: source.champion_name.clone(),
                icon_url: source.icon_url.clone(),
                games: source.games,
                wins: source.wins,
                winrate: source.winrate,
                kda_hundredths: source.kda_hundredths,
            };
            let ghost before = top.deep_view();
            let ghost entry_view = entry.deep_view();
            top.push(entry);
            assert(top.deep_view() =~= before.push(entry_view));
            assert(self.top_champs.deep_view()[i as int] == source.deep_view());
            i += 1;
        }
        assert(top.deep_view() =~= self.top_champs.deep_view());
        PlayerSummary {
            games: self.games,
            wins: self.wins,
            losses: self.losses,
            kda_hundredths: self.kda_hundredths,
            winrate: self.winrate,
            streak: self.streak,
            top_champs: top,
        }
    }

    /// The headline figures of the summary.
    pub fn stats(&self) -> (r: PlayerStats)
        ensures
            r.winrate == self.winrate,
            r.games == self.games,
            r.streak == self.streak,
            r.kda_hundredths == self.kda_hundredths,
    {
        PlayerStats {
            winrate: self.winrate,
            games: self.games,
            streak: self.streak,
            kda_hundredths: self.kda_hundredths,
        }
    }
}

/// Where the player never died, the ratio is kills and assists themselves.
pub proof fn lemma_no_deaths_no_division(rows: Seq<PerformanceView>, s: PlayerSummaryView)
    requires
        summarizes(rows, s),
        tally(rows, None, rows.len()).deaths == 0,
    ensures
        s.kda_hundredths == 100 * (tally(rows, None, rows.len()).kills + tally(
            rows,
            None,
            rows.len(),
        ).assists),
{
}

/// A champion played fewer than [`TOP_CHAMPION_MIN_GAMES`] times is not
/// listed, however many of those games were won.
pub proof fn lemma_rarely_played_is_not_listed(
    rows: Seq<PerformanceView>,
    top: Seq<TopChampView>,
    name: Seq<char>,
)
    requires
        is_top_champions(rows, top),
        tally(rows, Some(name), rows.len()).games < TOP_CHAMPION_MIN_GAMES,
    ensures
        forall|i: int| 0 <= i < top.len() ==> (#[trigger] top[i]).champion_name != name,
{
    assert forall|i: int| 0 <= i < top.len() implies (#[trigger] top[i]).champion_name
        != name by {
        assert(describes_champion(rows, top[i]));
    }
}

/// The figures of a summary are within their ranges: wins and losses add up
/// to the games, and the share of games won is at most a hundred.
pub proof fn lemma_summary_adds_up(rows: Seq<PerformanceView>, s: PlayerSummaryView)
    requires
        summarizes(rows, s),
    ensures
        s.wins + s.losses == s.games,
        s.games <= rows.len(),
        0 <= s.winrate <= 100,
{
    lemma_tally_bounds(rows, None, rows.len());
    let t = tally(rows, None, rows.len());
    if t.games > 0 {
        let wins = t.wins as int;
        let games = t.games as int;
        assert(0 <= (2 * (100 * wins) + games) / (2 * games) <= 100) by (nonlinear_arith)
            requires
                0 <= wins <= games,
                games >= 1,
        ;
    }
}

} // verus!
