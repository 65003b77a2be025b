//! A player's ranked games per day over the last thirty days.

use vstd::prelude::*;
use crate::calendar::{
    date_from_day, date_of_day, format_date, is_valid_date, iso_date, lemma_days_follow,
    lemma_every_day_has_a_date, next_date,
};
use crate::models::{DailyActivityEntry, DailyActivityEntryView};
use crate::store::{MatchDetailsRow, MatchDetailsRowView};
use crate::summary::RANKED_QUEUE;

verus! {

/// The number of days the view covers, today included.
pub const ACTIVITY_DAYS: usize = 30;

/// The number of milliseconds in a day.
pub const MILLIS_PER_DAY: i64 = 86_400_000;

/// The day that a time, in milliseconds since the epoch, falls on.
pub open spec fn day_of_millis(ms: int) -> int {
    ms / (MILLIS_PER_DAY as int)
}

/// The day of the entry at position `i` of the view: today for the last
/// entry, and one day earlier for each entry before it.
pub open spec fn activity_day(now_ms: int, i: int) -> int {
    day_of_millis(now_ms) - (ACTIVITY_DAYS - 1) + i
}

/// Whether a stored match is a ranked game that the player's synchronization
/// brought in, created within the last thirty days and on the given day.
pub open spec fn is_game_on(m: MatchDetailsRowView, puuid: Seq<char>, now_ms: int, day: int)
    -> bool {
    &&& m.entry_puuid == puuid
    &&& m.queue_type == Some(RANKED_QUEUE)
    &&& m.game_creation matches Some(t) && t >= now_ms - ACTIVITY_DAYS * MILLIS_PER_DAY
        && day_of_millis(t as int) == day
}

/// The number of such games among the first `upto` stored matches.
pub open spec fn games_on(
    matches: Seq<MatchDetailsRowView>,
    puuid: Seq<char>,
    now_ms: int,
    day: int,
    upto: nat,
) -> nat
    decreases upto,
{
    if upto == 0 {
        0
    } else {
        games_on(matches, puuid, now_ms, day, (upto - 1) as nat) + if is_game_on(
            matches[upto - 1],
            puuid,
            now_ms,
            day,
        ) {
            1nat
        } else {
            0nat
        }
    }
}

/// The entry at position `i` of the view.
pub open spec fn activity_entry(
    matches: Seq<MatchDetailsRowView>,
    puuid: Seq<char>,
    now_ms: int,
    i: int,
) -> DailyActivityEntryView {
    DailyActivityEntryView {
        date: iso_date(date_of_day(activity_day(now_ms, i))),
        games: games_on(matches, puuid, now_ms, activity_day(now_ms, i), matches.len()) as u64,
    }
}

/// The view: one entry for each of the last thirty days, the earliest first,
/// whether or not a game was played on it.
pub open spec fn activity_window(matches: Seq<MatchDetailsRowView>, puuid: Seq<char>, now_ms: int)
    -> Seq<DailyActivityEntryView> {
    Seq::new(ACTIVITY_DAYS as nat, |i: int| activity_entry(matches, puuid, now_ms, i))
}

/// No more games fall on a day than there are matches.
pub proof fn lemma_games_on_bound(
    matches: Seq<MatchDetailsRowView>,
    puuid: Seq<char>,
    now_ms: int,
    day: int,
    upto: nat,
)
    ensures
        games_on(matches, puuid, now_ms, day, upto) <= upto,
    decreases upto,
{
    if upto > 0 {
        lemma_games_on_bound(matches, puuid, now_ms, day, (upto - 1) as nat);
    }
}

/// The view has thirty entries, whatever was played; their dates are the
/// dates of thirty days in a row, each the date after the one before, and
/// the last is today's.
pub proof fn lemma_activity_window_is_complete(
    matches: Seq<MatchDetailsRowView>,
    puuid: Seq<char>,
    now_ms: int,
)
    requires
        i64::MIN <= now_ms <= i64::MAX,
    ensures
        activity_window(matches, puuid, now_ms).len() == ACTIVITY_DAYS,
        forall|i: int|
            0 <= i < ACTIVITY_DAYS ==> {
                &&& (#[trigger] activity_window(matches, puuid, now_ms)[i]).date == iso_date(
                    date_of_day(activity_day(now_ms, i)),
                )
                &&& is_valid_date(date_of_day(activity_day(now_ms, i)))
            },
        forall|i: int|
            0 <= i < ACTIVITY_DAYS - 1 ==> date_of_day(#[trigger] activity_day(now_ms, i + 1))
                == next_date(date_of_day(activity_day(now_ms, i))),
        activity_day(now_ms, ACTIVITY_DAYS - 1) == day_of_millis(now_ms),
{
    assert forall|i: int| 0 <= i < ACTIVITY_DAYS implies is_valid_date(
        date_of_day(activity_day(now_ms, i)),
    ) by {
        lemma_every_day_has_a_date(activity_day(now_ms, i));
    }
    assert forall|i: int| 0 <= i < ACTIVITY_DAYS - 1 implies date_of_day(
        #[trigger] activity_day(now_ms, i + 1),
    ) == next_date(date_of_day(activity_day(now_ms, i))) by {
        lemma_days_follow(activity_day(now_ms, i));
    }
}

/// The day that a time falls on.
pub fn day_of(ms: i64) -> (day: i64)
    ensures
        day == day_of_millis(ms as int),
{
    let wide: i128 = ms as i128;
    let per_day: i128 = MILLIS_PER_DAY as i128;
    let day: i128 = if wide >= 0 {
        wide / per_day
    } else {
        -((per_day - 1 - wide) / per_day)
    };
    day as i64
}

fn count_games_on(matches: &Vec<MatchDetailsRow>, puuid: &str, now_ms: i64, day: i64) -> (games:
    u64)
    ensures
        games == games_on(
            matches.deep_view(),
            puuid@,
            now_ms as int,
            day as int,
            matches.len() as nat,
        ),
{
    let since: i128 = now_ms as i128 - (ACTIVITY_DAYS as i128) * (MILLIS_PER_DAY as i128);
    let n: usize = matches.len();
    let mut games: u64 = 0;
    let mut i: usize = 0;
    while i < n
        invariant
            i <= n,
            n == matches.len(),
            since == now_ms - ACTIVITY_DAYS * MILLIS_PER_DAY,
            games == games_on(matches.deep_view(), puuid@, now_ms as int, day as int, i as nat),
            games <= i,
        decreases n - i,
    {
        let m = &matches[i];
        assert(matches.deep_view()[i as int] == m.deep_view());
        let played = match (m.queue_type, m.game_creation) {
            (Some(q), Some(t)) => q == RANKED_QUEUE && t as i128 >= since && day_of(t) == day,
            _ => false,
        };
        if played && crate::text::same_text(m.entry_puuid.as_str(), puuid) {
            games += 1;
        }
        i += 1;
    }
    games
}

/// Counts the player's ranked games on each of the last thirty days.
pub fn daily_activity(matches: &Vec<MatchDetailsRow>, puuid: &str, now_ms: i64) -> (entries: Vec<
    DailyActivityEntry,
>)
    ensures
        entries.deep_view() == activity_window(matches.deep_view(), puuid@, now_ms as int),
{
    let today: i64 = day_of(now_ms);
    let mut entries: Vec<DailyActivityEntry> = Vec::new();
    let mut i: usize = 0;
    while i < ACTIVITY_DAYS
        invariant
            i <= ACTIVITY_DAYS,
            today == day_of_millis(now_ms as int),
            entries.len() == i,
            forall|k: int|
                0 <= k < i ==> (#[trigger] entries.deep_view()[k]) == activity_entry(
                    matches.deep_view(),
                    puuid@,
                    now_ms as int,
                    k,
                ),
        decreases ACTIVITY_DAYS - i,
    {
        let day: i64 = today - (ACTIVITY_DAYS as i64 - 1) + i as i64;
        let entry = DailyActivityEntry {
            date: format_date(date_from_day(day)),
            games: count_games_on(matches, puuid, now_ms, day),
        };
        let ghost before = entries.deep_view();
        let ghost entry_view = entry.deep_view();
        entries.push(entry);
        assert(entries.deep_view() =~= before.push(entry_view));
        i += 1;
    }
    assert(entries.deep_view() =~= activity_window(matches.deep_view(), puuid@, now_ms as int));
    entries
}

} // verus!
