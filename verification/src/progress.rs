//! The reconstructed ranked timeline.
//!
//! The provider tells a player's present score but not what each game added
//! or took. The timeline is inferred: every win is taken to have added
//! [`LP_PER_GAME`] points and every loss to have taken as many, and the scores
//! before and after each of the most recent games follow by walking back from
//! the present score. Tier and division are reported unchanged over the
//! window. The steps are an estimate and are marked as not exact.

use vstd::prelude::*;
use vstd::string::*;
use crate::models::{ParticipantDtoView, RankStep, RankStepView};
use crate::select::{select_top, top_selection, SortKey};
use crate::store::{MatchDetailsRow, MatchDetailsRowView};
use crate::summary::counts_as_ranked;

verus! {

/// The points one game is taken to add or take.
pub const LP_PER_GAME: i32 = 15;

/// The number of most recent games the timeline covers.
pub const PROGRESS_WINDOW: usize = 10;

/// The lowest present score the timeline can be walked back from.
pub const MIN_WALKABLE_LP: i32 = -2147483498;

/// The highest present score the timeline can be walked back from.
pub const MAX_WALKABLE_LP: i32 = 2147483497;

/// How one ranked game ended for the player.
#[derive(Debug)]
pub struct RankedOutcome {
    pub match_id: String,
    pub game_creation: Option<i64>,
    pub win: bool,
}

/// What a [`RankedOutcome`] holds, as plain values.
pub struct RankedOutcomeView {
    pub match_id: Seq<char>,
    pub game_creation: Option<i64>,
    pub win: bool,
}

impl DeepView for RankedOutcome {
    type V = RankedOutcomeView;

    open spec fn deep_view(&self) -> RankedOutcomeView {
        RankedOutcomeView {
            match_id: self.match_id@,
            game_creation: self.game_creation,
            win: self.win,
        }
    }
}
/// How a participant entry says the game ended.
pub open spec fn outcome_of(m: MatchDetailsRowView, p: ParticipantDtoView) -> RankedOutcomeView {
    RankedOutcomeView { match_id: m.match_id, game_creation: m.game_creation, win: p.win }
}

/// The player's outcomes among the first `upto` participants of a match.
pub open spec fn outcomes_in(m: MatchDetailsRowView, puuid: Seq<char>, upto: nat) -> Seq<
    RankedOutcomeView,
>
    decreases upto,
{
    if upto == 0 {
        Seq::empty()
    } else {
        let before = outcomes_in(m, puuid, (upto - 1) as nat);
        if m.participants[upto - 1].puuid == puuid {
            before.push(outcome_of(m, m.participants[upto - 1]))
        } else {
            before
        }
    }
}

/// The player's outcomes in the first `upto` stored matches, those that
/// count, in the order of the store.
pub open spec fn outcomes(matches: Seq<MatchDetailsRowView>, puuid: Seq<char>, upto: nat) -> Seq<
    RankedOutcomeView,
>
    decreases upto,
{
    if upto == 0 {
        Seq::empty()
    } else {
        let before = outcomes(matches, puuid, (upto - 1) as nat);
        let m = matches[upto - 1];
        if counts_as_ranked(m) {
            before + outcomes_in(m, puuid, m.participants.len())
        } else {
            before
        }
    }
}

/// The key that orders outcomes by the time of their game, latest first. A
/// game without a time is taken to be later than any with one.
pub open spec fn recency_key(o: RankedOutcomeView) -> SortKey {
    (
        match o.game_creation {
            Some(t) => t as i128,
            None => 0x8000_0000_0000_0000i128,
        },
        0i128,
    )
}

/// The `limit` latest of the outcomes, latest first; among games of one time,
/// in the order given.
pub open spec fn newest_first(all: Seq<RankedOutcomeView>, limit: nat) -> Seq<RankedOutcomeView> {
    let picked = top_selection(
        Seq::new(all.len(), |i: int| recency_key(all[i])),
        Seq::new(all.len(), |i: int| true),
        limit,
    );
    Seq::new(picked.len(), |k: int| all[picked[k] as int])
}

/// The points a game is taken to have added.
pub open spec fn lp_delta(win: bool) -> int {
    if win {
        LP_PER_GAME as int
    } else {
        -(LP_PER_GAME as int)
    }
}

/// The score after the game at position `pos` of a history that is latest
/// first: the present score after the latest game, and before each game what
/// it is after the game, less what the game added.
pub open spec fn lp_after(history: Seq<RankedOutcomeView>, current: int, pos: nat) -> int
    decreases pos,
{
    if pos == 0 {
        current
    } else {
        lp_after(history, current, (pos - 1) as nat) - lp_delta(history[pos - 1].win)
    }
}

/// The step for the game at position `pos` of the history, under the label
/// given.
pub open spec fn step_at(
    history: Seq<RankedOutcomeView>,
    tier: Seq<char>,
    division: Seq<char>,
    current: int,
    pos: int,
    label: int,
) -> RankStepView {
    let after = lp_after(history, current, pos as nat);
    let delta = lp_delta(history[pos].win);
    RankStepView {
        match_id: history[pos].match_id,
        label_index: label as i32,
        lp_before: (after - delta) as i32,
        lp_after: after as i32,
        lp_delta: delta as i32,
        result: if history[pos].win {
            "Win"@
        } else {
            "Loss"@
        },
        tier_before: tier,
        division_before: division,
        tier_after: tier,
        division_after: division,
        exact: false,
    }
}

/// How many games of a history the timeline covers.
pub open spec fn window_of(history: Seq<RankedOutcomeView>) -> nat {
    if history.len() > PROGRESS_WINDOW {
        PROGRESS_WINDOW as nat
    } else {
        history.len()
    }
}

/// The timeline for a history that is latest first: one step for each of its
/// first [`PROGRESS_WINDOW`] games, the earliest game first and labelled 1.
pub open spec fn reconstructed(
    history: Seq<RankedOutcomeView>,
    tier: Seq<char>,
    division: Seq<char>,
    current: int,
) -> Seq<RankStepView> {
    let n = window_of(history) as int;
    Seq::new(n as nat, |k: int| step_at(history, tier, division, current, n - 1 - k, k + 1))
}

/// The scores of a walk stay within [`LP_PER_GAME`] points per game of the
/// present score.
pub proof fn lemma_lp_after_bounds(history: Seq<RankedOutcomeView>, current: int, pos: nat)
    ensures
        current - LP_PER_GAME * pos <= lp_after(history, current, pos) <= current + LP_PER_GAME
            * pos,
    decreases pos,
{
    if pos > 0 {
        lemma_lp_after_bounds(history, current, (pos - 1) as nat);
    }
}

/// Each step ends where the next one begins, and the last step ends at the
/// present score.
pub proof fn lemma_steps_chain(
    history: Seq<RankedOutcomeView>,
    tier: Seq<char>,
    division: Seq<char>,
    current: int,
)
    requires
        MIN_WALKABLE_LP <= current <= MAX_WALKABLE_LP,
    ensures
        ({
            let steps = reconstructed(history, tier, division, current);
            &&& steps.len() == window_of(history)
            &&& steps.len() > 0 ==> steps[steps.len() - 1].lp_after == current
            &&& forall|k: int|
                0 <= k < steps.len() ==> {
                    &&& (#[trigger] steps[k]).label_index == k + 1
                    &&& steps[k].lp_after == steps[k].lp_before + steps[k].lp_delta
                    &&& (steps[k].lp_delta == LP_PER_GAME || steps[k].lp_delta == -LP_PER_GAME)
                    &&& (steps[k].lp_delta == LP_PER_GAME) == (steps[k].result == "Win"@)
                    &&& !steps[k].exact
                    &&& steps[k].tier_before == steps[k].tier_after
                    &&& steps[k].division_before == steps[k].division_after
                }
            &&& forall|k: int|
                0 <= k < steps.len() - 1 ==> (#[trigger] steps[k]).lp_after == steps[k
                    + 1].lp_before
        }),
{
    let n = window_of(history) as int;
    let steps = reconstructed(history, tier, division, current);
    reveal_strlit("Win");
    reveal_strlit("Loss");
    assert("Win"@.len() != "Loss"@.len());
    assert forall|k: int| 0 <= k < steps.len() implies {
        &&& (#[trigger] steps[k]).label_index == k + 1
        &&& steps[k].lp_after == steps[k].lp_before + steps[k].lp_delta
        &&& (steps[k].lp_delta == LP_PER_GAME || steps[k].lp_delta == -LP_PER_GAME)
        &&& (steps[k].lp_delta == LP_PER_GAME) == (steps[k].result == "Win"@)
        &&& !steps[k].exact
        &&& steps[k].tier_before == steps[k].tier_after
        &&& steps[k].division_before == steps[k].division_after
    } by {
        lemma_lp_after_bounds(history, current, (n - 1 - k) as nat);
    }
    assert forall|k: int| 0 <= k < steps.len() - 1 implies (#[trigger] steps[k]).lp_after
        == steps[k + 1].lp_before by {
        lemma_lp_after_bounds(history, current, (n - 1 - k) as nat);
        lemma_lp_after_bounds(history, current, (n - 2 - k) as nat);
    }
}

/// Gathers the player's outcomes from the stored matches that count.
pub fn collect_outcomes(matches: &Vec<MatchDetailsRow>, puuid: &str) -> (all: Vec<RankedOutcome>)
    ensures
        all.deep_view() == outcomes(matches.deep_view(), puuid@, matches.len() as nat),
{
    let mut all: Vec<RankedOutcome> = Vec::new();
    let n: usize = matches.len();
    let mut i: usize = 0;
    assert(all.deep_view() =~= Seq::empty());
    while i < n
        invariant
            i <= n,
            n == matches.len(),
            all.deep_view() == outcomes(matches.deep_view(), puuid@, i as nat),
        decreases n - i,
    {
        let m = &matches[i];
        let ranked = match (m.queue_type, m.game_duration) {
            (Some(q), Some(d)) => q == crate::summary::RANKED_QUEUE && d
                >= crate::summary::MIN_RANKED_DURATION,
            _ => false,
        };
        assert(matches.deep_view()[i as int] == m.deep_view());
        if ranked {
            let ghost before = all.deep_view();
            let people: usize = m.participants.len();
            let mut j: usize = 0;
            assert(all.deep_view() =~= before + outcomes_in(m.deep_view(), puuid@, 0));
            while j < people
                invariant
                    j <= people,
                    people == m.participants.len(),
                    all.deep_view() == before + outcomes_in(m.deep_view(), puuid@, j as nat),
                decreases people - j,
            {
                let p = &m.participants[j];
                assert(m.deep_view().participants[j as int] == p.deep_view());
                if crate::text::same_text(p.puuid.as_str(), puuid) {
                    let ghost so_far = all.deep_view();
                    let row = RankedOutcome {
                        match_id: m.match_id.clone(),
                        game_creation: m.game_creation,
                        win: p.win,
                    };
                    let ghost row_view = row.deep_view();
                    all.push(row);
                    assert(all.deep_view() =~= so_far.push(row_view));
                    assert(all.deep_view() =~= before + outcomes_in(
                        m.deep_view(),
                        puuid@,
                        (j + 1) as nat,
                    ));
                }
                j += 1;
            }
        }
        i += 1;
    }
    all
}

/// Picks the `limit` latest of the outcomes, latest first.
pub fn latest_outcomes(all: &Vec<RankedOutcome>, limit: usize) -> (history: Vec<RankedOutcome>)
    ensures
        history.deep_view() == newest_first(all.deep_view(), limit as nat),
        history.len() <= limit,
{
    let n: usize = all.len();
    let mut keys: Vec<SortKey> = Vec::new();
    let mut eligible: Vec<bool> = Vec::new();
    let mut i: usize = 0;
    while i < n
        invariant
            i <= n,
            n == all.len(),
            keys.len() == i,
            eligible.len() == i,
            forall|h: int| 0 <= h < i ==> (#[trigger] keys[h]) == recency_key(all.deep_view()[h]),
            forall|h: int| 0 <= h < i ==> #[trigger] eligible[h],
        decreases n - i,
    {
        let first: i128 = match all[i].game_creation {
            Some(t) => t as i128,
            None => 0x8000_0000_0000_0000i128,
        };
        assert(all.deep_view()[i as int] == all[i as int].deep_view());
        keys.push((first, 0i128));
        eligible.push(true);
        i += 1;
    }
    assert(keys@ =~= Seq::new(all.deep_view().len(), |i: int| recency_key(all.deep_view()[i])));
    assert(eligible@ =~= Seq::new(all.deep_view().len(), |i: int| true));
    let picked = select_top(&keys, &eligible, limit);
    let mut history: Vec<RankedOutcome> = Vec::new();
    let mut k: usize = 0;
    while k < picked.len()
        invariant
            k <= picked.len(),
            history.len() == k,
            n == all.len(),
            forall|h: int| 0 <= h < picked.len() ==> (#[trigger] picked[h]) < n,
            forall|h: int|
                0 <= h < k ==> (#[trigger] history.deep_view()[h])
                    == all.deep_view()[picked[h] as int],
        decreases picked.len() - k,
    {
        let source = &all[picked[k]];
        let ghost before = history.deep_view();
        let row = RankedOutcome {
            match_id: source.match_id.clone(),
            game_creation: source.game_creation,
            win: source.win,
        };
        let ghost row_view = row.deep_view();
        history.push(row);
        assert(history.deep_view() =~= before.push(row_view));
        assert(all.deep_view()[picked[k as int] as int] == source.deep_view());
        k += 1;
    }
    assert(history.deep_view() =~= newest_first(all.deep_view(), limit as nat));
    history
}

/// Walks back from the present score over a history that is latest first and
/// returns one step for each of its first [`PROGRESS_WINDOW`] games, the
/// earliest game first.
pub fn reconstruct(
    history: &Vec<RankedOutcome>,
    tier: &str,
    division: &str,
    current_lp: i32,
) -> (steps: Vec<RankStep>)
    requires
        MIN_WALKABLE_LP <= current_lp <= MAX_WALKABLE_LP,
    ensures
        steps.deep_view() == reconstructed(
            history.deep_view(),
            tier@,
            division@,
            current_lp as int,
        ),
{
    let ghost past = history.deep_view();
    let n: usize = if history.len() > PROGRESS_WINDOW {
        PROGRESS_WINDOW
    } else {
        history.len()
    };
    // The score after each game, latest game first.
    let mut afters: Vec<i32> = Vec::new();
    let mut lp: i32 = current_lp;
    let mut pos: usize = 0;
    while pos < n
        invariant
            pos <= n,
            n == window_of(past),
            n <= PROGRESS_WINDOW,
            past == history.deep_view(),
            MIN_WALKABLE_LP <= current_lp <= MAX_WALKABLE_LP,
            afters.len() == pos,
            lp == lp_after(past, current_lp as int, pos as nat),
            forall|q: int|
                0 <= q < pos ==> (#[trigger] afters[q]) == lp_after(
                    past,
                    current_lp as int,
                    q as nat,
                ),
        decreases n - pos,
    {
        proof {
            lemma_lp_after_bounds(past, current_lp as int, pos as nat);
            assert(past[pos as int] == history[pos as int].deep_view());
        }
        afters.push(lp);
        lp = if history[pos].win {
            lp - LP_PER_GAME
        } else {
            lp + LP_PER_GAME
        };
        pos += 1;
    }
    let mut steps: Vec<RankStep> = Vec::new();
    let mut k: usize = 0;
    while k < n
        invariant
            k <= n,
            n == window_of(past),
            n <= PROGRESS_WINDOW,
            past == history.deep_view(),
            MIN_WALKABLE_LP <= current_lp <= MAX_WALKABLE_LP,
            afters.len() == n,
            forall|q: int|
                0 <= q < n ==> (#[trigger] afters[q]) == lp_after(
                    past,
                    current_lp as int,
                    q as nat,
                ),
            steps.len() == k,
            forall|h: int|
                0 <= h < k ==> (#[trigger] steps.deep_view()[h]) == step_at(
                    past,
                    tier@,
                    division@,
                    current_lp as int,
                    n - 1 - h,
                    h + 1,
                ),
        decreases n - k,
    {
        let at: usize = n - 1 - k;
        let game = &history[at];
        let after: i32 = afters[at];
        proof {
            lemma_lp_after_bounds(past, current_lp as int, at as nat);
            assert(past[at as int] == game.deep_view());
        }
        let delta: i32 = if game.win {
            LP_PER_GAME
        } else {
            -LP_PER_GAME
        };
        let step = RankStep {
            match_id: game.match_id.clone(),
            label_index: (k + 1) as i32,
            lp_before: after - delta,
            lp_after: after,
            lp_delta: delta,
            result: if game.win {
                "Win".to_owned()
            } else {
                "Loss".to_owned()
            },
            tier_before: tier.to_owned(),
            division_before: division.to_owned(),
            tier_after: tier.to_owned(),
            division_after: division.to_owned(),
            exact: false,
        };
        let ghost before = steps.deep_view();
        let ghost step_view = step.deep_view();
        steps.push(step);
        assert(steps.deep_view() =~= before.push(step_view));
        k += 1;
    }
    assert(steps.deep_view() =~= reconstructed(past, tier@, division@, current_lp as int));
    steps
}

/// Whether the player's tier, division and score are all known, and the
/// score is one the timeline can be walked back from.
pub open spec fn rank_is_walkable(
    tier: Option<&str>,
    division: Option<&str>,
    lp: Option<i32>,
) -> bool {
    &&& tier is Some
    &&& division is Some
    &&& lp matches Some(points) && MIN_WALKABLE_LP <= points <= MAX_WALKABLE_LP
}

/// The timeline for a player whose rank may not be known yet: the steps of
/// [`reconstruct`] where tier, division and score are all known, and no
/// steps otherwise.
pub fn ranked_progress(
    history: &Vec<RankedOutcome>,
    tier: Option<&str>,
    division: Option<&str>,
    lp: Option<i32>,
) -> (steps: Vec<RankStep>)
    ensures
        steps.deep_view() == if rank_is_walkable(tier, division, lp) {
            reconstructed(history.deep_view(), tier->0@, division->0@, lp->0 as int)
        } else {
            Seq::empty()
        },
{
    match (tier, division, lp) {
        (Some(t), Some(d), Some(points)) => {
            if MIN_WALKABLE_LP <= points && points <= MAX_WALKABLE_LP {
                reconstruct(history, t, d, points)
            } else {
                let steps: Vec<RankStep> = Vec::new();
                assert(steps.deep_view() =~= Seq::empty());
                steps
            }
        },
        _ => {
            let steps: Vec<RankStep> = Vec::new();
            assert(steps.deep_view() =~= Seq::empty());
            steps
        },
    }
}

} // verus!
