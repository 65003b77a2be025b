//! Which of the provider's recent records a synchronization fetches.
//!
//! The provider lists its most recent record ids; the store says of each
//! whether it holds it. The plan names, by position in that list, the records
//! to fetch now. A player with history gets every missing record, with its
//! detail frames. A player without any gets only the first few, without
//! detail, so that the first overview comes quickly; the rest are picked up by
//! later synchronizations.

use vstd::prelude::*;

verus! {

/// How many of the provider's most recent ids a synchronization looks at.
pub const RECENT_WINDOW: usize = 10;

/// How many records a first synchronization fetches at most.
pub const COLD_START_LIMIT: usize = 3;

/// The positions below `n` that the store does not hold, in ascending order.
pub open spec fn missing_upto(present: Seq<bool>, n: int) -> Seq<usize>
    decreases n,
{
    if n <= 0 {
        Seq::empty()
    } else if present[n - 1] {
        missing_upto(present, n - 1)
    } else {
        missing_upto(present, n - 1).push((n - 1) as usize)
    }
}

/// The positions that the store does not hold, in ascending order.
pub open spec fn missing_positions(present: Seq<bool>) -> Seq<usize> {
    missing_upto(present, present.len() as int)
}

/// The positions to fetch: all that are missing, or on a cold start the first
/// [`COLD_START_LIMIT`] of them.
pub open spec fn planned_positions(cold_start: bool, present: Seq<bool>) -> Seq<usize> {
    let missing = missing_positions(present);
    if cold_start && missing.len() > COLD_START_LIMIT {
        missing.take(COLD_START_LIMIT as int)
    } else {
        missing
    }
}

/// What one synchronization fetches.
#[derive(Debug)]
pub struct BackfillPlan {
    /// Positions, in the provider's list, of the records to fetch, in order.
    pub positions: Vec<usize>,
    /// Whether each record's detail frames are fetched with it.
    pub with_details: bool,
    /// How many missing records are left for a later synchronization.
    pub left_for_later: usize,
}

/// The missing positions below `n` are below `n`, are not held, ascend, and
/// leave no missing position out.
pub proof fn lemma_missing_upto(present: Seq<bool>, n: int)
    requires
        0 <= n <= present.len() <= usize::MAX,
    ensures
        missing_upto(present, n).len() <= n,
        forall|k: int|
            0 <= k < missing_upto(present, n).len() ==> {
                &&& (#[trigger] missing_upto(present, n)[k]) < n
                &&& !present[missing_upto(present, n)[k] as int]
            },
        forall|j: int, k: int|
            0 <= j < k < missing_upto(present, n).len() ==> (#[trigger] missing_upto(present, n)[j])
                < (#[trigger] missing_upto(present, n)[k]),
        forall|p: int|
            0 <= p < n && !(#[trigger] present[p]) ==> missing_upto(present, n).contains(
                p as usize,
            ),
        (forall|p: int| 0 <= p < n ==> present[p]) ==> missing_upto(present, n).len() == 0,
        (forall|p: int| 0 <= p < n ==> !present[p]) ==> missing_upto(present, n).len() == n,
    decreases n,
{
    if n > 0 {
        lemma_missing_upto(present, n - 1);
        let before = missing_upto(present, n - 1);
        let now = missing_upto(present, n);
        assert forall|p: int| 0 <= p < n && !(#[trigger] present[p]) implies now.contains(
            p as usize,
        ) by {
            if p == n - 1 {
                assert(now[before.len() as int] == p as usize);
            } else {
                let w = choose|w: int| 0 <= w < before.len() && before[w] == p as usize;
                assert(now[w] == p as usize);
            }
        }
    }
}

/// Decides what to fetch from the store's answers about the provider's
/// recent ids.
pub fn plan_backfill(cold_start: bool, present: &Vec<bool>) -> (plan: BackfillPlan)
    ensures
        plan.positions@ == planned_positions(cold_start, present@),
        plan.with_details == !cold_start,
        plan.left_for_later == missing_positions(present@).len() - plan.positions.len(),
        forall|k: int|
            0 <= k < plan.positions.len() ==> (#[trigger] plan.positions[k]) < present.len()
                && !present[plan.positions[k] as int],
        (forall|p: int| 0 <= p < present.len() ==> present[p]) ==> plan.positions.len() == 0,
        cold_start ==> plan.positions.len() <= COLD_START_LIMIT,
{
    let n: usize = present.len();
    let limit: usize = if cold_start {
        COLD_START_LIMIT
    } else {
        n
    };
    let mut positions: Vec<usize> = Vec::new();
    let mut missing: usize = 0;
    let mut p: usize = 0;
    while p < n
        invariant
            p <= n,
            n == present.len(),
            limit == if cold_start { COLD_START_LIMIT } else { n },
            missing == missing_upto(present@, p as int).len(),
            missing <= p,
            positions@ == if missing > limit {
                missing_upto(present@, p as int).take(limit as int)
            } else {
                missing_upto(present@, p as int)
            },
        decreases n - p,
    {
        proof {
            lemma_missing_upto(present@, p as int);
            lemma_missing_upto(present@, p as int + 1);
        }
        if !present[p] {
            if missing < limit {
                positions.push(p);
            }
            missing += 1;
            proof {
                let before = missing_upto(present@, p as int);
                let now = missing_upto(present@, p as int + 1);
                assert(now == before.push(p));
                if missing > limit {
                    assert(now.take(limit as int) =~= if before.len() > limit {
                        before.take(limit as int)
                    } else {
                        before
                    });
                }
            }
        }
        p += 1;
    }
    proof {
        lemma_missing_upto(present@, n as int);
        let all = missing_positions(present@);
        if !cold_start {
            assert(all.len() <= n);
        }
        assert(positions@ == planned_positions(cold_start, present@));
    }
    let taken: usize = positions.len();
    BackfillPlan { positions, with_details: !cold_start, left_for_later: missing - taken }
}

/// A synchronization that finds every recent record in the store fetches
/// nothing.
pub proof fn lemma_nothing_missing_nothing_planned(cold_start: bool, present: Seq<bool>)
    requires
        present.len() <= usize::MAX,
        forall|p: int| 0 <= p < present.len() ==> present[p],
    ensures
        planned_positions(cold_start, present).len() == 0,
{
    lemma_missing_upto(present, present.len() as int);
}

/// A first synchronization fetches the first [`COLD_START_LIMIT`] missing
/// records and leaves the others for a later one; with ten missing it fetches
/// three and leaves seven.
pub proof fn lemma_cold_start_bound(present: Seq<bool>)
    requires
        present.len() <= usize::MAX,
    ensures
        ({
            let missing = missing_positions(present);
            let planned = planned_positions(true, present);
            &&& planned.len() == if missing.len() > COLD_START_LIMIT {
                COLD_START_LIMIT as nat
            } else {
                missing.len()
            }
            &&& planned == missing.take(planned.len() as int)
            &&& missing.len() == 10 ==> planned.len() == 3 && missing.len() - planned.len() == 7
        }),
{
    let missing = missing_positions(present);
    assert(missing.take(missing.len() as int) =~= missing);
}

/// A later synchronization fetches every missing record.
pub proof fn lemma_warm_plan_is_complete(present: Seq<bool>)
    requires
        present.len() <= usize::MAX,
    ensures
        planned_positions(false, present) == missing_positions(present),
        forall|p: int|
            0 <= p < present.len() && !(#[trigger] present[p]) ==> planned_positions(
                false,
                present,
            ).contains(p as usize),
{
    lemma_missing_upto(present, present.len() as int);
}

} // verus!
