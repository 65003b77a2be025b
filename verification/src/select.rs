//! Choosing the first few rows of a descending order, as a query with an
//! ordering and a limit does.

use vstd::prelude::*;

verus! {

/// A sort key of two parts; the first part decides, the second breaks ties.
pub type SortKey = (i128, i128);

/// Whether position `a` stands before position `b` when the keys are put in
/// descending order. Equal keys keep the order of their positions, so any
/// two different positions are ordered one way or the other.
pub open spec fn ranks_before(keys: Seq<SortKey>, a: int, b: int) -> bool {
    ||| keys[a].0 > keys[b].0
    ||| (keys[a].0 == keys[b].0 && keys[a].1 > keys[b].1)
    ||| (keys[a] == keys[b] && a < b)
}

/// Whether `picked` lists, best first, the `limit` best eligible positions of
/// `keys` (all of them, where fewer are eligible).
pub open spec fn is_top_selection(
    keys: Seq<SortKey>,
    eligible: Seq<bool>,
    limit: nat,
    picked: Seq<usize>,
) -> bool {
    &&& picked.len() <= limit
    &&& forall|i: int|
        0 <= i < picked.len() ==> (#[trigger] picked[i]) < keys.len() && eligible[picked[i] as int]
    &&& forall|i: int, j: int|
        0 <= i < j < picked.len() ==> ranks_before(
            keys,
            #[trigger] picked[i] as int,
            #[trigger] picked[j] as int,
        )
    &&& forall|x: int|
        0 <= x < keys.len() && #[trigger] eligible[x] && !picked.contains(x as usize) ==> {
            &&& picked.len() == limit
            &&& forall|i: int|
                0 <= i < picked.len() ==> ranks_before(keys, #[trigger] picked[i] as int, x)
        }
}

/// The `limit` best eligible positions of `keys`, best first.
pub open spec fn top_selection(keys: Seq<SortKey>, eligible: Seq<bool>, limit: nat) -> Seq<usize> {
    choose|picked: Seq<usize>| is_top_selection(keys, eligible, limit, picked)
}

proof fn lemma_neither_is_ahead(
    keys: Seq<SortKey>,
    eligible: Seq<bool>,
    limit: nat,
    a: Seq<usize>,
    b: Seq<usize>,
    i: int,
)
    requires
        is_top_selection(keys, eligible, limit, a),
        is_top_selection(keys, eligible, limit, b),
        0 <= i < a.len(),
        i < b.len(),
        forall|k: int| 0 <= k < i ==> a[k] == b[k],
    ensures
        !ranks_before(keys, a[i] as int, b[i] as int),
{
    let x = a[i];
    assert(eligible[x as int]);
    if ranks_before(keys, a[i] as int, b[i] as int) {
        if b.contains(x) {
            let j = choose|j: int| 0 <= j < b.len() && b[j] == x;
            if j < i {
                assert(a[j] == b[j]);
                assert(ranks_before(keys, a[j] as int, a[i] as int));
            } else if j > i {
                assert(ranks_before(keys, b[i] as int, b[j] as int));
            }
        } else {
            assert(ranks_before(keys, b[i] as int, x as int));
        }
    }
}

proof fn lemma_same_prefix(
    keys: Seq<SortKey>,
    eligible: Seq<bool>,
    limit: nat,
    a: Seq<usize>,
    b: Seq<usize>,
    n: nat,
)
    requires
        is_top_selection(keys, eligible, limit, a),
        is_top_selection(keys, eligible, limit, b),
        n <= a.len(),
        n <= b.len(),
    ensures
        forall|k: int| 0 <= k < n ==> a[k] == b[k],
    decreases n,
{
    if n > 0 {
        lemma_same_prefix(keys, eligible, limit, a, b, (n - 1) as nat);
        let i = n - 1;
        lemma_neither_is_ahead(keys, eligible, limit, a, b, i);
        lemma_neither_is_ahead(keys, eligible, limit, b, a, i);
    }
}

proof fn lemma_not_shorter(
    keys: Seq<SortKey>,
    eligible: Seq<bool>,
    limit: nat,
    a: Seq<usize>,
    b: Seq<usize>,
)
    requires
        is_top_selection(keys, eligible, limit, a),
        is_top_selection(keys, eligible, limit, b),
    ensures
        a.len() >= b.len(),
{
    if a.len() < b.len() {
        lemma_same_prefix(keys, eligible, limit, a, b, a.len());
        let x = b[a.len() as int];
        assert(eligible[x as int]);
        if a.contains(x) {
            let j = choose|j: int| 0 <= j < a.len() && a[j] == x;
            assert(b[j] == a[j]);
            assert(ranks_before(keys, b[j] as int, b[a.len() as int] as int));
        }
    }
}

/// The keys and the limit determine the selection.
pub proof fn lemma_top_selection_is_unique(
    keys: Seq<SortKey>,
    eligible: Seq<bool>,
    limit: nat,
    a: Seq<usize>,
    b: Seq<usize>,
)
    requires
        is_top_selection(keys, eligible, limit, a),
        is_top_selection(keys, eligible, limit, b),
    ensures
        a == b,
{
    lemma_not_shorter(keys, eligible, limit, a, b);
    lemma_not_shorter(keys, eligible, limit, b, a);
    lemma_same_prefix(keys, eligible, limit, a, b, a.len());
    assert(a =~= b);
}

/// Finds the best eligible position that has not been taken yet.
fn best_remaining(keys: &Vec<SortKey>, eligible: &Vec<bool>, taken: &Vec<bool>) -> (r: Option<
    usize,
>)
    requires
        eligible.len() == keys.len(),
        taken.len() == keys.len(),
    ensures
        match r {
            Some(b) => {
                &&& b < keys.len()
                &&& eligible[b as int]
                &&& !taken[b as int]
                &&& forall|x: int|
                    0 <= x < keys.len() && eligible[x] && !taken[x] && x != b ==> ranks_before(
                        keys@,
                        b as int,
                        x,
                    )
            },
            None => forall|x: int| 0 <= x < keys.len() && eligible[x] ==> taken[x],
        },
{
    let n: usize = keys.len();
    let mut best: Option<usize> = None;
    let mut x: usize = 0;
    while x < n
        invariant
            x <= n,
            n == keys.len(),
            eligible.len() == n,
            taken.len() == n,
            match best {
                Some(b) => {
                    &&& b < x
                    &&& eligible[b as int]
                    &&& !taken[b as int]
                    &&& forall|y: int|
                        0 <= y < x && eligible[y] && !taken[y] && y != b ==> ranks_before(
                            keys@,
                            b as int,
                            y,
                        )
                },
                None => forall|y: int| 0 <= y < x && eligible[y] ==> taken[y],
            },
        decreases n - x,
    {
        if eligible[x] && !taken[x] {
            match best {
                None => {
                    best = Some(x);
                },
                Some(b) => {
                    let better = keys[x].0 > keys[b].0 || (keys[x].0 == keys[b].0 && keys[x].1
                        > keys[b].1);
                    if better {
                        best = Some(x);
                    }
                },
            }
        }
        x += 1;
    }
    best
}

/// Picks the `limit` best eligible positions of `keys`, best first.
pub(crate) fn select_top(keys: &Vec<SortKey>, eligible: &Vec<bool>, limit: usize) -> (picked: Vec<
    usize,
>)
    requires
        eligible.len() == keys.len(),
    ensures
        is_top_selection(keys@, eligible@, limit as nat, picked@),
        picked@ == top_selection(keys@, eligible@, limit as nat),
{
    let n: usize = keys.len();
    let mut taken: Vec<bool> = Vec::new();
    let mut t: usize = 0;
    while t < n
        invariant
            t <= n,
            taken.len() == t,
            forall|y: int| 0 <= y < t ==> !taken[y],
        decreases n - t,
    {
        taken.push(false);
        t += 1;
    }
    let mut picked: Vec<usize> = Vec::new();
    let mut exhausted: bool = false;
    while picked.len() < limit && !exhausted
        invariant
            n == keys.len(),
            eligible.len() == n,
            taken.len() == n,
            picked.len() <= limit,
            forall|i: int|
                0 <= i < picked.len() ==> (#[trigger] picked[i]) < n && eligible[picked[i] as int]
                    && taken[picked[i] as int],
            forall|y: int| 0 <= y < n && #[trigger] taken[y] ==> picked@.contains(y as usize),
            forall|i: int, j: int|
                0 <= i < j < picked.len() ==> ranks_before(
                    keys@,
                    #[trigger] picked[i] as int,
                    #[trigger] picked[j] as int,
                ),
            forall|i: int, y: int|
                0 <= i < picked.len() && 0 <= y < n && eligible[y] && !(#[trigger] taken[y])
                    ==> ranks_before(keys@, #[trigger] picked[i] as int, y),
            exhausted ==> forall|y: int| 0 <= y < n && eligible[y] ==> #[trigger] taken[y],
        decreases (limit - picked.len()) + (if exhausted { 0int } else { 1int }),
    {
        match best_remaining(keys, eligible, &taken) {
            None => {
                exhausted = true;
            },
            Some(b) => {
                let ghost before = picked@;
                taken.set(b, true);
                picked.push(b);
                proof {
                    assert(picked@[before.len() as int] == b);
                    assert forall|y: int|
                        0 <= y < n && #[trigger] taken[y] implies picked@.contains(y as usize) by {
                        if y == b {
                            assert(picked@[before.len() as int] == y as usize);
                        } else {
                            let w = choose|w: int| 0 <= w < before.len() && before[w] == y as usize;
                            assert(picked@[w] == y as usize);
                        }
                    }
                }
            },
        }
    }
    proof {
        assert forall|x: int|
            0 <= x < keys.len() && #[trigger] eligible@[x] && !picked@.contains(
                x as usize,
            ) implies {
            &&& picked.len() == limit
            &&& forall|i: int|
                0 <= i < picked.len() ==> ranks_before(keys@, #[trigger] picked[i] as int, x)
        } by {
            if taken[x] {
                assert(picked@.contains(x as usize));
            }
        }
        assert(is_top_selection(keys@, eligible@, limit as nat, picked@));
        lemma_top_selection_is_unique(
            keys@,
            eligible@,
            limit as nat,
            picked@,
            top_selection(keys@, eligible@, limit as nat),
        );
    }
    picked
}

} // verus!
