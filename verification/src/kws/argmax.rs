//! The two best-scoring classes.

use vstd::prelude::*;

use crate::kws::history::NUM_CLASSES;

verus! {

/// `i` is the first index, other than `skip`, that holds the greatest score
/// among the indices below `n` other than `skip`.
pub open spec fn best_apart_from(scores: Seq<i32>, n: int, skip: int, i: int) -> bool {
    &&& 0 <= i < n
    &&& i != skip
    &&& forall|j: int| 0 <= j < n && j != skip ==> #[trigger] scores[j] <= scores[i]
    &&& forall|j: int| 0 <= j < i && j != skip ==> #[trigger] scores[j] < scores[i]
}

/// `i` is the first index below `n` that holds the greatest score.
pub open spec fn best(scores: Seq<i32>, n: int, i: int) -> bool {
    best_apart_from(scores, n, -1, i)
}

/// There is always a best index, as long as there is one to choose from.
pub proof fn lemma_best_exists(scores: Seq<i32>, n: int, skip: int) -> (i: int)
    requires
        n >= 1,
        n >= 2 || skip != 0,
    ensures
        best_apart_from(scores, n, skip, i),
    decreases n,
{
    if n == 1 {
        0
    } else if n == 2 && skip == 0 {
        1
    } else {
        let i = lemma_best_exists(scores, n - 1, skip);
        if n - 1 != skip && scores[n - 1] > scores[i] {
            n - 1
        } else {
            i
        }
    }
}

/// There is at most one best index.
pub proof fn lemma_best_is_unique(scores: Seq<i32>, n: int, skip: int, i: int, j: int)
    requires
        best_apart_from(scores, n, skip, i),
        best_apart_from(scores, n, skip, j),
    ensures
        i == j,
{
    assert(scores[i] <= scores[j] && scores[j] <= scores[i]);
}

/// The best class and the runner-up. Among equal scores the lower class wins,
/// for either place.
pub fn argmax(v: &[i32; NUM_CLASSES]) -> (top: (usize, usize))
    ensures
        best(v@, NUM_CLASSES as int, top.0 as int),
        best_apart_from(v@, NUM_CLASSES as int, top.0 as int, top.1 as int),
{
    let mut top1: usize = 0;
    let mut top2: usize = 1;
    if v[1] > v[0] {
        top1 = 1;
        top2 = 0;
    }
    for c in 2..NUM_CLASSES
        invariant
            best(v@, c as int, top1 as int),
            best_apart_from(v@, c as int, top1 as int, top2 as int),
    {
        if v[c] > v[top1] {
            top2 = top1;
            top1 = c;
        } else if v[c] > v[top2] {
            top2 = c;
        }
    }
    (top1, top2)
}

/// With the best class and the runner-up known, no other class scores more than
/// the runner-up, nor the runner-up more than the best. Among equals the lower class
/// comes first.
pub proof fn law_two_classes_lead(scores: Seq<i32>, n: int, top1: int, top2: int, c: int)
    requires
        best(scores, n, top1),
        best_apart_from(scores, n, top1, top2),
        0 <= c < n,
        c != top1,
    ensures
        0 <= top1 < n,
        0 <= top2 < n,
        top1 != top2,
        scores[c] <= scores[top2] <= scores[top1],
        scores[c] == scores[top1] ==> top1 < c,
        c != top2 && scores[c] == scores[top2] ==> top2 < c,
{
}

/// What no other class reaches is the best, and what only the best reaches is the
/// runner-up.
pub proof fn law_leaders_are_best(scores: Seq<i32>, n: int, top1: int, top2: int)
    requires
        0 <= top1 < n,
        0 <= top2 < n,
        top1 != top2,
        forall|c: int| 0 <= c < n && c != top1 ==> #[trigger] scores[c] < scores[top1],
        forall|c: int|
            0 <= c < n && c != top1 && c != top2 ==> #[trigger] scores[c] < scores[top2],
    ensures
        best(scores, n, top1),
        best_apart_from(scores, n, top1, top2),
{
}

} // verus!
