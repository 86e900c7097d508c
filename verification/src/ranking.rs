//! The order of particles by weight, heaviest first.

use vstd::prelude::*;

verus! {

/// Index `i` comes before index `j`: its weight is greater, or the weights are
/// equal and `i` is the smaller index.
pub open spec fn precedes(w: Seq<u64>, i: int, j: int) -> bool {
    w[i] > w[j] || (w[i] == w[j] && i < j)
}

/// `order` lists every index below `count` once, each before all that it
/// precedes.
pub open spec fn ranks(w: Seq<u64>, order: Seq<usize>, count: int) -> bool {
    &&& order.len() == count
    &&& forall|a: int| 0 <= a < count ==> 0 <= #[trigger] order[a] < count
    &&& forall|i: usize| i < count ==> #[trigger] order.contains(i)
    &&& forall|a: int, b: int|
        0 <= a < b < count ==> precedes(w, #[trigger] order[a] as int, #[trigger] order[b] as int)
}

/// `order` lists the indices of `w` by weight, heaviest first, and indices of
/// equal weight in rising order.
pub open spec fn is_ranking(w: Seq<u64>, order: Seq<usize>) -> bool {
    ranks(w, order, w.len() as int)
}

/// The indices of `w` by weight, heaviest first, and indices of equal weight
/// in rising order.
pub open spec fn ranking(w: Seq<u64>) -> Seq<usize> {
    choose|order: Seq<usize>| is_ranking(w, order)
}

/// Two rankings of the same weights agree on their first `upto` places.
pub proof fn lemma_rankings_agree(w: Seq<u64>, first: Seq<usize>, second: Seq<usize>, upto: int)
    requires
        is_ranking(w, first),
        is_ranking(w, second),
        0 <= upto <= w.len(),
    ensures
        forall|a: int| 0 <= a < upto ==> first[a] == second[a],
    decreases upto,
{
    if upto > 0 {
        lemma_rankings_agree(w, first, second, upto - 1);
        let at = upto - 1;
        let x = first[at];
        let y = second[at];
        if x != y {
            assert(second.contains(x));
            assert(first.contains(y));
            let b = choose|b: int| 0 <= b < second.len() && second[b] == x;
            let c = choose|c: int| 0 <= c < first.len() && first[c] == y;
            if b < at {
                assert(first[b] == second[b]);
                assert(precedes(w, first[b] as int, first[at] as int));
            }
            if c < at {
                assert(second[c] == first[c]);
                assert(precedes(w, second[c] as int, second[at] as int));
            }
            assert(precedes(w, second[at] as int, second[b] as int));
            assert(precedes(w, first[at] as int, first[c] as int));
        }
    }
}

/// Weights have one ranking.
pub proof fn lemma_ranking_unique(w: Seq<u64>, order: Seq<usize>)
    requires
        is_ranking(w, order),
    ensures
        order == ranking(w),
{
    lemma_rankings_agree(w, order, ranking(w), w.len() as int);
    assert(order =~= ranking(w));
}

/// In a ranking no weight is smaller than one behind it.
pub proof fn lemma_ranking_descends(w: Seq<u64>, order: Seq<usize>, a: int, b: int)
    requires
        is_ranking(w, order),
        0 <= a <= b < w.len(),
    ensures
        w[order[a] as int] >= w[order[b] as int],
{
    if a < b {
        assert(precedes(w, order[a] as int, order[b] as int));
    }
}

/// The indices of `w` by weight, heaviest first, and indices of equal weight
/// in rising order.
pub fn rank(w: &[u64]) -> (order: Vec<usize>)
    ensures
        is_ranking(w@, order@),
        order@ == ranking(w@),
{
    let n: usize = w.len();
    let mut order: Vec<usize> = Vec::with_capacity(n);
    let mut m: usize = 0;
    while m < n
        invariant
            0 <= m <= n,
            n == w@.len(),
            ranks(w@, order@, m as int),
        decreases n - m,
    {
        let mut pos: usize = 0;
        while pos < m && w[order[pos]] >= w[m]
            invariant
                0 <= pos <= m,
                m < n,
                n == w@.len(),
                ranks(w@, order@, m as int),
                forall|a: int| 0 <= a < pos ==> w@[#[trigger] order@[a] as int] >= w@[m as int],
            decreases m - pos,
        {
            pos += 1;
        }
        let ghost before = order@;
        order.insert(pos, m);
        proof {
            let after = order@;
            assert(after == before.insert(pos as int, m));
            assert forall|a: int| 0 <= a < m + 1 implies 0 <= #[trigger] after[a] < m + 1 by {
                if a < pos {
                    assert(after[a] == before[a]);
                } else if a > pos {
                    assert(after[a] == before[a - 1]);
                }
            }
            assert forall|i: usize| i < m + 1 implies #[trigger] after.contains(i) by {
                if i == m {
                    assert(after[pos as int] == i);
                } else {
                    assert(before.contains(i));
                    let a0 = choose|a: int| 0 <= a < before.len() && before[a] == i;
                    if a0 < pos {
                        assert(after[a0] == i);
                    } else {
                        assert(after[a0 + 1] == before[a0]);
                        assert(after[a0 + 1] == i);
                    }
                }
            }
            assert forall|a: int, b: int| 0 <= a < b < m + 1 implies precedes(
                w@,
                #[trigger] after[a] as int,
                #[trigger] after[b] as int,
            ) by {
                if b < pos {
                    assert(after[a] == before[a] && after[b] == before[b]);
                } else if b == pos {
                    assert(after[a] == before[a]);
                    assert(w@[before[a] as int] >= w@[m as int]);
                } else if a < pos {
                    assert(after[a] == before[a] && after[b] == before[b - 1]);
                } else if a == pos {
                    assert(after[b] == before[b - 1]);
                    assert(precedes(w@, before[pos as int] as int, before[b - 1] as int) || b - 1
                        == pos);
                    assert(w@[before[pos as int] as int] < w@[m as int]);
                } else {
                    assert(after[a] == before[a - 1] && after[b] == before[b - 1]);
                }
            }
        }
        m += 1;
    }
    proof {
        lemma_ranking_unique(w@, order@);
    }
    order
}

} // verus!
