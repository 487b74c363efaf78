//! Ordering by `(first id, first position)` ranks, the way stage order and
//! job order inside a stage are decided.

use vstd::prelude::*;

verus! {

/// A rank: a first-attempt id, then a first position that breaks ties.
pub open spec fn rank_lt(a: (u64, int), b: (u64, int)) -> bool {
    a.0 < b.0 || (a.0 == b.0 && a.1 < b.1)
}

pub open spec fn rank_of(p: (u64, usize)) -> (u64, int) {
    (p.0, p.1 as int)
}

/// `order` lists indices of `ranks`, strictly increasing by rank.
pub open spec fn sorted_by(order: Seq<usize>, ranks: Seq<(u64, usize)>) -> bool {
    &&& forall|i: int| 0 <= i < order.len() ==> #[trigger] order[i] < ranks.len()
    &&& forall|a: int, b: int|
        0 <= a < b < order.len() ==> rank_lt(
            rank_of(ranks[#[trigger] order[a] as int]),
            rank_of(ranks[#[trigger] order[b] as int]),
        )
}

pub fn rank_less(a: (u64, usize), b: (u64, usize)) -> (res: bool)
    ensures
        res == rank_lt(rank_of(a), rank_of(b)),
{
    a.0 < b.0 || (a.0 == b.0 && a.1 < b.1)
}

/// Puts index `k` into `order` at the place its rank calls for.
pub fn insert_sorted(order: &mut Vec<usize>, k: usize, ranks: &Vec<(u64, usize)>)
    requires
        sorted_by(old(order)@, ranks@),
        k < ranks@.len(),
        forall|i: int| 0 <= i < old(order)@.len() ==> rank_of(ranks@[#[trigger] old(order)@[i] as int]) != rank_of(ranks@[k as int]),
    ensures
        sorted_by(final(order)@, ranks@),
        final(order)@.len() == old(order)@.len() + 1,
        forall|x: usize| #[trigger] final(order)@.contains(x) <==> (old(order)@.contains(x) || x == k),
{
    let ghost before = order@;
    let mut pos: usize = 0;
    while pos < order.len() && rank_less(ranks[order[pos]], ranks[k])
        invariant
            order@ == before,
            pos <= order@.len(),
            sorted_by(before, ranks@),
            k < ranks@.len(),
            forall|i: int| 0 <= i < pos ==> rank_lt(rank_of(ranks@[#[trigger] before[i] as int]), rank_of(ranks@[k as int])),
        decreases order@.len() - pos,
    {
        pos += 1;
    }
    // Everything from `pos` on ranks after `k`.
    assert forall|i: int| pos <= i < before.len() implies rank_lt(
        rank_of(ranks@[k as int]),
        rank_of(ranks@[#[trigger] before[i] as int]),
    ) by {
        let p = before[pos as int];
        assert(!rank_lt(rank_of(ranks@[p as int]), rank_of(ranks@[k as int])));
        assert(rank_of(ranks@[p as int]) != rank_of(ranks@[k as int]));
        if i > pos {
            assert(rank_lt(rank_of(ranks@[before[pos as int] as int]), rank_of(ranks@[before[i] as int])));
        }
    }
    order.insert(pos, k);
    proof {
        before.insert_ensures(pos as int, k);
        let after = order@;
        assert forall|i: int| 0 <= i < after.len() implies #[trigger] after[i] < ranks@.len() by {
            if i > pos {
                assert(after[i] == before[i - 1]);
            }
        }
        assert forall|a: int, b: int| 0 <= a < b < after.len() implies rank_lt(
            rank_of(ranks@[#[trigger] after[a] as int]),
            rank_of(ranks@[#[trigger] after[b] as int]),
        ) by {
            if b < pos {
            } else if b == pos {
            } else if a < pos {
                assert(after[b] == before[b - 1]);
                assert(rank_lt(rank_of(ranks@[before[a] as int]), rank_of(ranks@[k as int])));
            } else if a == pos {
                assert(after[b] == before[b - 1]);
            } else {
                assert(after[a] == before[a - 1]);
                assert(after[b] == before[b - 1]);
            }
        }
        assert forall|x: usize| #[trigger] after.contains(x) <==> (before.contains(x) || x == k) by {
            if after.contains(x) {
                let i = choose|i: int| 0 <= i < after.len() && after[i] == x;
                if i < pos {
                    assert(before[i] == x);
                } else if i > pos {
                    assert(before[i - 1] == x);
                }
            }
            if before.contains(x) {
                let i = choose|i: int| 0 <= i < before.len() && before[i] == x;
                if i < pos {
                    assert(after[i] == x);
                } else {
                    assert(after[i + 1] == x);
                }
            }
            if x == k {
                assert(after[pos as int] == x);
            }
        }
    }
}

} // verus!
