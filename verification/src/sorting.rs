//! Stable sorting of rows by a key of three numbers.

use vstd::prelude::*;

verus! {

/// A sort key: rows are ordered by the first number, rows that agree in it
/// by the second, and rows that agree in both by the third.
pub struct SortKey {
    pub first: i64,
    pub second: i64,
    pub third: i64,
}

/// Key `a` sorts strictly before key `b`.
pub open spec fn key_before(a: SortKey, b: SortKey) -> bool {
    a.first < b.first || (a.first == b.first && (a.second < b.second || (a.second == b.second
        && a.third < b.third)))
}

/// Row `i` comes before row `j`: by its key, or, where the keys are
/// equal, by standing earlier in the list.
pub open spec fn row_before(keys: Seq<SortKey>, i: int, j: int) -> bool {
    key_before(keys[i], keys[j]) || (!key_before(keys[j], keys[i]) && i < j)
}

/// Position `k` stands somewhere in `order`.
pub open spec fn lists(order: Seq<usize>, k: int) -> bool {
    exists|a: int| 0 <= a < order.len() && #[trigger] order[a] == k
}

/// `order` lists every position of `keys` once, sorted by key, rows with
/// equal keys in the order in which they stand in the list.
pub open spec fn is_sorted_order(order: Seq<usize>, keys: Seq<SortKey>) -> bool {
    &&& order.len() == keys.len()
    &&& forall|a: int| 0 <= a < order.len() ==> (#[trigger] order[a]) < keys.len()
    &&& forall|a: int, b: int|
        0 <= a < b < order.len() ==> row_before(keys, #[trigger] order[a] as int, #[trigger] order[b] as int)
    &&& forall|k: int| 0 <= k < keys.len() ==> #[trigger] lists(order, k)
}

fn sorts_before(a: &SortKey, b: &SortKey) -> (r: bool)
    ensures
        r == key_before(*a, *b),
{
    a.first < b.first || (a.first == b.first && (a.second < b.second || (a.second == b.second
        && a.third < b.third)))
}

/// The positions of `keys` in sorted order.
pub fn sorted_order(keys: &Vec<SortKey>) -> (order: Vec<usize>)
    ensures
        is_sorted_order(order@, keys@),
{
    let mut order: Vec<usize> = Vec::new();
    let mut i: usize = 0;
    while i < keys.len()
        invariant
            i <= keys.len(),
            order@.len() == i,
            forall|a: int| 0 <= a < order@.len() ==> (#[trigger] order@[a]) < i,
            forall|a: int, b: int|
                0 <= a < b < order@.len() ==> row_before(
                    keys@,
                    #[trigger] order@[a] as int,
                    #[trigger] order@[b] as int,
                ),
            forall|k: int| 0 <= k < i ==> #[trigger] lists(order@, k),
        decreases keys.len() - i,
    {
        let mut p: usize = order.len();
        while p > 0 && sorts_before(&keys[i], &keys[order[p - 1]])
            invariant
                p <= order@.len(),
                i < keys.len(),
                order@.len() == i,
                forall|a: int| 0 <= a < order@.len() ==> (#[trigger] order@[a]) < i,
                forall|a: int|
                    p <= a < order@.len() ==> key_before(
                        keys@[i as int],
                        keys@[(#[trigger] order@[a]) as int],
                    ),
            decreases p,
        {
            p -= 1;
        }
        let ghost before = order@;
        order.insert(p, i);
        proof {
            assert(order@.len() == i + 1);
            assert forall|a: int| 0 <= a < order@.len() implies (#[trigger] order@[a]) < i + 1 by {
                if a < p {
                    assert(order@[a] == before[a]);
                } else if a > p {
                    assert(order@[a] == before[a - 1]);
                }
            }
            assert forall|a: int, b: int| 0 <= a < b < order@.len() implies row_before(
                keys@,
                #[trigger] order@[a] as int,
                #[trigger] order@[b] as int,
            ) by {
                let x = if a < p {
                    before[a]
                } else if a == p {
                    i
                } else {
                    before[a - 1]
                };
                let y = if b < p {
                    before[b]
                } else if b == p {
                    i
                } else {
                    before[b - 1]
                };
                assert(order@[a] == x && order@[b] == y);
                if b == p {
                    // every row left of the gap sorts before the new one
                    assert(before[a] < i);
                    if p >= 1 {
                        if a < p - 1 {
                            assert(row_before(keys@, before[a] as int, before[p - 1] as int));
                        }
                        assert(before[p - 1] < i);
                    }
                } else if a == p {
                    assert(key_before(keys@[i as int], keys@[before[b - 1] as int]));
                } else if a < p && b > p {
                    assert(row_before(keys@, before[a] as int, before[b - 1] as int));
                } else if a < p && b < p {
                    assert(row_before(keys@, before[a] as int, before[b] as int));
                } else {
                    assert(row_before(keys@, before[a - 1] as int, before[b - 1] as int));
                }
            }
            assert forall|k: int| 0 <= k < i + 1 implies #[trigger] lists(order@, k) by {
                if k == i {
                    assert(order@[p as int] == k);
                } else {
                    assert(lists(before, k));
                    let a0 = choose|a: int| 0 <= a < before.len() && #[trigger] before[a] == k;
                    if a0 < p {
                        assert(order@[a0] == k);
                    } else {
                        assert(order@[a0 + 1] == k);
                    }
                }
            }
        }
        i += 1;
    }
    order
}

} // verus!
