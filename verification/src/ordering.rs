//! Sorting by a number, largest first.

use vstd::prelude::*;

verus! {

/// The place in `order` of index `i`, from place `p` on: before the first
/// index whose key is smaller.
pub open spec fn place_of(order: Seq<int>, keys: Seq<u64>, i: int, p: int) -> int
    decreases order.len() - p,
{
    if p >= order.len() || keys[order[p]] < keys[i] {
        p
    } else {
        place_of(order, keys, i, p + 1)
    }
}

/// The indices of `keys`, the largest key first, equal keys in their order.
pub open spec fn descending(keys: Seq<u64>) -> Seq<int>
    decreases keys.len(),
{
    if keys.len() == 0 {
        Seq::empty()
    } else {
        let order = descending(keys.drop_last());
        order.insert(place_of(order, keys, keys.len() - 1, 0), keys.len() - 1)
    }
}

/// `a` comes before `b`: its key is larger, or equal and `a` is the smaller
/// index.
pub open spec fn precedes(keys: Seq<u64>, a: int, b: int) -> bool {
    keys[a] > keys[b] || (keys[a] == keys[b] && a < b)
}

proof fn lemma_place_of(order: Seq<int>, keys: Seq<u64>, i: int, p: int)
    requires
        0 <= p <= order.len(),
    ensures
        p <= place_of(order, keys, i, p) <= order.len(),
        forall|k: int| p <= k < place_of(order, keys, i, p) ==> keys[#[trigger] order[k]] >= keys[i],
        place_of(order, keys, i, p) < order.len() ==> keys[order[place_of(order, keys, i, p)]]
            < keys[i],
    decreases order.len() - p,
{
    if p < order.len() && keys[order[p]] >= keys[i] {
        lemma_place_of(order, keys, i, p + 1);
    }
}

/// The order lists every index once, each before the ones it precedes.
pub proof fn descending_sorts(keys: Seq<u64>)
    ensures
        descending(keys).len() == keys.len(),
        forall|k: int| 0 <= k < keys.len() ==> 0 <= #[trigger] descending(keys)[k] < keys.len(),
        forall|j: int, k: int|
            0 <= j < k < keys.len() ==> precedes(
                keys,
                #[trigger] descending(keys)[j],
                #[trigger] descending(keys)[k],
            ),
    decreases keys.len(),
{
    if keys.len() > 0 {
        let n = keys.len() - 1;
        let shorter = keys.drop_last();
        let order = descending(shorter);
        descending_sorts(shorter);
        lemma_place_of(order, keys, n, 0);
        let p = place_of(order, keys, n, 0);
        let all = order.insert(p, n);
        assert forall|j: int, k: int| 0 <= j < k < keys.len() implies precedes(
            keys,
            #[trigger] all[j],
            #[trigger] all[k],
        ) by {
            let a = if j < p {
                j
            } else {
                j - 1
            };
            let b = if k < p {
                k
            } else {
                k - 1
            };
            if j == p {
                assert(all[k] == order[b]);
                assert(p == b || precedes(shorter, order[p], order[b]));
            } else if k == p {
                assert(all[j] == order[a]);
            } else {
                assert(all[j] == order[a]);
                assert(all[k] == order[b]);
                assert(precedes(shorter, order[a], order[b]));
            }
        }
        assert forall|k: int| 0 <= k < keys.len() implies 0 <= #[trigger] all[k] < keys.len() by {
            if k < p {
                assert(all[k] == order[k]);
            } else if k > p {
                assert(all[k] == order[k - 1]);
            }
        }
    }
}

/// The integers that indices stand for.
pub open spec fn as_ints(v: Seq<usize>) -> Seq<int> {
    v.map_values(|i: usize| i as int)
}

pub fn descending_of(keys: &Vec<u64>) -> (r: Vec<usize>)
    ensures
        as_ints(r@) == descending(keys@),
        r@.len() == keys@.len(),
        forall|k: int| 0 <= k < r@.len() ==> (#[trigger] r@[k]) < keys@.len(),
{
    let mut order: Vec<usize> = Vec::new();
    let mut i: usize = 0;
    assert(as_ints(order@) =~= descending(keys@.take(0)));
    while i < keys.len()
        invariant
            i <= keys@.len(),
            as_ints(order@) == descending(keys@.take(i as int)),
            order@.len() == i,
            forall|k: int| 0 <= k < order@.len() ==> (#[trigger] order@[k]) < i,
        decreases keys@.len() - i,
    {
        let ghost part = keys@.take(i + 1);
        let ghost before = as_ints(order@);
        assert(part.drop_last() =~= keys@.take(i as int));
        let mut p: usize = 0;
        while p < order.len() && keys[order[p]] >= keys[i]
            invariant
                i < keys@.len(),
                part == keys@.take(i + 1),
                before == as_ints(order@),
                p <= order@.len(),
                order@.len() == i,
                forall|k: int| 0 <= k < order@.len() ==> (#[trigger] order@[k]) < i,
                place_of(before, part, i as int, 0) == place_of(before, part, i as int, p as int),
            decreases order@.len() - p,
        {
            assert(before[p as int] == order@[p as int]);
            p += 1;
        }
        assert(p < order@.len() ==> before[p as int] == order@[p as int]);
        let ghost was = order@;
        order.insert(p, i);
        assert(as_ints(order@) =~= before.insert(p as int, i as int));
        assert forall|k: int| 0 <= k < order@.len() implies (#[trigger] order@[k]) < i + 1 by {
            if k < p {
                assert(order@[k] == was[k]);
            } else if k > p {
                assert(order@[k] == was[k - 1]);
            }
        }
        i += 1;
    }
    assert(keys@.take(i as int) =~= keys@);
    order
}

/// Every index is listed.
pub proof fn every_index_is_listed(keys: Seq<u64>, j: int)
    requires
        0 <= j < keys.len(),
    ensures
        exists|i: int| 0 <= i < descending(keys).len() && #[trigger] descending(keys)[i] == j,
    decreases keys.len(),
{
    let n = keys.len() - 1;
    let shorter = keys.drop_last();
    let order = descending(shorter);
    descending_sorts(shorter);
    lemma_place_of(order, keys, n, 0);
    let p = place_of(order, keys, n, 0);
    let all = order.insert(p, n);
    assert(descending(keys) == all);
    if j == n {
        assert(all[p] == j);
    } else {
        every_index_is_listed(shorter, j);
        let i = choose|i: int| 0 <= i < order.len() && #[trigger] order[i] == j;
        if i < p {
            assert(all[i] == j);
        } else {
            assert(all[i + 1] == j);
        }
    }
}

} // verus!
