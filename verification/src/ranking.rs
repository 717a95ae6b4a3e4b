use vstd::prelude::*;

verus! {

/// `order` lists the positions `0..keys.len()` by descending key, positions
/// with equal keys keeping their original relative order (a stable sort).
pub open spec fn is_stable_descending_order(keys: Seq<int>, order: Seq<int>) -> bool {
    &&& order.len() == keys.len()
    &&& forall|i: int| 0 <= i < order.len() ==> 0 <= #[trigger] order[i] < keys.len()
    &&& forall|i: int, j: int|
        0 <= i < j < order.len() ==> keys[#[trigger] order[i]] > keys[#[trigger] order[j]] || (
        keys[order[i]] == keys[order[j]] && order[i] < order[j])
}

/// The keys as mathematical integers.
pub open spec fn keys_view(keys: Seq<usize>) -> Seq<int> {
    Seq::new(keys.len(), |i: int| keys[i] as int)
}

/// The positions as mathematical integers.
pub open spec fn positions_view(order: Seq<usize>) -> Seq<int> {
    Seq::new(order.len(), |i: int| order[i] as int)
}

/// The positions of `keys` sorted by descending key, ties broken by position
/// (the order a stable descending sort leaves them in).
pub fn stable_descending_order(keys: &Vec<usize>) -> (order: Vec<usize>)
    ensures
        is_stable_descending_order(keys_view(keys@), positions_view(order@)),
{
    let ghost ks = keys_view(keys@);
    let mut order: Vec<usize> = Vec::new();
    let mut i: usize = 0;
    while i < keys.len()
        invariant
            ks == keys_view(keys@),
            i <= keys@.len(),
            order@.len() == i,
            forall|p: int| 0 <= p < order@.len() ==> #[trigger] order@[p] < i,
            forall|p: int, q: int|
                0 <= p < q < order@.len() ==> keys@[#[trigger] order@[p] as int] > keys@[#[trigger] order@[q] as int] || (
                keys@[order@[p] as int] == keys@[order@[q] as int] && order@[p] < order@[q]),
        decreases keys@.len() - i,
    {
        let key = keys[i];
        let mut pos: usize = 0;
        while pos < order.len() && keys[order[pos]] >= key
            invariant
                i < keys@.len(),
                key == keys@[i as int],
                pos <= order@.len(),
                forall|p: int| 0 <= p < order@.len() ==> #[trigger] order@[p] < i,
                forall|p: int| 0 <= p < pos ==> keys@[#[trigger] order@[p] as int] >= key,
            decreases order@.len() - pos,
        {
            pos += 1;
        }
        let ghost before = order@;
        order.insert(pos, i);
        proof {
            assert forall|p: int| 0 <= p < order@.len() implies #[trigger] order@[p] < i + 1 by {
                if p < pos {
                    assert(order@[p] == before[p]);
                } else if p > pos {
                    assert(order@[p] == before[p - 1]);
                }
            }
            assert forall|p: int, q: int|
                0 <= p < q < order@.len() implies keys@[#[trigger] order@[p] as int] > keys@[#[trigger] order@[q] as int] || (
                keys@[order@[p] as int] == keys@[order@[q] as int] && order@[p] < order@[q]) by {
                if q < pos {
                    assert(order@[p] == before[p] && order@[q] == before[q]);
                } else if q == pos {
                    assert(order@[p] == before[p]);
                    assert(keys@[before[p] as int] >= key);
                    assert(before[p] < i);
                } else if p == pos {
                    assert(order@[q] == before[q - 1]);
                    assert(pos < before.len());
                    assert(keys@[before[pos as int] as int] < key);
                    if q - 1 > pos {
                        assert(keys@[before[pos as int] as int] >= keys@[before[q - 1] as int]);
                    }
                } else if p < pos {
                    assert(order@[p] == before[p] && order@[q] == before[q - 1]);
                } else {
                    assert(order@[p] == before[p - 1] && order@[q] == before[q - 1]);
                }
            }
        }
        i += 1;
    }
    proof {
        let ov = positions_view(order@);
        assert forall|p: int, q: int| 0 <= p < q < ov.len() implies ks[#[trigger] ov[p]] > ks[#[trigger] ov[q]] || (
            ks[ov[p]] == ks[ov[q]] && ov[p] < ov[q]) by {
            assert(keys@[order@[p] as int] > keys@[order@[q] as int] || (
                keys@[order@[p] as int] == keys@[order@[q] as int] && order@[p] < order@[q]));
        }
    }
    order
}

/// A stable descending order lists every position: it is a permutation of
/// `0..keys.len()`.
pub proof fn lemma_stable_order_lists_every_position(keys: Seq<int>, order: Seq<int>, j: int)
    requires
        is_stable_descending_order(keys, order),
        0 <= j < keys.len(),
    ensures
        exists|i: int| 0 <= i < order.len() && order[i] == j,
{
    assert(order.no_duplicates()) by {
        assert forall|a: int, b: int| 0 <= a < order.len() && 0 <= b < order.len() && a != b implies order[a]
            != order[b] by {
            if a < b {
                assert(keys[order[a]] > keys[order[b]] || order[a] < order[b]);
            } else {
                assert(keys[order[b]] > keys[order[a]] || order[b] < order[a]);
            }
        }
    }
    order.unique_seq_to_set();
    vstd::set_lib::lemma_int_range(0, keys.len() as int);
    let range = vstd::set_lib::set_int_range(0, keys.len() as int);
    assert(order.to_set().subset_of(range)) by {
        assert forall|x: int| order.to_set().contains(x) implies range.contains(x) by {
            let i = choose|i: int| 0 <= i < order.len() && order[i] == x;
        }
    }
    if !order.to_set().contains(j) {
        order.to_set().lemma_subset_not_in_lt(range, j);
    }
}

} // verus!
