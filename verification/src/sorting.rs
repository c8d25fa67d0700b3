use vstd::prelude::*;

verus! {

/// Whether the element at index `a` goes before the one at index `b` in a stable sort by key:
/// by its smaller key, or, for equal keys, by its earlier place.
pub open spec fn goes_before(keys: Seq<u128>, a: int, b: int) -> bool {
    keys[a] < keys[b] || (keys[a] == keys[b] && a < b)
}

/// Whether `order` lists the indices of `keys` as a stable sort by key does: as many indices as
/// keys, every one below the number of keys, each going before the next.
pub open spec fn is_stable_order(keys: Seq<u128>, order: Seq<usize>) -> bool {
    &&& order.len() == keys.len()
    &&& forall|i: int| 0 <= i < order.len() ==> order[i] < keys.len()
    &&& forall|i: int, j: int| 0 <= i < j < order.len() ==> goes_before(keys, #[trigger] order[i] as int, #[trigger] order[j] as int)
}

/// The indices of `keys` in the order of a stable sort by key: by increasing key, and for equal
/// keys in their own order.
pub fn stable_order(keys: &Vec<u128>) -> (order: Vec<usize>)
    ensures
        is_stable_order(keys@, order@),
{
    let mut order: Vec<usize> = Vec::new();
    let mut i: usize = 0;
    while i < keys.len()
        invariant
            i <= keys.len(),
            order.len() == i,
            forall|k: int| 0 <= k < order.len() ==> order@[k] < i,
            forall|a: int, b: int|
                0 <= a < b < order.len() ==> goes_before(keys@, #[trigger] order@[a] as int, #[trigger] order@[b] as int),
        decreases keys.len() - i,
    {
        let key = keys[i];
        let mut p: usize = 0;
        while p < order.len() && keys[order[p]] <= key
            invariant
                p <= order.len(),
                order.len() == i,
                i < keys.len(),
                key == keys@[i as int],
                forall|k: int| 0 <= k < order.len() ==> order@[k] < i,
                forall|k: int| 0 <= k < p ==> keys@[#[trigger] order@[k] as int] <= key,
            decreases order.len() - p,
        {
            p = p + 1;
        }
        proof {
            assert forall|k: int| p <= k < order.len() implies key < keys@[#[trigger] order@[k] as int] by {
                if p < order.len() {
                    if k > p {
                        assert(goes_before(keys@, order@[p as int] as int, order@[k] as int));
                    }
                }
            }
        }
        let ghost before = order@;
        order.insert(p, i);
        proof {
            assert forall|a: int, b: int|
                0 <= a < b < order.len() implies goes_before(keys@, #[trigger] order@[a] as int, #[trigger] order@[b] as int) by {
                if b < p {
                    assert(order@[a] == before[a] && order@[b] == before[b]);
                } else if b == p {
                    assert(order@[a] == before[a]);
                } else if a < p {
                    assert(order@[a] == before[a] && order@[b] == before[b - 1]);
                } else if a == p {
                    assert(order@[b] == before[b - 1]);
                } else {
                    assert(order@[a] == before[a - 1] && order@[b] == before[b - 1]);
                }
            }
            assert forall|k: int| 0 <= k < order.len() implies order@[k] < i + 1 by {
                if k < p {
                    assert(order@[k] == before[k]);
                } else if k > p {
                    assert(order@[k] == before[k - 1]);
                }
            }
        }
        i = i + 1;
    }
    order
}


/// Whether the order lists index `x`.
pub open spec fn lists_index(order: Seq<usize>, x: int) -> bool {
    exists|k: int| 0 <= k < order.len() && #[trigger] order[k] as int == x
}

/// A stable order lists every index: each index below the number of keys occurs in it.
pub proof fn lemma_stable_order_covers(keys: Seq<u128>, order: Seq<usize>)
    requires
        is_stable_order(keys, order),
    ensures
        forall|x: int| 0 <= x < keys.len() ==> #[trigger] lists_index(order, x),
{
    broadcast use vstd::seq_lib::seq_to_set_is_finite;

    let n = keys.len() as int;
    let ints = order.map_values(|v: usize| v as int);
    assert(ints.no_duplicates()) by {
        assert forall|i: int, j: int| 0 <= i < ints.len() && 0 <= j < ints.len() && i != j implies ints[i] != ints[j] by {
            if i < j {
                assert(goes_before(keys, order[i] as int, order[j] as int));
            } else {
                assert(goes_before(keys, order[j] as int, order[i] as int));
            }
        }
    }
    ints.unique_seq_to_set();
    vstd::set_lib::lemma_int_range(0, n);
    assert(ints.to_set().subset_of(vstd::set_lib::set_int_range(0, n))) by {
        assert forall|x: int| ints.to_set().contains(x) implies vstd::set_lib::set_int_range(0, n).contains(x) by {
            assert(ints.contains(x));
            let k = choose|k: int| 0 <= k < ints.len() && ints[k] == x;
            assert(order[k] < keys.len());
        }
    }
    vstd::set_lib::lemma_subset_equality(ints.to_set(), vstd::set_lib::set_int_range(0, n));
    assert forall|x: int| 0 <= x < keys.len() implies #[trigger] lists_index(order, x) by {
        assert(vstd::set_lib::set_int_range(0, n).contains(x));
        assert(ints.to_set().contains(x));
        assert(ints.contains(x));
        let k = choose|k: int| 0 <= k < ints.len() && ints[k] == x;
        assert(order[k] as int == x);
    }
}

} // verus!
