//! A stable sort of a list by integer keys that are given beside it.

use vstd::prelude::*;

verus! {

/// Whether position `a` comes before position `b` in the sorted order of
/// `keys`: its key is smaller, or the keys are equal and `a` is the earlier
/// position.
pub open spec fn sorts_before(keys: Seq<i64>, a: int, b: int) -> bool {
    keys[a] < keys[b] || (keys[a] == keys[b] && a < b)
}

/// Whether `order` lists the positions of `keys` in stable ascending order
/// of their keys: every position once, smaller keys first, equal keys in the
/// order of their positions.
pub open spec fn is_stable_order(order: Seq<int>, keys: Seq<i64>) -> bool {
    &&& order.len() == keys.len()
    &&& forall|i: int| 0 <= i < order.len() ==> 0 <= #[trigger] order[i] < keys.len()
    &&& forall|k: int| 0 <= k < keys.len() ==> #[trigger] order.contains(k)
    &&& forall|i: int, j: int|
        0 <= i < j < order.len() ==> sorts_before(keys, #[trigger] order[i], #[trigger] order[j])
}

/// The stable ascending order of the positions of `keys`.
pub open spec fn stable_order_of(keys: Seq<i64>) -> Seq<int> {
    choose|order: Seq<int>| is_stable_order(order, keys)
}

/// The elements of `items` in the order that `order` gives.
pub open spec fn arranged<T>(items: Seq<T>, order: Seq<int>) -> Seq<T> {
    Seq::new(order.len(), |i: int| items[order[i]])
}

/// The elements of `items` in stable ascending order of the keys that stand
/// beside them in `keys`: smaller keys first, equal keys in their old order.
pub open spec fn stably_sorted<T>(items: Seq<T>, keys: Seq<i64>) -> Seq<T> {
    arranged(items, stable_order_of(keys))
}

/// Sorts `items` by the keys that stand beside them in `keys`, smaller keys
/// first. Elements with equal keys keep their order.
pub fn sort_by_keys<T>(items: Vec<T>, keys: Vec<i64>) -> (res: Vec<T>)
    requires
        items@.len() == keys@.len(),
    ensures
        res@ == stably_sorted(items@, keys@),
        is_stable_order(stable_order_of(keys@), keys@),
{
    let ghost all_items = items@;
    let ghost all_keys = keys@;
    let mut items = items;
    let mut keys = keys;
    let mut out_items: Vec<T> = Vec::new();
    let mut out_keys: Vec<i64> = Vec::new();
    let ghost mut order: Seq<int> = Seq::empty();
    while items.len() > 0
        invariant
            all_items.len() == all_keys.len(),
            items@.len() == keys@.len(),
            items@ == all_items.take(items@.len() as int),
            keys@ == all_keys.take(items@.len() as int),
            out_items@.len() == order.len(),
            out_keys@.len() == order.len(),
            order.len() + items@.len() == all_items.len(),
            forall|i: int|
                0 <= i < order.len() ==> {
                    &&& items@.len() <= #[trigger] order[i] < all_items.len()
                    &&& out_items@[i] == all_items[order[i]]
                    &&& out_keys@[i] == all_keys[order[i]]
                },
            forall|k: int| items@.len() <= k < all_items.len() ==> #[trigger] order.contains(k),
            forall|i: int, j: int|
                0 <= i < j < order.len() ==> sorts_before(
                    all_keys,
                    #[trigger] order[i],
                    #[trigger] order[j],
                ),
        decreases items.len(),
    {
        let ghost position = items@.len() - 1;
        let item = items.pop().unwrap();
        let key = keys.pop().unwrap();
        assert(key == all_keys[position]);
        // The new element goes before the first one whose key is not smaller.
        let mut p: usize = 0;
        while p < out_keys.len() && out_keys[p] < key
            invariant
                p <= out_keys.len(),
                forall|i: int| 0 <= i < p ==> out_keys@[i] < key,
            decreases out_keys.len() - p,
        {
            p = p + 1;
        }
        let ghost old_order = order;
        let ghost old_items = out_items@;
        let ghost old_keys = out_keys@;
        out_items.insert(p, item);
        out_keys.insert(p, key);
        proof {
            order = old_order.insert(p as int, position);
            assert forall|i: int| 0 <= i < order.len() implies {
                &&& items@.len() <= #[trigger] order[i] < all_items.len()
                &&& out_items@[i] == all_items[order[i]]
                &&& out_keys@[i] == all_keys[order[i]]
            } by {
                if i < p {
                    assert(order[i] == old_order[i]);
                } else if i > p {
                    assert(order[i] == old_order[i - 1]);
                }
            }
            assert forall|k: int| items@.len() <= k < all_items.len() implies #[trigger]
                order.contains(k) by {
                if k == position {
                    assert(order[p as int] == k);
                } else {
                    assert(old_order.contains(k));
                    let i = choose|i: int| 0 <= i < old_order.len() && old_order[i] == k;
                    if i < p {
                        assert(order[i] == k);
                    } else {
                        assert(order[i + 1] == k);
                    }
                }
            }
            assert forall|i: int, j: int| 0 <= i < j < order.len() implies sorts_before(
                all_keys,
                #[trigger] order[i],
                #[trigger] order[j],
            ) by {
                let a = if i < p {
                    i
                } else {
                    i - 1
                };
                let b = if j < p {
                    j
                } else {
                    j - 1
                };
                if i == p {
                    assert(order[j] == old_order[b]);
                    if p < old_order.len() {
                        assert(old_keys[p as int] >= key);
                        if b > p {
                            assert(sorts_before(all_keys, old_order[p as int], old_order[b]));
                        }
                    }
                } else if j == p {
                    assert(order[i] == old_order[a]);
                    assert(old_keys[a] < key);
                } else {
                    assert(order[i] == old_order[a]);
                    assert(order[j] == old_order[b]);
                    assert(sorts_before(all_keys, old_order[a], old_order[b]));
                }
            }
        }
    }
    proof {
        assert(is_stable_order(order, all_keys));
        lemma_stable_order_is_unique(order, stable_order_of(all_keys), all_keys);
        assert(out_items@ =~= arranged(all_items, order));
    }
    out_items
}

/// A stable order never lists a position twice.
pub proof fn lemma_stable_order_is_injective(order: Seq<int>, keys: Seq<i64>, i: int, j: int)
    requires
        is_stable_order(order, keys),
        0 <= i < order.len(),
        0 <= j < order.len(),
        order[i] == order[j],
    ensures
        i == j,
{
    if i < j {
        assert(sorts_before(keys, order[i], order[j]));
    } else if j < i {
        assert(sorts_before(keys, order[j], order[i]));
    }
}

/// There is only one stable order of given keys.
pub proof fn lemma_stable_order_is_unique(a: Seq<int>, b: Seq<int>, keys: Seq<i64>)
    requires
        is_stable_order(a, keys),
        is_stable_order(b, keys),
    ensures
        a == b,
{
    assert forall|i: int| 0 <= i < a.len() implies a[i] == b[i] by {
        lemma_same_rank(a, b, keys, i);
    }
    assert(a =~= b);
}

/// Two stable orders of the same keys agree at the first `n` places.
proof fn lemma_rank_bound(a: Seq<int>, b: Seq<int>, keys: Seq<i64>, n: int)
    requires
        is_stable_order(a, keys),
        is_stable_order(b, keys),
        0 <= n <= a.len(),
    ensures
        forall|i: int| 0 <= i < n ==> a[i] == b[i],
    decreases n,
{
    if n > 0 {
        lemma_rank_bound(a, b, keys, n - 1);
        let i = n - 1;
        // Both orders agree below `i`; the element at `i` is in each the least
        // of those that remain.
        let x = a[i];
        let y = b[i];
        if x != y {
            assert(b.contains(x));
            let jb = choose|j: int| 0 <= j < b.len() && b[j] == x;
            assert(a.contains(y));
            let ja = choose|j: int| 0 <= j < a.len() && a[j] == y;
            if jb < i {
                assert(a[jb] == b[jb]);
                lemma_stable_order_is_injective(a, keys, jb, i);
            }
            if ja < i {
                assert(a[ja] == b[ja]);
                lemma_stable_order_is_injective(b, keys, ja, i);
            }
            assert(jb > i);
            assert(ja > i);
            assert(sorts_before(keys, b[i], b[jb]));
            assert(sorts_before(keys, a[i], a[ja]));
        }
    }
}

/// Two stable orders of the same keys agree at every place.
proof fn lemma_same_rank(a: Seq<int>, b: Seq<int>, keys: Seq<i64>, i: int)
    requires
        is_stable_order(a, keys),
        is_stable_order(b, keys),
        0 <= i < a.len(),
    ensures
        a[i] == b[i],
{
    lemma_rank_bound(a, b, keys, i + 1);
}

} // verus!
