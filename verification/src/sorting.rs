//! Stable sorting by rank.
use vstd::prelude::*;
use vstd::seq_lib::group_to_multiset_ensures;
use crate::model::Model;
use crate::order::{Rank, Ranked, rank_laws};

verus! {

/// A sorted sequence with one more item, behind all that do not stand after it.
pub open spec fn placed<T: Ranked>(items: Seq<T::V>, item: T::V) -> Seq<T::V>
    decreases items.len(),
{
    if items.len() == 0 || T::rank(items.last(), item) != Rank::Greater {
        items.push(item)
    } else {
        placed::<T>(items.drop_last(), item).push(items.last())
    }
}

/// The items sorted by rank, those of equal rank in the order in which they came.
pub open spec fn sorted<T: Ranked>(items: Seq<T::V>) -> Seq<T::V>
    decreases items.len(),
{
    if items.len() == 0 {
        items
    } else {
        placed::<T>(sorted::<T>(items.drop_last()), items.last())
    }
}

/// Whether no item stands after a later one.
pub open spec fn in_order<T: Ranked>(items: Seq<T::V>) -> bool {
    forall|i: int, j: int|
        0 <= i < j < items.len() ==> #[trigger] T::rank(items[i], items[j]) != Rank::Greater
}

proof fn placed_at<T: Ranked>(items: Seq<T::V>, item: T::V, p: int)
    requires
        0 <= p <= items.len(),
        p > 0 ==> T::rank(items[p - 1], item) != Rank::Greater,
        forall|i: int| p <= i < items.len() ==> #[trigger] T::rank(items[i], item) == Rank::Greater,
    ensures
        placed::<T>(items, item) == items.insert(p, item),
    decreases items.len(),
{
    if p < items.len() {
        let shorter = items.drop_last();
        assert forall|i: int| p <= i < shorter.len() implies #[trigger] T::rank(shorter[i], item)
            == Rank::Greater by {
            assert(T::rank(items[i], item) == Rank::Greater);
        }
        assert(T::rank(items[items.len() - 1], item) == Rank::Greater);
        placed_at::<T>(shorter, item, p);
        assert(shorter.insert(p, item).push(items.last()) =~= items.insert(p, item));
    } else {
        assert(items.insert(p, item) =~= items.push(item));
    }
}

proof fn placed_is_in_order<T: Ranked>(items: Seq<T::V>, item: T::V)
    requires
        in_order::<T>(items),
    ensures
        in_order::<T>(placed::<T>(items, item)),
        placed::<T>(items, item).to_multiset() == items.to_multiset().insert(item),
        forall|i: int|
            0 <= i < placed::<T>(items, item).len() ==> items.contains(
                #[trigger] placed::<T>(items, item)[i],
            ) || placed::<T>(items, item)[i] == item,
    decreases items.len(),
{
    broadcast use group_to_multiset_ensures;

    let out = placed::<T>(items, item);
    if items.len() == 0 || T::rank(items.last(), item) != Rank::Greater {
        assert forall|i: int, j: int| 0 <= i < j < out.len() implies #[trigger] T::rank(
            out[i],
            out[j],
        ) != Rank::Greater by {
            if j < items.len() {
                assert(T::rank(items[i], items[j]) != Rank::Greater);
            } else {
                if i < items.len() - 1 {
                    assert(T::rank(items[i], items[items.len() - 1]) != Rank::Greater);
                }
                rank_laws::<T>(items[i], items.last(), item);
            }
        }
        assert forall|i: int| 0 <= i < out.len() implies items.contains(#[trigger] out[i]) || out[i]
            == item by {
            if i < items.len() {
                assert(items[i] == out[i]);
            }
        }
    } else {
        let shorter = items.drop_last();
        assert forall|i: int, j: int| 0 <= i < j < shorter.len() implies #[trigger] T::rank(
            shorter[i],
            shorter[j],
        ) != Rank::Greater by {
            assert(T::rank(items[i], items[j]) != Rank::Greater);
        }
        placed_is_in_order::<T>(shorter, item);
        let inner = placed::<T>(shorter, item);
        assert forall|i: int, j: int| 0 <= i < j < out.len() implies #[trigger] T::rank(
            out[i],
            out[j],
        ) != Rank::Greater by {
            if j < inner.len() {
                assert(T::rank(inner[i], inner[j]) != Rank::Greater);
            } else if inner[i] == item {
                T::rank_flips(items.last(), item);
            } else {
                assert(shorter.contains(inner[i]));
                let k = choose|k: int| 0 <= k < shorter.len() && shorter[k] == inner[i];
                assert(T::rank(items[k], items[items.len() - 1]) != Rank::Greater);
            }
        }
        assert forall|i: int| 0 <= i < out.len() implies items.contains(#[trigger] out[i]) || out[i]
            == item by {
            if i < inner.len() {
                if shorter.contains(inner[i]) {
                    let k = choose|k: int| 0 <= k < shorter.len() && shorter[k] == inner[i];
                    assert(items[k] == out[i]);
                }
            } else {
                assert(items[items.len() - 1] == out[i]);
            }
        }
        assert(items =~= shorter.push(items.last()));
        assert(out.to_multiset() =~= items.to_multiset().insert(item));
    }
}

/// Sorting puts the items in order and neither loses nor adds one.
pub proof fn law_sorted<T: Ranked>(items: Seq<T::V>)
    ensures
        in_order::<T>(sorted::<T>(items)),
        sorted::<T>(items).to_multiset() == items.to_multiset(),
        sorted::<T>(items).len() == items.len(),
    decreases items.len(),
{
    broadcast use group_to_multiset_ensures;

    if items.len() > 0 {
        law_sorted::<T>(items.drop_last());
        placed_is_in_order::<T>(sorted::<T>(items.drop_last()), items.last());
        assert(items =~= items.drop_last().push(items.last()));
        sorted::<T>(items).to_multiset_ensures();
        items.to_multiset_ensures();
    }
}

/// The items that have the rank of `item`.
pub open spec fn peers<T: Ranked>(items: Seq<T::V>, item: T::V) -> Seq<T::V> {
    items.filter(|x: T::V| T::rank(x, item) == Rank::Equal)
}

proof fn peers_of_push<T: Ranked>(items: Seq<T::V>, item: T::V, of: T::V)
    ensures
        peers::<T>(items.push(item), of) == (if T::rank(item, of) == Rank::Equal {
            peers::<T>(items, of).push(item)
        } else {
            peers::<T>(items, of)
        }),
{
    reveal(Seq::filter);
    assert(items.push(item).drop_last() =~= items);
}

proof fn placed_keeps_peers<T: Ranked>(items: Seq<T::V>, item: T::V, of: T::V)
    requires
        in_order::<T>(items),
    ensures
        peers::<T>(placed::<T>(items, item), of) == peers::<T>(items.push(item), of),
    decreases items.len(),
{
    let out = placed::<T>(items, item);
    if items.len() == 0 || T::rank(items.last(), item) != Rank::Greater {
    } else {
        let shorter = items.drop_last();
        assert forall|i: int, j: int| 0 <= i < j < shorter.len() implies #[trigger] T::rank(
            shorter[i],
            shorter[j],
        ) != Rank::Greater by {
            assert(T::rank(items[i], items[j]) != Rank::Greater);
        }
        placed_keeps_peers::<T>(shorter, item, of);
        assert(items =~= shorter.push(items.last()));
        peers_of_push::<T>(placed::<T>(shorter, item), items.last(), of);
        peers_of_push::<T>(shorter, item, of);
        peers_of_push::<T>(shorter, items.last(), of);
        peers_of_push::<T>(items, item, of);
        rank_laws::<T>(items.last(), item, of);
    }
}

/// Sorting keeps the items of one rank in the order in which they came.
pub proof fn law_sorted_is_stable<T: Ranked>(items: Seq<T::V>, of: T::V)
    ensures
        peers::<T>(sorted::<T>(items), of) == peers::<T>(items, of),
    decreases items.len(),
{
    if items.len() > 0 {
        let shorter = items.drop_last();
        let before = sorted::<T>(shorter);
        law_sorted_is_stable::<T>(shorter, of);
        law_sorted::<T>(shorter);
        placed_keeps_peers::<T>(before, items.last(), of);
        peers_of_push::<T>(before, items.last(), of);
        peers_of_push::<T>(shorter, items.last(), of);
        assert(items =~= shorter.push(items.last()));
    }
}

/// Sorts by rank, stably.
pub fn sort<T: Ranked>(items: &Vec<T>) -> (r: Vec<T>)
    ensures
        r.deep_view() == sorted::<T>(items.deep_view()),
{
    let mut out: Vec<T> = Vec::new();
    let mut i: usize = 0;
    assert(out.deep_view() =~= sorted::<T>(items.deep_view().take(0)));
    while i < items.len()
        invariant
            i <= items.len(),
            out.deep_view() == sorted::<T>(items.deep_view().take(i as int)),
        decreases items.len() - i,
    {
        let item = items[i].dup();
        let ghost x = item.deep_view();
        let ghost before = out.deep_view();
        let mut p: usize = out.len();
        while p > 0 && !matches!(out[p - 1].against(&item), Rank::Less | Rank::Equal)
            invariant
                p <= out.len(),
                before == out.deep_view(),
                x == item.deep_view(),
                forall|k: int|
                    p <= k < before.len() ==> #[trigger] T::rank(before[k], x) == Rank::Greater,
            decreases p,
        {
            p = p - 1;
        }
        proof {
            placed_at::<T>(before, x, p as int);
        }
        out.insert(p, item);
        assert(out.deep_view() =~= before.insert(p as int, x));
        assert(items.deep_view().take(i + 1).drop_last() =~= items.deep_view().take(i as int));
        i = i + 1;
    }
    assert(items.deep_view().take(i as int) =~= items.deep_view());
    out
}

} // verus!
