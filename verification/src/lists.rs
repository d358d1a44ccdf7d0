//! Lists made from lists: item by item, by leaving items out, and by joining what each item gives.
use vstd::prelude::*;
use crate::model::Model;

verus! {

/// What the items give, where they give something.
pub open spec fn chosen<A, B>(items: Seq<A>, give: spec_fn(A) -> Option<B>) -> Seq<B>
    decreases items.len(),
{
    if items.len() == 0 {
        Seq::empty()
    } else {
        match give(items.last()) {
            Some(value) => chosen(items.drop_last(), give).push(value),
            None => chosen(items.drop_last(), give),
        }
    }
}

/// What the items give, one list after the other.
pub open spec fn joined<A, B>(items: Seq<A>, give: spec_fn(A) -> Seq<B>) -> Seq<B>
    decreases items.len(),
{
    if items.len() == 0 {
        Seq::empty()
    } else {
        joined(items.drop_last(), give) + give(items.last())
    }
}

/// Two ways of choosing that agree on the items choose the same.
pub proof fn chosen_agree<A, B>(
    items: Seq<A>,
    give: spec_fn(A) -> Option<B>,
    other: spec_fn(A) -> Option<B>,
)
    requires
        forall|i: int| 0 <= i < items.len() ==> #[trigger] give(items[i]) == other(items[i]),
    ensures
        chosen(items, give) == chosen(items, other),
    decreases items.len(),
{
    if items.len() > 0 {
        let shorter = items.drop_last();
        assert forall|i: int| 0 <= i < shorter.len() implies #[trigger] give(shorter[i]) == other(
            shorter[i],
        ) by {
            assert(give(items[i]) == other(items[i]));
        }
        chosen_agree(shorter, give, other);
        assert(give(items[items.len() - 1]) == other(items[items.len() - 1]));
    }
}

/// Two ways of giving that agree on the items are joined to the same.
pub proof fn joined_agree<A, B>(
    items: Seq<A>,
    give: spec_fn(A) -> Seq<B>,
    other: spec_fn(A) -> Seq<B>,
)
    requires
        forall|i: int| 0 <= i < items.len() ==> #[trigger] give(items[i]) == other(items[i]),
    ensures
        joined(items, give) == joined(items, other),
    decreases items.len(),
{
    if items.len() > 0 {
        let shorter = items.drop_last();
        assert forall|i: int| 0 <= i < shorter.len() implies #[trigger] give(shorter[i]) == other(
            shorter[i],
        ) by {
            assert(give(items[i]) == other(items[i]));
        }
        joined_agree(shorter, give, other);
        assert(give(items[items.len() - 1]) == other(items[items.len() - 1]));
    }
}

/// What is chosen holds exactly what the items give.
pub proof fn chosen_contains<A, B>(items: Seq<A>, give: spec_fn(A) -> Option<B>, value: B)
    ensures
        chosen(items, give).contains(value) <==> exists|i: int|
            0 <= i < items.len() && #[trigger] give(items[i]) == Some(value),
    decreases items.len(),
{
    if items.len() > 0 {
        let shorter = items.drop_last();
        let before = chosen(shorter, give);
        let all = chosen(items, give);
        chosen_contains(shorter, give, value);
        if all.contains(value) {
            let k = choose|k: int| 0 <= k < all.len() && all[k] == value;
            if k < before.len() {
                assert(before[k] == value);
                let i = choose|i: int|
                    0 <= i < shorter.len() && #[trigger] give(shorter[i]) == Some(value);
                assert(give(items[i]) == Some(value));
            } else {
                assert(give(items[items.len() - 1]) == Some(value));
            }
        }
        if exists|i: int| 0 <= i < items.len() && #[trigger] give(items[i]) == Some(value) {
            let i = choose|i: int| 0 <= i < items.len() && #[trigger] give(items[i]) == Some(value);
            if i < shorter.len() {
                assert(give(shorter[i]) == Some(value));
                let k = choose|k: int| 0 <= k < before.len() && before[k] == value;
                assert(all[k] == value);
            } else {
                assert(all[all.len() - 1] == value);
            }
        }
    }
}

/// What is joined holds exactly what the items give.
pub proof fn joined_contains<A, B>(items: Seq<A>, give: spec_fn(A) -> Seq<B>, value: B)
    ensures
        joined(items, give).contains(value) <==> exists|i: int|
            0 <= i < items.len() && #[trigger] give(items[i]).contains(value),
    decreases items.len(),
{
    if items.len() > 0 {
        let shorter = items.drop_last();
        let before = joined(shorter, give);
        let all = joined(items, give);
        joined_contains(shorter, give, value);
        if all.contains(value) {
            let k = choose|k: int| 0 <= k < all.len() && all[k] == value;
            if k < before.len() {
                assert(before[k] == value);
                let i = choose|i: int|
                    0 <= i < shorter.len() && #[trigger] give(shorter[i]).contains(value);
                assert(give(items[i]).contains(value));
            } else {
                assert(give(items.last())[k - before.len()] == value);
                assert(give(items[items.len() - 1]).contains(value));
            }
        }
        if exists|i: int| 0 <= i < items.len() && #[trigger] give(items[i]).contains(value) {
            let i = choose|i: int|
                0 <= i < items.len() && #[trigger] give(items[i]).contains(value);
            if i < shorter.len() {
                assert(give(shorter[i]).contains(value));
                let k = choose|k: int| 0 <= k < before.len() && before[k] == value;
                assert(all[k] == value);
            } else {
                let last = give(items.last());
                let k = choose|k: int| 0 <= k < last.len() && last[k] == value;
                assert(all[before.len() + k] == value);
            }
        }
    }
}

/// Makes a list item by item.
pub fn map_list<T: DeepView, U: DeepView, F: Fn(&T) -> U>(
    items: &Vec<T>,
    make: F,
    Ghost(give): Ghost<spec_fn(T::V) -> U::V>,
) -> (r: Vec<U>)
    requires
        forall|x: &T|
            items.deep_view().contains(x.deep_view()) ==> #[trigger] call_requires(make, (x,)),
        forall|x: &T, y: U| call_ensures(make, (x,), y) ==> y.deep_view() == give(x.deep_view()),
    ensures
        r.deep_view() == items.deep_view().map_values(give),
{
    let mut out: Vec<U> = Vec::new();
    let mut i: usize = 0;
    assert(out.deep_view() =~= items.deep_view().take(0).map_values(give));
    while i < items.len()
        invariant
            i <= items.len(),
            forall|x: &T|
            items.deep_view().contains(x.deep_view()) ==> #[trigger] call_requires(make, (x,)),
            forall|x: &T, y: U|
                call_ensures(make, (x,), y) ==> y.deep_view() == give(x.deep_view()),
            out.deep_view() == items.deep_view().take(i as int).map_values(give),
        decreases items.len() - i,
    {
        assert(items.deep_view()[i as int] == items[i as int].deep_view());
        let value = make(&items[i]);
        let ghost before = out.deep_view();
        out.push(value);
        assert(out.deep_view() =~= before.push(value.deep_view()));
        assert(out.deep_view() =~= items.deep_view().take(i + 1).map_values(give));
        i = i + 1;
    }
    assert(items.deep_view().take(i as int) =~= items.deep_view());
    out
}

/// Makes a list item by item, each with its place.
pub fn map_places<T: DeepView, U: DeepView, F: Fn(usize, &T) -> U>(
    items: &Vec<T>,
    make: F,
    Ghost(give): Ghost<spec_fn(int, T::V) -> U::V>,
) -> (r: Vec<U>)
    requires
        forall|n: usize, x: &T| call_requires(make, (n, x)),
        forall|n: usize, x: &T, y: U|
            call_ensures(make, (n, x), y) ==> y.deep_view() == give(n as int, x.deep_view()),
    ensures
        r.deep_view() == items.deep_view().map(give),
{
    let mut out: Vec<U> = Vec::new();
    let mut i: usize = 0;
    assert(out.deep_view() =~= items.deep_view().take(0).map(give));
    while i < items.len()
        invariant
            i <= items.len(),
            forall|n: usize, x: &T| call_requires(make, (n, x)),
            forall|n: usize, x: &T, y: U|
                call_ensures(make, (n, x), y) ==> y.deep_view() == give(n as int, x.deep_view()),
            out.deep_view() == items.deep_view().take(i as int).map(give),
        decreases items.len() - i,
    {
        let value = make(i, &items[i]);
        let ghost before = out.deep_view();
        out.push(value);
        assert(out.deep_view() =~= before.push(value.deep_view()));
        assert(out.deep_view() =~= items.deep_view().take(i + 1).map(give));
        i = i + 1;
    }
    assert(items.deep_view().take(i as int) =~= items.deep_view());
    out
}

/// Makes a list of what the items give, where they give something.
pub fn choose_list<T: DeepView, U: DeepView, F: Fn(&T) -> Option<U>>(
    items: &Vec<T>,
    make: F,
    Ghost(give): Ghost<spec_fn(T::V) -> Option<U::V>>,
) -> (r: Vec<U>)
    requires
        forall|x: &T|
            items.deep_view().contains(x.deep_view()) ==> #[trigger] call_requires(make, (x,)),
        forall|x: &T, y: Option<U>|
            call_ensures(make, (x,), y) ==> y.deep_view() == give(x.deep_view()),
    ensures
        r.deep_view() == chosen(items.deep_view(), give),
{
    let mut out: Vec<U> = Vec::new();
    let mut i: usize = 0;
    assert(out.deep_view() =~= chosen(items.deep_view().take(0), give));
    while i < items.len()
        invariant
            i <= items.len(),
            forall|x: &T|
            items.deep_view().contains(x.deep_view()) ==> #[trigger] call_requires(make, (x,)),
            forall|x: &T, y: Option<U>|
                call_ensures(make, (x,), y) ==> y.deep_view() == give(x.deep_view()),
            out.deep_view() == chosen(items.deep_view().take(i as int), give),
        decreases items.len() - i,
    {
        assert(items.deep_view().take(i + 1).drop_last() =~= items.deep_view().take(i as int));
        assert(items.deep_view()[i as int] == items[i as int].deep_view());
        match make(&items[i]) {
            Some(value) => {
                let ghost before = out.deep_view();
                out.push(value);
                assert(out.deep_view() =~= before.push(value.deep_view()));
            },
            None => {},
        }
        i = i + 1;
    }
    assert(items.deep_view().take(i as int) =~= items.deep_view());
    out
}

/// Makes a list of what the items give, one list after the other.
pub fn join_list<T: DeepView, U: DeepView, F: Fn(&T) -> Vec<U>>(
    items: &Vec<T>,
    make: F,
    Ghost(give): Ghost<spec_fn(T::V) -> Seq<U::V>>,
) -> (r: Vec<U>)
    requires
        forall|x: &T|
            items.deep_view().contains(x.deep_view()) ==> #[trigger] call_requires(make, (x,)),
        forall|x: &T, y: Vec<U>|
            call_ensures(make, (x,), y) ==> y.deep_view() == give(x.deep_view()),
    ensures
        r.deep_view() == joined(items.deep_view(), give),
{
    let mut out: Vec<U> = Vec::new();
    let mut i: usize = 0;
    assert(out.deep_view() =~= joined(items.deep_view().take(0), give));
    while i < items.len()
        invariant
            i <= items.len(),
            forall|x: &T|
            items.deep_view().contains(x.deep_view()) ==> #[trigger] call_requires(make, (x,)),
            forall|x: &T, y: Vec<U>|
                call_ensures(make, (x,), y) ==> y.deep_view() == give(x.deep_view()),
            out.deep_view() == joined(items.deep_view().take(i as int), give),
        decreases items.len() - i,
    {
        assert(items.deep_view().take(i + 1).drop_last() =~= items.deep_view().take(i as int));
        assert(items.deep_view()[i as int] == items[i as int].deep_view());
        let mut more = make(&items[i]);
        let ghost before = out.deep_view();
        let ghost added = more.deep_view();
        out.append(&mut more);
        assert(out.deep_view() =~= before + added);
        i = i + 1;
    }
    assert(items.deep_view().take(i as int) =~= items.deep_view());
    out
}

/// One list after the other.
pub fn append_list<T: DeepView>(first: Vec<T>, second: Vec<T>) -> (r: Vec<T>)
    ensures
        r.deep_view() == first.deep_view() + second.deep_view(),
{
    let mut all = first;
    let mut rest = second;
    let ghost a = all.deep_view();
    let ghost b = rest.deep_view();
    all.append(&mut rest);
    assert(all.deep_view() =~= a + b);
    all
}

/// Whether all items meet a condition.
pub open spec fn each<A>(items: Seq<A>, holds: spec_fn(A) -> bool) -> bool {
    forall|i: int| 0 <= i < items.len() ==> holds(#[trigger] items[i])
}

/// Whether all items of a list meet a condition.
pub fn all_list<T: DeepView, F: Fn(&T) -> bool>(
    items: &Vec<T>,
    check: F,
    Ghost(holds): Ghost<spec_fn(T::V) -> bool>,
) -> (r: bool)
    requires
        forall|x: &T| call_requires(check, (x,)),
        forall|x: &T, y: bool| call_ensures(check, (x,), y) ==> y == holds(x.deep_view()),
    ensures
        r == each(items.deep_view(), holds),
{
    let mut i: usize = 0;
    while i < items.len()
        invariant
            i <= items.len(),
            forall|x: &T| call_requires(check, (x,)),
            forall|x: &T, y: bool| call_ensures(check, (x,), y) ==> y == holds(x.deep_view()),
            forall|j: int| 0 <= j < i ==> holds(#[trigger] items.deep_view()[j]),
        decreases items.len() - i,
    {
        assert(items.deep_view()[i as int] == items[i as int].deep_view());
        if !check(&items[i]) {
            return false;
        }
        i = i + 1;
    }
    true
}

/// The items without those that are the same as the one kept before them.
pub open spec fn deduped<A>(items: Seq<A>, same: spec_fn(A, A) -> bool) -> Seq<A>
    decreases items.len(),
{
    if items.len() == 0 {
        items
    } else {
        let before = deduped(items.drop_last(), same);
        if before.len() > 0 && same(before.last(), items.last()) {
            before
        } else {
            before.push(items.last())
        }
    }
}

/// No item of a list without repetitions is the same as the one before it.
pub proof fn law_deduped<A>(items: Seq<A>, same: spec_fn(A, A) -> bool, i: int)
    requires
        0 <= i < deduped(items, same).len() - 1,
    ensures
        !same(deduped(items, same)[i], deduped(items, same)[i + 1]),
    decreases items.len(),
{
    if items.len() > 0 {
        let before = deduped(items.drop_last(), same);
        if i + 1 < before.len() {
            law_deduped(items.drop_last(), same, i);
        }
    }
}

/// Each item of a list is kept without repetitions, or is the same as one that is.
pub proof fn law_deduped_covers<A>(items: Seq<A>, same: spec_fn(A, A) -> bool, i: int)
    requires
        0 <= i < items.len(),
    ensures
        exists|j: int|
            0 <= j < deduped(items, same).len() && (#[trigger] deduped(items, same)[j] == items[i]
                || same(deduped(items, same)[j], items[i])),
    decreases items.len(),
{
    let shorter = items.drop_last();
    let before = deduped(shorter, same);
    let all = deduped(items, same);
    if i < shorter.len() {
        law_deduped_covers(shorter, same, i);
        let j = choose|j: int|
            0 <= j < before.len() && (#[trigger] before[j] == shorter[i] || same(
                before[j],
                shorter[i],
            ));
        assert(all[j] == before[j]);
    } else if before.len() > 0 && same(before.last(), items.last()) {
        assert(all[before.len() - 1] == before.last());
    } else {
        assert(all[before.len() as int] == items[i]);
    }
}

/// Keeps the items that are not the same as the one kept before them.
pub fn dedup_list<T: Model, F: Fn(&T, &T) -> bool>(
    items: &Vec<T>,
    check: F,
    Ghost(same): Ghost<spec_fn(T::V, T::V) -> bool>,
) -> (r: Vec<T>)
    requires
        forall|x: &T, y: &T| call_requires(check, (x, y)),
        forall|x: &T, y: &T, b: bool|
            call_ensures(check, (x, y), b) ==> b == same(x.deep_view(), y.deep_view()),
    ensures
        r.deep_view() == deduped(items.deep_view(), same),
{
    let ghost all = items.deep_view();
    let mut out: Vec<T> = Vec::new();
    let mut i: usize = 0;
    assert(out.deep_view() =~= deduped(all.take(0), same));
    while i < items.len()
        invariant
            i <= items.len(),
            items.deep_view() == all,
            forall|x: &T, y: &T| call_requires(check, (x, y)),
            forall|x: &T, y: &T, b: bool|
                call_ensures(check, (x, y), b) ==> b == same(x.deep_view(), y.deep_view()),
            out.deep_view() == deduped(all.take(i as int), same),
        decreases items.len() - i,
    {
        assert(all[i as int] == items[i as int].deep_view());
        assert(all.take(i + 1).drop_last() =~= all.take(i as int));
        let ghost before = out.deep_view();
        let n: usize = out.len();
        let skip = if n > 0 {
            assert(before.last() == out[n - 1].deep_view());
            check(&out[n - 1], &items[i])
        } else {
            false
        };
        if !skip {
            out.push(items[i].dup());
            assert(out.deep_view() =~= before.push(all[i as int]));
        }
        i = i + 1;
    }
    assert(all.take(i as int) =~= all);
    out
}

/// The list of one item.
pub fn one_item<T: DeepView>(item: T) -> (r: Vec<T>)
    ensures
        r.deep_view() == seq![item.deep_view()],
{
    let mut out: Vec<T> = Vec::new();
    out.push(item);
    assert(out.deep_view() =~= seq![item.deep_view()]);
    out
}

/// The list of no items.
pub fn no_items<T: DeepView>() -> (r: Vec<T>)
    ensures
        r.deep_view() == Seq::<T::V>::empty(),
{
    let out: Vec<T> = Vec::new();
    assert(out.deep_view() =~= Seq::<T::V>::empty());
    out
}

/// What two lists give one after the other is what the one gives and then what the other gives.
pub proof fn law_chosen_of_both<A, B>(first: Seq<A>, second: Seq<A>, give: spec_fn(A) -> Option<B>)
    ensures
        chosen(first + second, give) == chosen(first, give) + chosen(second, give),
    decreases second.len(),
{
    if second.len() == 0 {
        assert(first + second =~= first);
        assert(chosen(first, give) + chosen(second, give) =~= chosen(first, give));
    } else {
        law_chosen_of_both(first, second.drop_last(), give);
        assert((first + second).drop_last() =~= first + second.drop_last());
        assert((first + second).last() == second.last());
        assert(chosen(first + second, give) =~= chosen(first, give) + chosen(second, give));
    }
}

/// An item alone gives what it gives, or nothing.
pub proof fn law_chosen_of_one<A, B>(item: A, give: spec_fn(A) -> Option<B>)
    ensures
        give(item) is None ==> chosen(seq![item], give).len() == 0,
        give(item) is Some ==> chosen(seq![item], give) == seq![give(item)->0],
{
    let one = seq![item];
    assert(one.drop_last() =~= Seq::<A>::empty());
    assert(one.last() == item);
    assert(chosen(one.drop_last(), give) =~= Seq::<B>::empty());
}

/// What is chosen stands in the order of the items that gave it.
pub proof fn law_chosen_in_order<A, B>(items: Seq<A>, give: spec_fn(A) -> Option<B>, i: int, j: int)
    requires
        0 <= i < j < items.len(),
        give(items[i]) is Some,
        give(items[j]) is Some,
    ensures
        exists|p: int, q: int|
            0 <= p < q < chosen(items, give).len() && #[trigger] chosen(items, give)[p] == give(
                items[i],
            )->0 && #[trigger] chosen(items, give)[q] == give(items[j])->0,
{
    let first = items.take(j);
    let second = items.skip(j);
    assert(items =~= first + second);
    law_chosen_of_both(first, second, give);
    chosen_contains(first, give, give(items[i])->0);
    chosen_contains(second, give, give(items[j])->0);
    assert(give(first[i]) == Some(give(items[i])->0));
    assert(give(second[0]) == Some(give(items[j])->0));
    let a = chosen(first, give);
    let b = chosen(second, give);
    let p = choose|p: int| 0 <= p < a.len() && a[p] == give(items[i])->0;
    let q = choose|q: int| 0 <= q < b.len() && b[q] == give(items[j])->0;
    assert((a + b)[p] == a[p]);
    assert((a + b)[a.len() + q] == b[q]);
    assert(chosen(items, give)[p] == give(items[i])->0);
    assert(chosen(items, give)[a.len() + q] == give(items[j])->0);
}

/// Where all items give something, there is one value for each, in its place.
pub proof fn law_chosen_of_all<A, B>(items: Seq<A>, give: spec_fn(A) -> Option<B>)
    requires
        forall|i: int| 0 <= i < items.len() ==> #[trigger] give(items[i]) is Some,
    ensures
        chosen(items, give).len() == items.len(),
        forall|i: int|
            0 <= i < items.len() ==> #[trigger] chosen(items, give)[i] == give(items[i])->0,
    decreases items.len(),
{
    if items.len() > 0 {
        let shorter = items.drop_last();
        assert forall|i: int| 0 <= i < shorter.len() implies #[trigger] give(shorter[i]) is Some by {
            assert(give(items[i]) is Some);
        }
        law_chosen_of_all(shorter, give);
        assert(give(items[items.len() - 1]) is Some);
        assert forall|i: int| 0 <= i < items.len() implies #[trigger] chosen(items, give)[i] == give(
            items[i],
        )->0 by {
            if i < shorter.len() {
                assert(chosen(shorter, give)[i] == give(shorter[i])->0);
            }
        }
    }
}

/// What two lists are joined to one after the other is what the one is joined to and then the other.
pub proof fn law_joined_of_both<A, B>(first: Seq<A>, second: Seq<A>, give: spec_fn(A) -> Seq<B>)
    ensures
        joined(first + second, give) == joined(first, give) + joined(second, give),
    decreases second.len(),
{
    if second.len() == 0 {
        assert(first + second =~= first);
        assert(joined(first, give) + joined(second, give) =~= joined(first, give));
    } else {
        law_joined_of_both(first, second.drop_last(), give);
        assert((first + second).drop_last() =~= first + second.drop_last());
        assert((first + second).last() == second.last());
        assert(joined(first + second, give) =~= joined(first, give) + joined(second, give));
    }
}

/// An item alone is joined to what it gives.
pub proof fn law_joined_of_one<A, B>(item: A, give: spec_fn(A) -> Seq<B>)
    ensures
        joined(seq![item], give) == give(item),
{
    let one = seq![item];
    assert(one.drop_last() =~= Seq::<A>::empty());
    assert(one.last() == item);
    assert(joined(one.drop_last(), give) =~= Seq::<B>::empty());
    assert(joined(one, give) =~= give(item));
}

/// Dropping repetitions keeps the first item, adds none, and keeps all where neighbours differ.
pub proof fn law_deduped_keeps<A>(items: Seq<A>, same: spec_fn(A, A) -> bool)
    ensures
        items.len() > 0 ==> deduped(items, same).len() > 0 && deduped(items, same)[0] == items[0],
        forall|j: int|
            0 <= j < deduped(items, same).len() ==> items.contains(
                #[trigger] deduped(items, same)[j],
            ),
        (forall|i: int, j: int|
            0 <= i < j < items.len() && j == i + 1 ==> !#[trigger] same(items[i], items[j]))
            ==> deduped(items, same) == items,
    decreases items.len(),
{
    if items.len() > 0 {
        let shorter = items.drop_last();
        let before = deduped(shorter, same);
        law_deduped_keeps(shorter, same);
        assert forall|j: int| 0 <= j < deduped(items, same).len() implies items.contains(
            #[trigger] deduped(items, same)[j],
        ) by {
            if j < before.len() {
                assert(shorter.contains(before[j]));
                let k = choose|k: int| 0 <= k < shorter.len() && shorter[k] == before[j];
                assert(items[k] == before[j]);
            } else {
                assert(items[items.len() - 1] == items.last());
            }
        }
        if forall|i: int, j: int|
            0 <= i < j < items.len() && j == i + 1 ==> !#[trigger] same(items[i], items[j]) {
            assert forall|i: int, j: int| 0 <= i < j < shorter.len() && j == i + 1 implies !#[trigger] same(
                shorter[i],
                shorter[j],
            ) by {
                assert(!same(items[i], items[j]));
            }
            assert(before == shorter);
            if shorter.len() > 0 {
                assert(!same(items[items.len() - 2], items[items.len() - 1]));
                assert(before.last() == items[items.len() - 2]);
            }
            assert(deduped(items, same) =~= items);
        }
    }
}

} // verus!
