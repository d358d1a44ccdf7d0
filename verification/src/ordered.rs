//! Maps and sets that keep their entries in the order of their keys.
use vstd::prelude::*;
use crate::model::Model;
use crate::order::{Linear, Rank, Ranked, rank_laws};

verus! {

/// Whether each key stands strictly before all later ones.
pub open spec fn increasing<K: Ranked>(keys: Seq<K::V>) -> bool {
    forall|i: int, j: int|
        0 <= i < j < keys.len() ==> #[trigger] K::rank(keys[i], keys[j]) == Rank::Less
}

/// The first place at which a key does not stand before `key`.
pub open spec fn slot<K: Ranked>(keys: Seq<K::V>, key: K::V) -> int
    decreases keys.len(),
{
    if keys.len() == 0 || K::rank(keys.last(), key) == Rank::Less {
        keys.len() as int
    } else {
        slot::<K>(keys.drop_last(), key)
    }
}

/// In an increasing sequence the slot parts the smaller keys from the others.
proof fn slot_parts<K: Ranked>(keys: Seq<K::V>, key: K::V)
    requires
        increasing::<K>(keys),
    ensures
        0 <= slot::<K>(keys, key) <= keys.len(),
        forall|i: int| 0 <= i < slot::<K>(keys, key) ==> #[trigger] K::rank(keys[i], key) == Rank::Less,
        forall|i: int|
            slot::<K>(keys, key) <= i < keys.len() ==> #[trigger] K::rank(keys[i], key) != Rank::Less,
    decreases keys.len(),
{
    if keys.len() > 0 {
        if K::rank(keys.last(), key) == Rank::Less {
            assert forall|i: int| 0 <= i < keys.len() implies #[trigger] K::rank(keys[i], key)
                == Rank::Less by {
                if i < keys.len() - 1 {
                    rank_laws::<K>(keys[i], keys.last(), key);
                }
            }
        } else {
            let shorter = keys.drop_last();
            assert forall|i: int, j: int| 0 <= i < j < shorter.len() implies #[trigger] K::rank(
                shorter[i],
                shorter[j],
            ) == Rank::Less by {
                assert(K::rank(keys[i], keys[j]) == Rank::Less);
            }
            slot_parts::<K>(shorter, key);
            let p = slot::<K>(keys, key);
            assert forall|i: int| 0 <= i < p implies #[trigger] K::rank(keys[i], key)
                == Rank::Less by {
                assert(K::rank(shorter[i], key) == Rank::Less);
            }
            assert forall|i: int| p <= i < keys.len() implies #[trigger] K::rank(keys[i], key)
                != Rank::Less by {
                if i < shorter.len() {
                    assert(K::rank(shorter[i], key) != Rank::Less);
                }
            }
        }
    }
}

/// In an increasing sequence the slot of a key is a place in it or its end.
pub proof fn slot_bounds<K: Ranked>(keys: Seq<K::V>, key: K::V)
    requires
        increasing::<K>(keys),
    ensures
        0 <= slot::<K>(keys, key) <= keys.len(),
{
    slot_parts::<K>(keys, key);
}

/// Whether `key` is one of `keys`, which its slot tells.
pub open spec fn hits<K: Ranked>(keys: Seq<K::V>, key: K::V) -> bool {
    let p = slot::<K>(keys, key);
    p < keys.len() && keys[p] == key
}

proof fn hits_exactly<K: Linear>(keys: Seq<K::V>, key: K::V)
    requires
        increasing::<K>(keys),
    ensures
        hits::<K>(keys, key) == keys.contains(key),
        hits::<K>(keys, key) ==> K::rank(keys[slot::<K>(keys, key)], key) == Rank::Equal,
        !hits::<K>(keys, key) && slot::<K>(keys, key) < keys.len() ==> K::rank(
            keys[slot::<K>(keys, key)],
            key,
        ) == Rank::Greater,
{
    slot_parts::<K>(keys, key);
    let p = slot::<K>(keys, key);
    K::rank_reflexive(key);
    if p < keys.len() && K::rank(keys[p], key) == Rank::Equal {
        K::rank_separates(keys[p], key);
    }
    if keys.contains(key) {
        let i = choose|i: int| 0 <= i < keys.len() && keys[i] == key;
        assert(K::rank(keys[i], key) == Rank::Equal);
        if p < i {
            assert(K::rank(keys[p], keys[i]) == Rank::Less);
        }
    }
}

/// In an increasing sequence a key is hit exactly where it is one of the keys.
pub proof fn hits_is_contains<K: Linear>(keys: Seq<K::V>, key: K::V)
    requires
        increasing::<K>(keys),
    ensures
        hits::<K>(keys, key) == keys.contains(key),
{
    hits_exactly::<K>(keys, key);
}

proof fn placed_increases<K: Linear>(keys: Seq<K::V>, key: K::V)
    requires
        increasing::<K>(keys),
        !keys.contains(key),
    ensures
        increasing::<K>(keys.insert(slot::<K>(keys, key), key)),
{
    slot_parts::<K>(keys, key);
    hits_exactly::<K>(keys, key);
    let p = slot::<K>(keys, key);
    let next = keys.insert(p, key);
    assert forall|i: int, j: int| 0 <= i < j < next.len() implies #[trigger] K::rank(
        next[i],
        next[j],
    ) == Rank::Less by {
        let x = if i < p { i } else { i - 1 };
        let y = if j < p { j } else { j - 1 };
        if i != p && j != p {
            assert(K::rank(keys[x], keys[y]) == Rank::Less);
        } else if j == p {
            assert(K::rank(keys[i], key) == Rank::Less);
        } else {
            assert(K::rank(keys[y], key) != Rank::Less);
            assert(keys[y] != key);
            if K::rank(keys[y], key) == Rank::Equal {
                K::rank_separates(keys[y], key);
            }
            K::rank_flips(keys[y], key);
        }
    }
}

proof fn removed_increases<K: Ranked>(keys: Seq<K::V>, p: int)
    requires
        increasing::<K>(keys),
        0 <= p < keys.len(),
    ensures
        increasing::<K>(keys.remove(p)),
{
    let next = keys.remove(p);
    assert forall|i: int, j: int| 0 <= i < j < next.len() implies #[trigger] K::rank(
        next[i],
        next[j],
    ) == Rank::Less by {
        let x = if i < p { i } else { i + 1 };
        let y = if j < p { j } else { j + 1 };
        assert(K::rank(keys[x], keys[y]) == Rank::Less);
    }
}

/// An increasing sequence holds no key twice.
pub proof fn increasing_is_distinct<K: Ranked>(keys: Seq<K::V>)
    requires
        increasing::<K>(keys),
    ensures
        keys.no_duplicates(),
{
    assert forall|i: int, j: int| 0 <= i < keys.len() && 0 <= j < keys.len() && i != j implies keys[i]
        != keys[j] by {
        K::rank_reflexive(keys[i]);
        if i < j {
            assert(K::rank(keys[i], keys[j]) == Rank::Less);
        } else {
            assert(K::rank(keys[j], keys[i]) == Rank::Less);
        }
    }
}

/// An increasing sequence is determined by the keys that it holds.
pub proof fn increasing_is_canonical<K: Linear>(a: Seq<K::V>, b: Seq<K::V>)
    requires
        increasing::<K>(a),
        increasing::<K>(b),
        a.to_set() == b.to_set(),
    ensures
        a == b,
    decreases a.len(),
{
    if a.len() == 0 {
        if b.len() > 0 {
            assert(b.to_set().contains(b[0]));
            assert(a.to_set().contains(b[0]));
        }
        assert(a =~= b);
    } else {
        assert(a.to_set().contains(a.last()));
        assert(b.to_set().contains(a.last()));
        let i = choose|i: int| 0 <= i < b.len() && b[i] == a.last();
        assert(b.to_set().contains(b.last()));
        assert(a.to_set().contains(b.last()));
        let j = choose|j: int| 0 <= j < a.len() && a[j] == b.last();
        if i < b.len() - 1 {
            assert(K::rank(b[i], b[b.len() - 1]) == Rank::Less);
            rank_laws::<K>(a.last(), b.last(), a.last());
            if j < a.len() - 1 {
                assert(K::rank(a[j], a[a.len() - 1]) == Rank::Less);
            }
        }
        assert(a.last() == b.last());
        let x = a.drop_last();
        let y = b.drop_last();
        increasing_is_distinct::<K>(a);
        increasing_is_distinct::<K>(b);
        assert forall|k: K::V| x.to_set().contains(k) <==> y.to_set().contains(k) by {
            if x.contains(k) {
                let n = choose|n: int| 0 <= n < x.len() && x[n] == k;
                assert(a[n] == k);
                assert(a.to_set().contains(k));
                assert(b.to_set().contains(k));
                let m = choose|m: int| 0 <= m < b.len() && b[m] == k;
                assert(y[m] == k);
            }
            if y.contains(k) {
                let n = choose|n: int| 0 <= n < y.len() && y[n] == k;
                assert(b[n] == k);
                assert(b.to_set().contains(k));
                assert(a.to_set().contains(k));
                let m = choose|m: int| 0 <= m < a.len() && a[m] == k;
                assert(x[m] == k);
            }
        }
        assert(x.to_set() =~= y.to_set());
        assert forall|p: int, q: int| 0 <= p < q < x.len() implies #[trigger] K::rank(x[p], x[q])
            == Rank::Less by {
            assert(K::rank(a[p], a[q]) == Rank::Less);
        }
        assert forall|p: int, q: int| 0 <= p < q < y.len() implies #[trigger] K::rank(y[p], y[q])
            == Rank::Less by {
            assert(K::rank(b[p], b[q]) == Rank::Less);
        }
        increasing_is_canonical::<K>(x, y);
        assert(a =~= x.push(a.last()));
        assert(b =~= y.push(b.last()));
    }
}

/// The keys of a sequence of entries.
pub open spec fn keys<A, B>(entries: Seq<(A, B)>) -> Seq<A> {
    Seq::new(entries.len(), |i: int| entries[i].0)
}

/// The values of a sequence of entries.
pub open spec fn values<A, B>(entries: Seq<(A, B)>) -> Seq<B> {
    Seq::new(entries.len(), |i: int| entries[i].1)
}

/// The map that a sequence of entries stands for.
pub open spec fn table<A, B>(entries: Seq<(A, B)>) -> Map<A, B> {
    Map::new(
        |k: A| keys(entries).contains(k),
        |k: A| entries[choose|i: int| 0 <= i < entries.len() && keys(entries)[i] == k].1,
    )
}

/// The entries with `value` stored under `key`.
pub open spec fn put<K: Ranked, W>(
    entries: Seq<(K::V, W)>,
    key: K::V,
    value: W,
) -> Seq<(K::V, W)> {
    let p = slot::<K>(keys(entries), key);
    if hits::<K>(keys(entries), key) {
        entries.update(p, (key, value))
    } else {
        entries.insert(p, (key, value))
    }
}

/// The entries with nothing stored under `key`.
pub open spec fn drop_key<K: Ranked, W>(entries: Seq<(K::V, W)>, key: K::V) -> Seq<(K::V, W)> {
    if hits::<K>(keys(entries), key) {
        entries.remove(slot::<K>(keys(entries), key))
    } else {
        entries
    }
}

/// An entry of an increasing sequence is what its table holds under its key.
pub proof fn table_of_entry<K: Ranked, W>(entries: Seq<(K::V, W)>, i: int)
    requires
        increasing::<K>(keys(entries)),
        0 <= i < entries.len(),
    ensures
        table(entries).contains_key(entries[i].0),
        table(entries)[entries[i].0] == entries[i].1,
{
    let k = entries[i].0;
    assert(keys(entries)[i] == k);
    let c = choose|c: int| 0 <= c < entries.len() && keys(entries)[c] == k;
    increasing_is_distinct::<K>(keys(entries));
    assert(c == i);
}

/// Storing a value changes the table at its key alone and keeps the order.
pub proof fn law_put<K: Linear, W>(entries: Seq<(K::V, W)>, key: K::V, value: W)
    requires
        increasing::<K>(keys(entries)),
    ensures
        increasing::<K>(keys(put::<K, W>(entries, key, value))),
        table(put::<K, W>(entries, key, value)) == table(entries).insert(key, value),
{
    let ks = keys(entries);
    let p = slot::<K>(ks, key);
    let next = put::<K, W>(entries, key, value);
    slot_parts::<K>(ks, key);
    hits_exactly::<K>(ks, key);
    if hits::<K>(ks, key) {
        assert(keys(next) =~= ks);
    } else {
        placed_increases::<K>(ks, key);
        assert(keys(next) =~= ks.insert(p, key));
    }
    assert forall|k: K::V| table(next).contains_key(k) <==> table(entries).insert(
        key,
        value,
    ).contains_key(k) by {
        if ks.contains(k) {
            let i = choose|i: int| 0 <= i < ks.len() && ks[i] == k;
            let j = if hits::<K>(ks, key) || i < p { i } else { i + 1 };
            assert(keys(next)[j] == k);
        }
        if k == key {
            assert(keys(next)[p] == key);
        }
        if keys(next).contains(k) && k != key {
            let j = choose|j: int| 0 <= j < next.len() && keys(next)[j] == k;
            let i = if hits::<K>(ks, key) || j < p { j } else { j - 1 };
            assert(ks[i] == k);
        }
    }
    assert forall|k: K::V| table(next).contains_key(k) implies table(next)[k] == table(
        entries,
    ).insert(key, value)[k] by {
        let j = choose|j: int| 0 <= j < next.len() && keys(next)[j] == k;
        table_of_entry::<K, W>(next, j);
        if k != key {
            let i = if hits::<K>(ks, key) || j < p { j } else { j - 1 };
            table_of_entry::<K, W>(entries, i);
        }
    }
    assert(table(next) =~= table(entries).insert(key, value));
}

/// Dropping a key changes the table at that key alone and keeps the order.
pub proof fn law_drop_key<K: Linear, W>(entries: Seq<(K::V, W)>, key: K::V)
    requires
        increasing::<K>(keys(entries)),
    ensures
        increasing::<K>(keys(drop_key::<K, W>(entries, key))),
        table(drop_key::<K, W>(entries, key)) == table(entries).remove(key),
{
    let ks = keys(entries);
    let p = slot::<K>(ks, key);
    let next = drop_key::<K, W>(entries, key);
    slot_parts::<K>(ks, key);
    hits_exactly::<K>(ks, key);
    increasing_is_distinct::<K>(ks);
    if hits::<K>(ks, key) {
        removed_increases::<K>(ks, p);
        assert(keys(next) =~= ks.remove(p));
    }
    assert forall|k: K::V| table(next).contains_key(k) <==> table(entries).remove(key).contains_key(
        k,
    ) by {
        if ks.contains(k) && k != key {
            let i = choose|i: int| 0 <= i < ks.len() && ks[i] == k;
            let j = if !hits::<K>(ks, key) || i < p { i } else { i - 1 };
            assert(keys(next)[j] == k);
        }
        if keys(next).contains(k) {
            let j = choose|j: int| 0 <= j < next.len() && keys(next)[j] == k;
            let i = if !hits::<K>(ks, key) || j < p { j } else { j + 1 };
            assert(ks[i] == k);
        }
    }
    assert forall|k: K::V| table(next).contains_key(k) implies table(next)[k] == table(
        entries,
    ).remove(key)[k] by {
        let j = choose|j: int| 0 <= j < next.len() && keys(next)[j] == k;
        table_of_entry::<K, W>(next, j);
        let i = if !hits::<K>(ks, key) || j < p { j } else { j + 1 };
        table_of_entry::<K, W>(entries, i);
    }
    assert(table(next) =~= table(entries).remove(key));
}

/// The entries that come of storing pairs one after the other.
pub open spec fn stored<K: Ranked, W>(pairs: Seq<(K::V, W)>) -> Seq<(K::V, W)>
    decreases pairs.len(),
{
    if pairs.len() == 0 {
        pairs
    } else {
        put::<K, W>(stored::<K, W>(pairs.drop_last()), pairs.last().0, pairs.last().1)
    }
}

/// Whether no later pair has the key of the pair at a place.
pub open spec fn last_of_key<A, B>(pairs: Seq<(A, B)>, i: int) -> bool {
    forall|j: int| i < j < pairs.len() ==> (#[trigger] pairs[j]).0 != pairs[i].0
}

/// Storing pairs one after the other keeps their keys, and keeps them in order.
pub proof fn law_stored_keys<K: Linear, W>(pairs: Seq<(K::V, W)>)
    ensures
        increasing::<K>(keys(stored::<K, W>(pairs))),
        table(stored::<K, W>(pairs)).dom() == keys(pairs).to_set(),
    decreases pairs.len(),
{
    let all = table(stored::<K, W>(pairs)).dom();
    if pairs.len() == 0 {
        assert(all =~= keys(pairs).to_set());
    } else {
        let shorter = pairs.drop_last();
        law_stored_keys::<K, W>(shorter);
        law_put::<K, W>(stored::<K, W>(shorter), pairs.last().0, pairs.last().1);
        assert(keys(pairs) =~= keys(shorter).push(pairs.last().0));
        assert forall|k: K::V| keys(pairs).contains(k) <==> keys(shorter).contains(k) || k
            == pairs.last().0 by {
            if keys(shorter).contains(k) {
                let i = choose|i: int| 0 <= i < keys(shorter).len() && keys(shorter)[i] == k;
                assert(keys(pairs)[i] == k);
            }
            if k == pairs.last().0 {
                assert(keys(pairs)[pairs.len() - 1] == k);
            }
            if keys(pairs).contains(k) && k != pairs.last().0 {
                let i = choose|i: int| 0 <= i < keys(pairs).len() && keys(pairs)[i] == k;
                assert(keys(shorter)[i] == k);
            }
        }
        assert(all =~= keys(pairs).to_set());
    }
}

/// Storing pairs one after the other keeps, for each key, the value that came last.
pub proof fn law_stored<K: Linear, W>(pairs: Seq<(K::V, W)>, i: int)
    requires
        0 <= i < pairs.len(),
        last_of_key(pairs, i),
    ensures
        table(stored::<K, W>(pairs)).contains_key(pairs[i].0),
        table(stored::<K, W>(pairs))[pairs[i].0] == pairs[i].1,
    decreases pairs.len(),
{
    let shorter = pairs.drop_last();
    law_stored_keys::<K, W>(shorter);
    law_put::<K, W>(stored::<K, W>(shorter), pairs.last().0, pairs.last().1);
    if i < shorter.len() {
        assert(pairs[pairs.len() - 1].0 != pairs[i].0);
        assert forall|j: int| i < j < shorter.len() implies (#[trigger] shorter[j]).0
            != shorter[i].0 by {
            assert(pairs[j].0 != pairs[i].0);
        }
        law_stored::<K, W>(shorter, i);
    }
}

/// What is stored of pairs is some of the pairs.
pub proof fn stored_is_of_pairs<K: Linear, W>(pairs: Seq<(K::V, W)>, i: int)
    requires
        0 <= i < stored::<K, W>(pairs).len(),
    ensures
        pairs.contains(stored::<K, W>(pairs)[i]),
    decreases pairs.len(),
{
    if pairs.len() > 0 {
        let shorter = pairs.drop_last();
        let before = stored::<K, W>(shorter);
        let key = pairs.last().0;
        law_stored_keys::<K, W>(shorter);
        slot_bounds::<K>(keys(before), key);
        let p = slot::<K>(keys(before), key);
        if i == p {
            assert(pairs[pairs.len() - 1] == stored::<K, W>(pairs)[i]);
        } else {
            let j = if hits::<K>(keys(before), key) || i < p { i } else { i - 1 };
            stored_is_of_pairs::<K, W>(shorter, j);
            let k = choose|k: int| 0 <= k < shorter.len() && shorter[k] == before[j];
            assert(pairs[k] == stored::<K, W>(pairs)[i]);
        }
    }
}

/// Of each key of pairs a value is stored, which is that of a pair with the key.
pub proof fn stored_has_key<K: Linear, W>(pairs: Seq<(K::V, W)>, key: K::V)
    requires
        keys(pairs).contains(key),
    ensures
        exists|value: W|
            #[trigger] values(stored::<K, W>(pairs)).contains(value) && pairs.contains((key, value)),
{
    let all = stored::<K, W>(pairs);
    law_stored_keys::<K, W>(pairs);
    assert(keys(pairs).to_set().contains(key));
    assert(table(all).contains_key(key));
    let i = choose|i: int| 0 <= i < all.len() && keys(all)[i] == key;
    stored_is_of_pairs::<K, W>(pairs, i);
    assert(values(all)[i] == all[i].1);
    assert(all[i] == (key, all[i].1));
    assert(values(all).contains(all[i].1));
}

/// A map that keeps its entries in the order of their keys.
#[derive(Debug, PartialEq, Eq)]
pub struct OrderedMap<K: Linear, T: Model> {
    entries: Vec<(K, T)>,
}

impl<K: Linear, T: Model> DeepView for OrderedMap<K, T> {
    type V = Seq<(K::V, T::V)>;

    closed spec fn deep_view(&self) -> Seq<(K::V, T::V)> {
        self.entries.deep_view()
    }
}

impl<K: Linear, T: Model> OrderedMap<K, T> {
    /// Whether the keys are in order.
    #[verifier::type_invariant]
    pub open spec fn is_increasing(self) -> bool {
        increasing::<K>(keys(self.deep_view()))
    }

    /// The map with no entry.
    pub fn new() -> (r: Self)
        ensures
            r.deep_view() == Seq::<(K::V, T::V)>::empty(),
    {
        let entries: Vec<(K, T)> = Vec::new();
        assert(entries.deep_view() =~= Seq::<(K::V, T::V)>::empty());
        OrderedMap { entries }
    }

    /// The entries in the order of their keys.
    pub fn entries(&self) -> (r: &Vec<(K, T)>)
        ensures
            r.deep_view() == self.deep_view(),
            increasing::<K>(keys(self.deep_view())),
    {
        proof {
            use_type_invariant(self);
        }
        &self.entries
    }

    /// The number of entries.
    pub fn len(&self) -> (r: usize)
        ensures
            r == self.deep_view().len(),
    {
        self.entries.len()
    }

    fn find(&self, key: &K) -> (r: (usize, bool))
        ensures
            r.0 == slot::<K>(keys(self.deep_view()), key.deep_view()),
            r.1 == hits::<K>(keys(self.deep_view()), key.deep_view()),
            r.0 <= self.deep_view().len(),
            r.1 == keys(self.deep_view()).contains(key.deep_view()),
    {
        proof {
            use_type_invariant(self);
            slot_parts::<K>(keys(self.deep_view()), key.deep_view());
            hits_exactly::<K>(keys(self.deep_view()), key.deep_view());
        }
        let ghost ks = keys(self.deep_view());
        let ghost k = key.deep_view();
        let mut i: usize = 0;
        while i < self.entries.len()
            invariant
                i <= self.entries.len(),
                i <= slot::<K>(ks, k) <= ks.len(),
                ks == keys(self.deep_view()),
                k == key.deep_view(),
                ks.len() == self.entries.len(),
                forall|j: int| 0 <= j < slot::<K>(ks, k) ==> #[trigger] K::rank(ks[j], k) == Rank::Less,
                forall|j: int|
                    slot::<K>(ks, k) <= j < ks.len() ==> #[trigger] K::rank(ks[j], k) != Rank::Less,
                hits::<K>(ks, k) == ks.contains(k),
                hits::<K>(ks, k) ==> K::rank(ks[slot::<K>(ks, k)], k) == Rank::Equal,
                !hits::<K>(ks, k) && slot::<K>(ks, k) < ks.len() ==> K::rank(
                    ks[slot::<K>(ks, k)],
                    k,
                ) == Rank::Greater,
            decreases self.entries.len() - i,
        {
            let outcome = self.entries[i].0.against(key);
            assert(ks[i as int] == self.entries[i as int].0.deep_view());
            match outcome {
                Rank::Less => {
                    i = i + 1;
                },
                Rank::Equal => {
                    return (i, true);
                },
                Rank::Greater => {
                    return (i, false);
                },
            }
        }
        (i, false)
    }

    /// The value stored under a key.
    pub fn get(&self, key: &K) -> (r: Option<&T>)
        ensures
            table(self.deep_view()).contains_key(key.deep_view()) <==> r is Some,
            r matches Some(v) ==> v.deep_view() == table(self.deep_view())[key.deep_view()],
    {
        let (i, found) = self.find(key);
        if found {
            proof {
                use_type_invariant(self);
                table_of_entry::<K, T::V>(self.deep_view(), i as int);
            }
            Some(&self.entries[i].1)
        } else {
            None
        }
    }

    /// Whether something is stored under a key.
    pub fn contains_key(&self, key: &K) -> (r: bool)
        ensures
            r == table(self.deep_view()).contains_key(key.deep_view()),
            r == keys(self.deep_view()).contains(key.deep_view()),
    {
        let (_, found) = self.find(key);
        found
    }

    /// Stores a value under a key, in place of what was there.
    pub fn insert(&mut self, key: K, value: T)
        ensures
            final(self).deep_view() == put::<K, T::V>(
                old(self).deep_view(),
                key.deep_view(),
                value.deep_view(),
            ),
            table(final(self).deep_view()) == table(old(self).deep_view()).insert(
                key.deep_view(),
                value.deep_view(),
            ),
            increasing::<K>(keys(final(self).deep_view())),
    {
        proof {
            use_type_invariant(&*self);
            law_put::<K, T::V>(self.deep_view(), key.deep_view(), value.deep_view());
        }
        let (i, found) = self.find(&key);
        let ghost before = self.entries.deep_view();
        let ghost k = key.deep_view();
        let ghost v = value.deep_view();
        let mut entries: Vec<(K, T)> = Vec::new();
        assert(keys(entries.deep_view()) =~= Seq::<K::V>::empty());
        std::mem::swap(&mut entries, &mut self.entries);
        assert(entries.deep_view() == before);
        if found {
            entries.set(i, (key, value));
            assert(entries.deep_view() =~= before.update(i as int, (k, v)));
        } else {
            entries.insert(i, (key, value));
            assert(entries.deep_view() =~= before.insert(i as int, (k, v)));
        }
        self.entries = entries;
    }

    /// Drops what is stored under a key.
    pub fn remove(&mut self, key: &K) -> (r: Option<T>)
        ensures
            final(self).deep_view() == drop_key::<K, T::V>(old(self).deep_view(), key.deep_view()),
            table(final(self).deep_view()) == table(old(self).deep_view()).remove(key.deep_view()),
            increasing::<K>(keys(final(self).deep_view())),
            table(old(self).deep_view()).contains_key(key.deep_view()) <==> r is Some,
            r matches Some(v) ==> v.deep_view() == table(old(self).deep_view())[key.deep_view()],
    {
        proof {
            use_type_invariant(&*self);
            law_drop_key::<K, T::V>(self.deep_view(), key.deep_view());
        }
        let (i, found) = self.find(key);
        if !found {
            return None;
        }
        proof {
            table_of_entry::<K, T::V>(self.deep_view(), i as int);
        }
        let ghost before = self.entries.deep_view();
        let mut entries: Vec<(K, T)> = Vec::new();
        assert(keys(entries.deep_view()) =~= Seq::<K::V>::empty());
        std::mem::swap(&mut entries, &mut self.entries);
        assert(entries.deep_view() == before);
        let (_, value) = entries.remove(i);
        assert(entries.deep_view() =~= before.remove(i as int));
        self.entries = entries;
        Some(value)
    }
}

/// Entries with other values under the same keys.
pub open spec fn revalued<A, B>(entries: Seq<(A, B)>, give: spec_fn(B) -> B) -> Seq<(A, B)> {
    Seq::new(entries.len(), |i: int| (entries[i].0, give(entries[i].1)))
}

impl<K: Linear, T: Model> OrderedMap<K, T> {
    /// Other values under the same keys.
    pub fn revalue<F: Fn(&T) -> T>(&self, make: F, Ghost(give): Ghost<spec_fn(T::V) -> T::V>) -> (r:
        Self)
        requires
            forall|x: &T| call_requires(make, (x,)),
            forall|x: &T, y: T| call_ensures(make, (x,), y) ==> y.deep_view() == give(x.deep_view()),
        ensures
            r.deep_view() == revalued(self.deep_view(), give),
            increasing::<K>(keys(r.deep_view())),
    {
        proof {
            use_type_invariant(self);
        }
        let ghost all = revalued(self.deep_view(), give);
        let mut entries: Vec<(K, T)> = Vec::new();
        let mut i: usize = 0;
        while i < self.entries.len()
            invariant
                i <= self.entries.len(),
                forall|x: &T| call_requires(make, (x,)),
                forall|x: &T, y: T|
                    call_ensures(make, (x,), y) ==> y.deep_view() == give(x.deep_view()),
                all == revalued(self.deep_view(), give),
                self.deep_view() == self.entries.deep_view(),
                entries.deep_view() == all.take(i as int),
            decreases self.entries.len() - i,
        {
            let key = self.entries[i].0.dup();
            let value = make(&self.entries[i].1);
            let ghost before = entries.deep_view();
            entries.push((key, value));
            assert(self.entries.deep_view()[i as int] == self.entries[i as int].deep_view());
            assert(entries.deep_view() =~= before.push((key.deep_view(), value.deep_view())));
            i = i + 1;
            assert(entries.deep_view() =~= all.take(i as int));
        }
        assert(all.take(i as int) =~= all);
        assert(keys(all) =~= keys(self.deep_view()));
        OrderedMap { entries }
    }
}

impl<K: Linear, T: Model> Model for OrderedMap<K, T> {
    fn dup(&self) -> (r: Self) {
        proof {
            use_type_invariant(self);
        }
        let entries = self.entries.dup();
        OrderedMap { entries }
    }

    fn same(&self, other: &Self) -> (r: bool) {
        self.entries.same(&other.entries)
    }
}

/// The items with `item` among them.
pub open spec fn with_item<T: Ranked>(items: Seq<T::V>, item: T::V) -> Seq<T::V> {
    if hits::<T>(items, item) {
        items
    } else {
        items.insert(slot::<T>(items, item), item)
    }
}

/// The items without `item`.
pub open spec fn without_item<T: Ranked>(items: Seq<T::V>, item: T::V) -> Seq<T::V> {
    if hits::<T>(items, item) {
        items.remove(slot::<T>(items, item))
    } else {
        items
    }
}

/// Adding an item adds it to the set of items and keeps the order.
pub proof fn law_with_item<T: Linear>(items: Seq<T::V>, item: T::V)
    requires
        increasing::<T>(items),
    ensures
        increasing::<T>(with_item::<T>(items, item)),
        with_item::<T>(items, item).to_set() == items.to_set().insert(item),
{
    slot_parts::<T>(items, item);
    hits_exactly::<T>(items, item);
    let p = slot::<T>(items, item);
    let next = with_item::<T>(items, item);
    if !hits::<T>(items, item) {
        placed_increases::<T>(items, item);
    }
    assert forall|x: T::V| next.to_set().contains(x) <==> items.to_set().insert(item).contains(x) by {
        if items.contains(x) {
            let i = choose|i: int| 0 <= i < items.len() && items[i] == x;
            let j = if hits::<T>(items, item) || i < p { i } else { i + 1 };
            assert(next[j] == x);
        }
        if x == item {
            assert(next[p] == x);
        }
        if next.contains(x) && x != item {
            let j = choose|j: int| 0 <= j < next.len() && next[j] == x;
            let i = if hits::<T>(items, item) || j < p { j } else { j - 1 };
            assert(items[i] == x);
        }
    }
    assert(next.to_set() =~= items.to_set().insert(item));
}

/// Taking an item out takes it from the set of items and keeps the order.
pub proof fn law_without_item<T: Linear>(items: Seq<T::V>, item: T::V)
    requires
        increasing::<T>(items),
    ensures
        increasing::<T>(without_item::<T>(items, item)),
        without_item::<T>(items, item).to_set() == items.to_set().remove(item),
{
    slot_parts::<T>(items, item);
    hits_exactly::<T>(items, item);
    increasing_is_distinct::<T>(items);
    let p = slot::<T>(items, item);
    let next = without_item::<T>(items, item);
    if hits::<T>(items, item) {
        removed_increases::<T>(items, p);
    }
    assert forall|x: T::V| next.to_set().contains(x) <==> items.to_set().remove(item).contains(x) by {
        if items.contains(x) && x != item {
            let i = choose|i: int| 0 <= i < items.len() && items[i] == x;
            let j = if !hits::<T>(items, item) || i < p { i } else { i - 1 };
            assert(next[j] == x);
        }
        if next.contains(x) {
            let j = choose|j: int| 0 <= j < next.len() && next[j] == x;
            let i = if !hits::<T>(items, item) || j < p { j } else { j + 1 };
            assert(items[i] == x);
        }
    }
    assert(next.to_set() =~= items.to_set().remove(item));
}

/// A set that keeps its items in their order.
#[derive(Debug, PartialEq, Eq)]
pub struct OrderedSet<T: Linear> {
    items: Vec<T>,
}

impl<T: Linear> DeepView for OrderedSet<T> {
    type V = Seq<T::V>;

    closed spec fn deep_view(&self) -> Seq<T::V> {
        self.items.deep_view()
    }
}

impl<T: Linear> OrderedSet<T> {
    #[verifier::type_invariant]
    spec fn is_increasing(self) -> bool {
        increasing::<T>(self.items.deep_view())
    }

    /// The set with no item.
    pub fn new() -> (r: Self)
        ensures
            r.deep_view() == Seq::<T::V>::empty(),
    {
        let items: Vec<T> = Vec::new();
        assert(items.deep_view() =~= Seq::<T::V>::empty());
        OrderedSet { items }
    }

    /// The items in their order.
    pub fn items(&self) -> (r: &Vec<T>)
        ensures
            r.deep_view() == self.deep_view(),
            increasing::<T>(self.deep_view()),
    {
        proof {
            use_type_invariant(self);
        }
        &self.items
    }

    /// The number of items.
    pub fn len(&self) -> (r: usize)
        ensures
            r == self.deep_view().len(),
    {
        self.items.len()
    }

    fn find(&self, item: &T) -> (r: (usize, bool))
        ensures
            r.0 == slot::<T>(self.deep_view(), item.deep_view()),
            r.1 == hits::<T>(self.deep_view(), item.deep_view()),
            r.0 <= self.deep_view().len(),
            r.1 == self.deep_view().contains(item.deep_view()),
    {
        proof {
            use_type_invariant(self);
            slot_parts::<T>(self.deep_view(), item.deep_view());
            hits_exactly::<T>(self.deep_view(), item.deep_view());
        }
        let ghost ks = self.deep_view();
        let ghost k = item.deep_view();
        let mut i: usize = 0;
        while i < self.items.len()
            invariant
                i <= self.items.len(),
                i <= slot::<T>(ks, k) <= ks.len(),
                ks == self.deep_view(),
                k == item.deep_view(),
                ks.len() == self.items.len(),
                forall|j: int| 0 <= j < slot::<T>(ks, k) ==> #[trigger] T::rank(ks[j], k) == Rank::Less,
                forall|j: int|
                    slot::<T>(ks, k) <= j < ks.len() ==> #[trigger] T::rank(ks[j], k) != Rank::Less,
                hits::<T>(ks, k) == ks.contains(k),
                hits::<T>(ks, k) ==> T::rank(ks[slot::<T>(ks, k)], k) == Rank::Equal,
                !hits::<T>(ks, k) && slot::<T>(ks, k) < ks.len() ==> T::rank(
                    ks[slot::<T>(ks, k)],
                    k,
                ) == Rank::Greater,
            decreases self.items.len() - i,
        {
            let outcome = self.items[i].against(item);
            assert(ks[i as int] == self.items[i as int].deep_view());
            match outcome {
                Rank::Less => {
                    i = i + 1;
                },
                Rank::Equal => {
                    return (i, true);
                },
                Rank::Greater => {
                    return (i, false);
                },
            }
        }
        (i, false)
    }

    /// Whether an item is in the set.
    pub fn contains(&self, item: &T) -> (r: bool)
        ensures
            r == self.deep_view().contains(item.deep_view()),
            r == self.deep_view().to_set().contains(item.deep_view()),
    {
        let (_, found) = self.find(item);
        found
    }

    /// Adds an item.
    pub fn insert(&mut self, item: T)
        ensures
            final(self).deep_view() == with_item::<T>(old(self).deep_view(), item.deep_view()),
            final(self).deep_view().to_set() == old(self).deep_view().to_set().insert(
                item.deep_view(),
            ),
            increasing::<T>(final(self).deep_view()),
    {
        proof {
            use_type_invariant(&*self);
            law_with_item::<T>(self.deep_view(), item.deep_view());
        }
        let (i, found) = self.find(&item);
        if !found {
            let ghost before = self.items.deep_view();
            let ghost x = item.deep_view();
            let mut items: Vec<T> = Vec::new();
            assert(items.deep_view() =~= Seq::<T::V>::empty());
            std::mem::swap(&mut items, &mut self.items);
            assert(items.deep_view() == before);
            items.insert(i, item);
            assert(items.deep_view() =~= before.insert(i as int, x));
            self.items = items;
        }
    }

    /// Takes an item out.
    pub fn remove(&mut self, item: &T)
        ensures
            final(self).deep_view() == without_item::<T>(old(self).deep_view(), item.deep_view()),
            final(self).deep_view().to_set() == old(self).deep_view().to_set().remove(
                item.deep_view(),
            ),
            increasing::<T>(final(self).deep_view()),
    {
        proof {
            use_type_invariant(&*self);
            law_without_item::<T>(self.deep_view(), item.deep_view());
        }
        let (i, found) = self.find(item);
        if found {
            let ghost before = self.items.deep_view();
            let mut items: Vec<T> = Vec::new();
            assert(items.deep_view() =~= Seq::<T::V>::empty());
            std::mem::swap(&mut items, &mut self.items);
            assert(items.deep_view() == before);
            let _ = items.remove(i);
            assert(items.deep_view() =~= before.remove(i as int));
            self.items = items;
        }
    }
}

impl<T: Linear> Model for OrderedSet<T> {
    fn dup(&self) -> (r: Self) {
        proof {
            use_type_invariant(self);
        }
        let items = self.items.dup();
        OrderedSet { items }
    }

    fn same(&self, other: &Self) -> (r: bool) {
        self.items.same(&other.items)
    }
}

/// The entries with `value` stored under `key`, unless something is stored there already.
pub open spec fn put_new<K: Ranked, W>(
    entries: Seq<(K::V, W)>,
    key: K::V,
    value: W,
) -> Seq<(K::V, W)> {
    if hits::<K>(keys(entries), key) {
        entries
    } else {
        put::<K, W>(entries, key, value)
    }
}

/// The entries with pairs stored one after the other.
pub open spec fn put_each<K: Ranked, W>(
    entries: Seq<(K::V, W)>,
    pairs: Seq<(K::V, W)>,
) -> Seq<(K::V, W)>
    decreases pairs.len(),
{
    if pairs.len() == 0 {
        entries
    } else {
        put::<K, W>(
            put_each::<K, W>(entries, pairs.drop_last()),
            pairs.last().0,
            pairs.last().1,
        )
    }
}

/// Storing the entries of one map in another gives the union, in which the stored ones win.
pub proof fn law_put_each<K: Linear, W>(entries: Seq<(K::V, W)>, pairs: Seq<(K::V, W)>)
    requires
        increasing::<K>(keys(entries)),
        increasing::<K>(keys(pairs)),
    ensures
        increasing::<K>(keys(put_each::<K, W>(entries, pairs))),
        table(put_each::<K, W>(entries, pairs)) == table(entries).union_prefer_right(table(pairs)),
    decreases pairs.len(),
{
    let both = table(entries).union_prefer_right(table(pairs));
    if pairs.len() == 0 {
        assert(both =~= table(entries));
    } else {
        let shorter = pairs.drop_last();
        let (key, value) = pairs.last();
        assert(keys(shorter) =~= keys(pairs).drop_last());
        assert(increasing::<K>(keys(shorter)));
        law_put_each::<K, W>(entries, shorter);
        law_put::<K, W>(put_each::<K, W>(entries, shorter), key, value);
        increasing_is_distinct::<K>(keys(pairs));
        table_of_entry::<K, W>(pairs, pairs.len() - 1);
        assert forall|k: K::V| table(pairs).contains_key(k) <==> table(shorter).contains_key(k) || k
            == key by {
            if table(pairs).contains_key(k) && k != key {
                let i = choose|i: int| 0 <= i < pairs.len() && keys(pairs)[i] == k;
                assert(keys(shorter)[i] == k);
            }
            if table(shorter).contains_key(k) {
                let i = choose|i: int| 0 <= i < shorter.len() && keys(shorter)[i] == k;
                assert(keys(pairs)[i] == k);
            }
        }
        assert forall|k: K::V| table(shorter).contains_key(k) implies table(pairs)[k] == table(
            shorter,
        )[k] by {
            let i = choose|i: int| 0 <= i < shorter.len() && keys(shorter)[i] == k;
            table_of_entry::<K, W>(shorter, i);
            table_of_entry::<K, W>(pairs, i);
        }
        assert(table(put_each::<K, W>(entries, pairs)) =~= both);
    }
}

impl<K: Linear, T: Model> OrderedMap<K, T> {
    /// The values in the order of their keys.
    pub fn values(&self) -> (r: Vec<&T>)
        ensures
            r.deep_view() == values(self.deep_view()),
    {
        let ghost all = values(self.deep_view());
        let mut out: Vec<&T> = Vec::new();
        let mut i: usize = 0;
        while i < self.entries.len()
            invariant
                i <= self.entries.len(),
                self.entries.deep_view() == self.deep_view(),
                all == values(self.deep_view()),
                out.deep_view() == all.take(i as int),
            decreases self.entries.len() - i,
        {
            let ghost before = out.deep_view();
            out.push(&self.entries[i].1);
            assert(self.entries.deep_view()[i as int] == self.entries[i as int].deep_view());
            assert(out.deep_view() =~= before.push(all[i as int]));
            i = i + 1;
            assert(out.deep_view() =~= all.take(i as int));
        }
        assert(all.take(i as int) =~= all);
        out
    }

    /// Stores a value under a key, unless something is stored there already.
    pub fn insert_new(&mut self, key: K, value: T)
        ensures
            final(self).deep_view() == put_new::<K, T::V>(
                old(self).deep_view(),
                key.deep_view(),
                value.deep_view(),
            ),
    {
        proof {
            use_type_invariant(&*self);
            hits_is_contains::<K>(keys(self.deep_view()), key.deep_view());
        }
        if !self.contains_key(&key) {
            self.insert(key, value);
        }
    }

    /// Stores the entries of another map.
    pub fn append(&mut self, others: &Self)
        ensures
            final(self).deep_view() == put_each::<K, T::V>(
                old(self).deep_view(),
                others.deep_view(),
            ),
    {
        self.insert_each(&others.entries);
    }

    /// Stores pairs one after the other.
    pub fn insert_each(&mut self, pairs: &Vec<(K, T)>)
        ensures
            final(self).deep_view() == put_each::<K, T::V>(
                old(self).deep_view(),
                pairs.deep_view(),
            ),
    {
        let ghost before = self.deep_view();
        let ghost all = pairs.deep_view();
        let mut i: usize = 0;
        assert(all.take(0) =~= Seq::<(K::V, T::V)>::empty());
        while i < pairs.len()
            invariant
                i <= pairs.len(),
                pairs.deep_view() == all,
                self.deep_view() == put_each::<K, T::V>(before, all.take(i as int)),
            decreases pairs.len() - i,
        {
            self.insert(pairs[i].0.dup(), pairs[i].1.dup());
            assert(all[i as int] == pairs[i as int].deep_view());
            assert(all.take(i + 1).drop_last() =~= all.take(i as int));
            i = i + 1;
        }
        assert(all.take(i as int) =~= all);
    }

    /// The map that storing pairs one after the other gives.
    pub fn gather(pairs: &Vec<(K, T)>) -> (r: Self)
        ensures
            r.deep_view() == stored::<K, T::V>(pairs.deep_view()),
            increasing::<K>(keys(r.deep_view())),
    {
        let mut out: OrderedMap<K, T> = OrderedMap::new();
        out.insert_each(pairs);
        proof {
            use_type_invariant(&out);
            stored_is_put_each::<K, T::V>(pairs.deep_view());
        }
        out
    }
}

proof fn stored_is_put_each<K: Ranked, W>(pairs: Seq<(K::V, W)>)
    ensures
        stored::<K, W>(pairs) == put_each::<K, W>(Seq::empty(), pairs),
    decreases pairs.len(),
{
    if pairs.len() > 0 {
        stored_is_put_each::<K, W>(pairs.drop_last());
    } else {
        assert(pairs =~= Seq::empty());
    }
}

/// The items of a list, each once, in their order.
pub open spec fn set_of<T: Ranked>(items: Seq<T::V>) -> Seq<T::V>
    decreases items.len(),
{
    if items.len() == 0 {
        items
    } else {
        with_item::<T>(set_of::<T>(items.drop_last()), items.last())
    }
}

/// The set of a list has the items of the list, in increasing order.
pub proof fn law_set_of<T: Linear>(items: Seq<T::V>)
    ensures
        increasing::<T>(set_of::<T>(items)),
        set_of::<T>(items).to_set() == items.to_set(),
    decreases items.len(),
{
    let all = set_of::<T>(items);
    if items.len() > 0 {
        let shorter = items.drop_last();
        law_set_of::<T>(shorter);
        law_with_item::<T>(set_of::<T>(shorter), items.last());
        assert forall|x: T::V| items.to_set().contains(x) <==> shorter.to_set().contains(x) || x
            == items.last() by {
            if items.contains(x) && x != items.last() {
                let i = choose|i: int| 0 <= i < items.len() && items[i] == x;
                assert(shorter[i] == x);
            }
            if shorter.contains(x) {
                let i = choose|i: int| 0 <= i < shorter.len() && shorter[i] == x;
                assert(items[i] == x);
            }
        }
        assert(all.to_set() =~= items.to_set());
    }
}

impl<T: Linear> OrderedSet<T> {
    /// The set of the items of a list.
    pub fn gather(items: &Vec<T>) -> (r: Self)
        ensures
            r.deep_view() == set_of::<T>(items.deep_view()),
            r.deep_view().to_set() == items.deep_view().to_set(),
            increasing::<T>(r.deep_view()),
    {
        let mut out: OrderedSet<T> = OrderedSet::new();
        let ghost all = items.deep_view();
        let mut i: usize = 0;
        assert(out.deep_view() =~= set_of::<T>(all.take(0)));
        while i < items.len()
            invariant
                i <= items.len(),
                items.deep_view() == all,
                out.deep_view() == set_of::<T>(all.take(i as int)),
            decreases items.len() - i,
        {
            out.insert(items[i].dup());
            assert(all[i as int] == items[i as int].deep_view());
            assert(all.take(i + 1).drop_last() =~= all.take(i as int));
            i = i + 1;
        }
        assert(all.take(i as int) =~= all);
        proof {
            law_set_of::<T>(all);
        }
        out
    }

    /// Adds the items of a list.
    pub fn insert_each(&mut self, items: &Vec<T>)
        ensures
            final(self).deep_view().to_set() == old(self).deep_view().to_set().union(
                items.deep_view().to_set(),
            ),
            increasing::<T>(final(self).deep_view()),
    {
        proof {
            use_type_invariant(&*self);
        }
        let ghost before = self.deep_view().to_set();
        let ghost all = items.deep_view();
        let mut i: usize = 0;
        assert(self.deep_view().to_set() =~= before.union(all.take(0).to_set()));
        while i < items.len()
            invariant
                i <= items.len(),
                items.deep_view() == all,
                increasing::<T>(self.deep_view()),
                self.deep_view().to_set() == before.union(all.take(i as int).to_set()),
            decreases items.len() - i,
        {
            self.insert(items[i].dup());
            proof {
                let next = all.take(i + 1);
                let now = all.take(i as int);
                assert(all[i as int] == items[i as int].deep_view());
                assert forall|k: T::V| next.contains(k) <==> now.contains(k) || k == all[i as int] by {
                    if next.contains(k) && k != all[i as int] {
                        let j = choose|j: int| 0 <= j < next.len() && next[j] == k;
                        assert(now[j] == k);
                    }
                    if now.contains(k) {
                        let j = choose|j: int| 0 <= j < i && now[j] == k;
                        assert(next[j] == k);
                    }
                    if k == all[i as int] {
                        assert(next[i as int] == k);
                    }
                }
                assert(self.deep_view().to_set() =~= before.union(next.to_set()));
            }
            i = i + 1;
        }
        assert(all.take(i as int) =~= all);
    }
}

/// What is stored only where nothing was leaves everything else as it is, and what was there too.
pub proof fn law_put_new<K: Linear, W>(entries: Seq<(K::V, W)>, key: K::V, value: W)
    requires
        increasing::<K>(keys(entries)),
    ensures
        increasing::<K>(keys(put_new::<K, W>(entries, key, value))),
        table(entries).contains_key(key) ==> table(put_new::<K, W>(entries, key, value)) == table(
            entries,
        ),
        !table(entries).contains_key(key) ==> table(put_new::<K, W>(entries, key, value)) == table(
            entries,
        ).insert(key, value),
{
    hits_is_contains::<K>(keys(entries), key);
    law_put::<K, W>(entries, key, value);
}

} // verus!
