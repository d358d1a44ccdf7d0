//! Which objects the routes of gateways refer to, and which of them were found.
use vstd::prelude::*;
use crate::common::kube::{ObjectMeta, ObjectMetaView};
use crate::common::resource_key::{ResourceKey, ResourceKeyView};
use crate::model::Model;
use crate::ordered::{
    OrderedMap,
    OrderedSet,
    drop_key,
    hits,
    hits_is_contains,
    increasing,
    increasing_is_distinct,
    keys,
    law_drop_key,
    law_put,
    put,
    revalued,
    slot,
    slot_bounds,
    table,
    table_of_entry,
};

verus! {

/// An object that was found: its metadata, and the rest of it as a text.
#[derive(Debug, PartialEq, Eq)]
pub struct ResolvedReference {
    pub metadata: ObjectMeta,
    pub content: String,
}

/// What a [`ResolvedReference`] holds.
#[verifier::ext_equal]
pub struct ResolvedReferenceView {
    pub metadata: ObjectMetaView,
    pub content: Seq<char>,
}

impl DeepView for ResolvedReference {
    type V = ResolvedReferenceView;

    open spec fn deep_view(&self) -> ResolvedReferenceView {
        ResolvedReferenceView {
            metadata: self.metadata.deep_view(),
            content: self.content.deep_view(),
        }
    }
}

impl Model for ResolvedReference {
    fn dup(&self) -> (r: Self) {
        ResolvedReference {
            metadata: self.metadata.dup(),
            content: self.content.dup(),
        }
    }

    fn same(&self, other: &Self) -> (r: bool) {
        self.metadata.same(&other.metadata)
            && self.content.same(&other.content)
    }
}

/// The objects that each route refers to.
pub type RouteToReferenceMapping = OrderedMap<ResourceKey, OrderedSet<ResourceKey>>;

/// The objects that each route of each gateway refers to.
pub type GatewayToRouteReferenceMapping = OrderedMap<ResourceKey, RouteToReferenceMapping>;

/// How many routes refer to an object.
pub open spec fn referring(
    routes: Seq<(ResourceKeyView, Seq<ResourceKeyView>)>,
    key: ResourceKeyView,
) -> nat
    decreases routes.len(),
{
    if routes.len() == 0 {
        0
    } else {
        referring(routes.drop_last(), key) + if routes.last().1.contains(key) {
            1nat
        } else {
            0nat
        }
    }
}

/// How many routes of all gateways refer to an object.
pub open spec fn referring_in_all(
    gateways: Seq<(ResourceKeyView, Seq<(ResourceKeyView, Seq<ResourceKeyView>)>)>,
    key: ResourceKeyView,
) -> nat
    decreases gateways.len(),
{
    if gateways.len() == 0 {
        0
    } else {
        referring_in_all(gateways.drop_last(), key) + referring(gateways.last().1, key)
    }
}

/// The number that is kept for an object.
pub open spec fn count_of(counts: Map<ResourceKeyView, usize>, key: ResourceKeyView) -> nat {
    if counts.contains_key(key) {
        counts[key] as nat
    } else {
        0
    }
}

fn take_one(counts: &mut OrderedMap<ResourceKey, usize>, key: &ResourceKey)
    requires
        table(old(counts).deep_view()).contains_key(key.deep_view()) ==> table(
            old(counts).deep_view(),
        )[key.deep_view()] > 0,
    ensures
        table(final(counts).deep_view()).dom() == table(old(counts).deep_view()).dom(),
        forall|k: ResourceKeyView|
            #[trigger] count_of(table(final(counts).deep_view()), k) == count_of(
                table(old(counts).deep_view()),
                k,
            ) - if k == key.deep_view() && table(old(counts).deep_view()).contains_key(k) {
                1nat
            } else {
                0nat
            },
{
    let lower: Option<usize> = match counts.get(key) {
        Some(count) => Some(*count - 1),
        None => None,
    };
    match lower {
        Some(count) => {
            counts.insert(key.dup(), count);
            assert(table(counts.deep_view()).dom() =~= table(old(counts).deep_view()).dom());
        },
        None => {},
    }
}

fn add_one(counts: &mut OrderedMap<ResourceKey, usize>, key: &ResourceKey)
    requires
        count_of(table(old(counts).deep_view()), key.deep_view()) < usize::MAX,
    ensures
        table(final(counts).deep_view()).dom() == table(old(counts).deep_view()).dom().insert(
            key.deep_view(),
        ),
        forall|k: ResourceKeyView|
            #[trigger] count_of(table(final(counts).deep_view()), k) == count_of(
                table(old(counts).deep_view()),
                k,
            ) + if k == key.deep_view() {
                1nat
            } else {
                0nat
            },
{
    let higher: usize = match counts.get(key) {
        Some(count) => *count + 1,
        None => 1,
    };
    counts.insert(key.dup(), higher);
    assert(table(counts.deep_view()).dom() =~= table(old(counts).deep_view()).dom().insert(
        key.deep_view(),
    ));
}

fn take_each(counts: &mut OrderedMap<ResourceKey, usize>, items: &OrderedSet<ResourceKey>)
    requires
        forall|k: ResourceKeyView|
            items.deep_view().contains(k) && table(old(counts).deep_view()).contains_key(k)
                ==> #[trigger] table(old(counts).deep_view())[k] > 0,
    ensures
        table(final(counts).deep_view()).dom() == table(old(counts).deep_view()).dom(),
        forall|k: ResourceKeyView|
            #[trigger] count_of(table(final(counts).deep_view()), k) == count_of(
                table(old(counts).deep_view()),
                k,
            ) - if items.deep_view().contains(k) && table(old(counts).deep_view()).contains_key(k) {
                1nat
            } else {
                0nat
            },
{
    let list = items.items();
    let ghost all = items.deep_view();
    let ghost before = table(counts.deep_view());
    let mut i: usize = 0;
    proof {
        increasing_is_distinct::<ResourceKey>(all);
    }
    while i < list.len()
        invariant
            i <= list.len(),
            list.deep_view() == all,
            all.no_duplicates(),
            table(counts.deep_view()).dom() == before.dom(),
            forall|k: ResourceKeyView|
                all.contains(k) && before.contains_key(k) ==> #[trigger] before[k] > 0,
            forall|k: ResourceKeyView|
                #[trigger] count_of(table(counts.deep_view()), k) == count_of(before, k)
                    - if all.take(i as int).contains(k) && before.contains_key(k) {
                    1nat
                } else {
                    0nat
                },
        decreases list.len() - i,
    {
        let ghost key = all[i as int];
        let ghost mid = table(counts.deep_view());
        assert(key == list[i as int].deep_view());
        proof {
            assert(!all.take(i as int).contains(key)) by {
                if all.take(i as int).contains(key) {
                    let j = choose|j: int| 0 <= j < i && all.take(i as int)[j] == key;
                    assert(all[j] == all[i as int]);
                }
            }
            assert(all.contains(key));
            assert(count_of(mid, key) == count_of(before, key));
            if before.contains_key(key) {
                assert(before[key] > 0);
            }
        }
        take_one(counts, &list[i]);
        proof {
            let next = all.take(i + 1);
            assert(next =~= all.take(i as int).push(key));
            assert forall|k: ResourceKeyView| #[trigger]
                count_of(table(counts.deep_view()), k) == count_of(before, k) - if next.contains(k)
                    && before.contains_key(k) {
                    1nat
                } else {
                    0nat
                } by {
                assert(count_of(mid, k) == count_of(before, k) - if all.take(i as int).contains(k)
                    && before.contains_key(k) {
                    1nat
                } else {
                    0nat
                });
                if next.contains(k) && k != key {
                    let j = choose|j: int| 0 <= j < next.len() && next[j] == k;
                    assert(all.take(i as int)[j] == k);
                }
                if all.take(i as int).contains(k) {
                    let j = choose|j: int| 0 <= j < i && all.take(i as int)[j] == k;
                    assert(next[j] == k);
                }
                if k == key {
                    assert(next[i as int] == k);
                }
            }
        }
        i = i + 1;
    }
    assert(all.take(i as int) =~= all);
}

fn add_each(counts: &mut OrderedMap<ResourceKey, usize>, items: &OrderedSet<ResourceKey>)
    requires
        forall|k: ResourceKeyView|
            items.deep_view().contains(k) ==> #[trigger] count_of(
                table(old(counts).deep_view()),
                k,
            ) < usize::MAX,
    ensures
        forall|k: ResourceKeyView|
            #[trigger] table(final(counts).deep_view()).contains_key(k) <==> table(
                old(counts).deep_view(),
            ).contains_key(k) || items.deep_view().contains(k),
        forall|k: ResourceKeyView|
            #[trigger] count_of(table(final(counts).deep_view()), k) == count_of(
                table(old(counts).deep_view()),
                k,
            ) + if items.deep_view().contains(k) {
                1nat
            } else {
                0nat
            },
{
    let list = items.items();
    let ghost all = items.deep_view();
    let ghost before = table(counts.deep_view());
    let mut i: usize = 0;
    proof {
        increasing_is_distinct::<ResourceKey>(all);
    }
    while i < list.len()
        invariant
            i <= list.len(),
            list.deep_view() == all,
            all.no_duplicates(),
            forall|k: ResourceKeyView|
                all.contains(k) ==> #[trigger] count_of(before, k) < usize::MAX,
            forall|k: ResourceKeyView|
                #[trigger] table(counts.deep_view()).contains_key(k) <==> before.contains_key(k)
                    || all.take(i as int).contains(k),
            forall|k: ResourceKeyView|
                #[trigger] count_of(table(counts.deep_view()), k) == count_of(before, k)
                    + if all.take(i as int).contains(k) {
                    1nat
                } else {
                    0nat
                },
        decreases list.len() - i,
    {
        let ghost key = all[i as int];
        let ghost mid = table(counts.deep_view());
        assert(key == list[i as int].deep_view());
        proof {
            assert(!all.take(i as int).contains(key)) by {
                if all.take(i as int).contains(key) {
                    let j = choose|j: int| 0 <= j < i && all.take(i as int)[j] == key;
                    assert(all[j] == all[i as int]);
                }
            }
            assert(all.contains(key));
            assert(count_of(mid, key) == count_of(before, key));
        }
        add_one(counts, &list[i]);
        proof {
            let next = all.take(i + 1);
            assert(next =~= all.take(i as int).push(key));
            assert forall|k: ResourceKeyView| next.contains(k) <==> all.take(i as int).contains(k)
                || k == key by {
                if next.contains(k) && k != key {
                    let j = choose|j: int| 0 <= j < next.len() && next[j] == k;
                    assert(all.take(i as int)[j] == k);
                }
                if all.take(i as int).contains(k) {
                    let j = choose|j: int| 0 <= j < i && all.take(i as int)[j] == k;
                    assert(next[j] == k);
                }
                if k == key {
                    assert(next[i as int] == k);
                }
            }
            assert forall|k: ResourceKeyView| #[trigger]
                count_of(table(counts.deep_view()), k) == count_of(before, k) + if next.contains(k) {
                    1nat
                } else {
                    0nat
                } by {
                assert(count_of(mid, k) == count_of(before, k) + if all.take(i as int).contains(k) {
                    1nat
                } else {
                    0nat
                });
            }
            assert forall|k: ResourceKeyView| #[trigger]
                table(counts.deep_view()).contains_key(k) <==> before.contains_key(k)
                    || next.contains(k) by {
                assert(mid.contains_key(k) <==> before.contains_key(k) || all.take(
                    i as int,
                ).contains(k));
            }
        }
        i = i + 1;
    }
    assert(all.take(i as int) =~= all);
}

fn take_routes(counts: &mut OrderedMap<ResourceKey, usize>, routes: &RouteToReferenceMapping)
    requires
        forall|k: ResourceKeyView|
            referring(routes.deep_view(), k) <= #[trigger] count_of(
                table(old(counts).deep_view()),
                k,
            ),
    ensures
        table(final(counts).deep_view()).dom() == table(old(counts).deep_view()).dom(),
        forall|k: ResourceKeyView|
            #[trigger] count_of(table(final(counts).deep_view()), k) == count_of(
                table(old(counts).deep_view()),
                k,
            ) - referring(routes.deep_view(), k),
{
    let list = routes.entries();
    let ghost all = routes.deep_view();
    let ghost before = table(counts.deep_view());
    let mut i: usize = 0;
    while i < list.len()
        invariant
            i <= list.len(),
            list.deep_view() == all,
            table(counts.deep_view()).dom() == before.dom(),
            forall|k: ResourceKeyView| referring(all, k) <= #[trigger] count_of(before, k),
            forall|k: ResourceKeyView|
                #[trigger] count_of(table(counts.deep_view()), k) == count_of(before, k)
                    - referring(all.take(i as int), k),
        decreases list.len() - i,
    {
        let ghost mid = table(counts.deep_view());
        let ghost items = all[i as int].1;
        assert(all[i as int] == list[i as int].deep_view());
        proof {
            assert forall|k: ResourceKeyView|
                items.contains(k) && mid.contains_key(k) implies #[trigger] mid[k] > 0 by {
                assert(count_of(mid, k) == count_of(before, k) - referring(all.take(i as int), k));
                assert(all.take(i + 1).drop_last() =~= all.take(i as int));
                referring_grows(all, i + 1, k);
            }
        }
        take_each(counts, &list[i].1);
        proof {
            assert(all.take(i + 1).drop_last() =~= all.take(i as int));
            assert forall|k: ResourceKeyView| #[trigger]
                count_of(table(counts.deep_view()), k) == count_of(before, k) - referring(
                    all.take(i + 1),
                    k,
                ) by {
                assert(count_of(mid, k) == count_of(before, k) - referring(all.take(i as int), k));
                referring_grows(all, i + 1, k);
            }
        }
        i = i + 1;
    }
    assert(all.take(i as int) =~= all);
}

proof fn referring_grows(
    routes: Seq<(ResourceKeyView, Seq<ResourceKeyView>)>,
    n: int,
    key: ResourceKeyView,
)
    requires
        0 <= n <= routes.len(),
    ensures
        referring(routes.take(n), key) <= referring(routes, key),
    decreases routes.len(),
{
    if n < routes.len() {
        referring_grows(routes.drop_last(), n, key);
        assert(routes.drop_last().take(n) =~= routes.take(n));
    } else {
        assert(routes.take(n) =~= routes);
    }
}

fn add_routes(counts: &mut OrderedMap<ResourceKey, usize>, routes: &RouteToReferenceMapping)
    requires
        forall|k: ResourceKeyView|
            #[trigger] count_of(table(old(counts).deep_view()), k) + referring(
                routes.deep_view(),
                k,
            ) <= usize::MAX,
    ensures
        forall|k: ResourceKeyView|
            #[trigger] table(final(counts).deep_view()).contains_key(k) <==> table(
                old(counts).deep_view(),
            ).contains_key(k) || referring(routes.deep_view(), k) > 0,
        forall|k: ResourceKeyView|
            #[trigger] count_of(table(final(counts).deep_view()), k) == count_of(
                table(old(counts).deep_view()),
                k,
            ) + referring(routes.deep_view(), k),
{
    let list = routes.entries();
    let ghost all = routes.deep_view();
    let ghost before = table(counts.deep_view());
    let mut i: usize = 0;
    while i < list.len()
        invariant
            i <= list.len(),
            list.deep_view() == all,
            forall|k: ResourceKeyView|
                #[trigger] count_of(before, k) + referring(all, k) <= usize::MAX,
            forall|k: ResourceKeyView|
                #[trigger] table(counts.deep_view()).contains_key(k) <==> before.contains_key(k)
                    || referring(all.take(i as int), k) > 0,
            forall|k: ResourceKeyView|
                #[trigger] count_of(table(counts.deep_view()), k) == count_of(before, k)
                    + referring(all.take(i as int), k),
        decreases list.len() - i,
    {
        let ghost mid = table(counts.deep_view());
        let ghost items = all[i as int].1;
        assert(all[i as int] == list[i as int].deep_view());
        proof {
            assert(all.take(i + 1).drop_last() =~= all.take(i as int));
            assert forall|k: ResourceKeyView| items.contains(k) implies #[trigger] count_of(mid, k)
                < usize::MAX by {
                assert(count_of(before, k) + referring(all, k) <= usize::MAX);
                referring_grows(all, i + 1, k);
            }
        }
        add_each(counts, &list[i].1);
        proof {
            assert forall|k: ResourceKeyView| #[trigger]
                count_of(table(counts.deep_view()), k) == count_of(before, k) + referring(
                    all.take(i + 1),
                    k,
                ) by {
                assert(count_of(mid, k) == count_of(before, k) + referring(all.take(i as int), k));
            }
            assert forall|k: ResourceKeyView| #[trigger]
                table(counts.deep_view()).contains_key(k) <==> before.contains_key(k)
                    || referring(all.take(i + 1), k) > 0 by {
                assert(mid.contains_key(k) <==> before.contains_key(k) || referring(
                    all.take(i as int),
                    k,
                ) > 0);
            }
        }
        i = i + 1;
    }
    assert(all.take(i as int) =~= all);
}

fn count_referring(routes: &RouteToReferenceMapping, key: &ResourceKey) -> (r: usize)
    ensures
        r == referring(routes.deep_view(), key.deep_view()),
{
    let list = routes.entries();
    let ghost all = routes.deep_view();
    let mut count: usize = 0;
    let mut i: usize = 0;
    while i < list.len()
        invariant
            count <= i <= list.len(),
            list.deep_view() == all,
            count == referring(all.take(i as int), key.deep_view()),
        decreases list.len() - i,
    {
        assert(all[i as int] == list[i as int].deep_view());
        assert(all.take(i + 1).drop_last() =~= all.take(i as int));
        if list[i].1.contains(key) {
            count = count + 1;
        }
        i = i + 1;
    }
    assert(all.take(i as int) =~= all);
    count
}

proof fn referred_by_some(
    routes: Seq<(ResourceKeyView, Seq<ResourceKeyView>)>,
    key: ResourceKeyView,
)
    requires
        referring(routes, key) > 0,
    ensures
        exists|i: int| 0 <= i < routes.len() && (#[trigger] routes[i]).1.contains(key),
    decreases routes.len(),
{
    if routes.last().1.contains(key) {
        assert(routes[routes.len() - 1].1.contains(key));
    } else {
        referred_by_some(routes.drop_last(), key);
        let i = choose|i: int|
            0 <= i < routes.len() - 1 && (#[trigger] routes.drop_last()[i]).1.contains(key);
        assert(routes[i].1.contains(key));
    }
}

/// The keys that a number is kept for, but zero.
pub open spec fn spent(counts: Map<ResourceKeyView, usize>) -> Set<ResourceKeyView> {
    Set::new(|k: ResourceKeyView| counts.contains_key(k) && counts[k] == 0)
}

fn list_spent(counts: &OrderedMap<ResourceKey, usize>) -> (r: Vec<ResourceKey>)
    ensures
        r.deep_view().to_set() == spent(table(counts.deep_view())),
{
    let list = counts.entries();
    let ghost all = counts.deep_view();
    let mut out: Vec<ResourceKey> = Vec::new();
    let mut i: usize = 0;
    assert(out.deep_view() =~= Seq::<ResourceKeyView>::empty());
    while i < list.len()
        invariant
            i <= list.len(),
            list.deep_view() == all,
            forall|k: ResourceKeyView|
                #[trigger] out.deep_view().contains(k) <==> exists|j: int|
                    0 <= j < i && (#[trigger] all[j]).0 == k && all[j].1 == 0,
        decreases list.len() - i,
    {
        assert(all[i as int] == list[i as int].deep_view());
        let ghost before = out.deep_view();
        if list[i].1 < 1 {
            out.push(list[i].0.dup());
            assert(out.deep_view() =~= before.push(all[i as int].0));
        }
        proof {
            assert forall|k: ResourceKeyView| #[trigger]
                out.deep_view().contains(k) <==> exists|j: int|
                    0 <= j < i + 1 && (#[trigger] all[j]).0 == k && all[j].1 == 0 by {
                assert(before.contains(k) <==> exists|j: int|
                    0 <= j < i && (#[trigger] all[j]).0 == k && all[j].1 == 0);
                if out.deep_view().contains(k) && !before.contains(k) {
                    let n = choose|n: int| 0 <= n < out.deep_view().len() && out.deep_view()[n] == k;
                    if n < before.len() {
                        assert(before[n] == k);
                    }
                    assert(all[i as int].0 == k && all[i as int].1 == 0);
                }
                if before.contains(k) {
                    let n = choose|n: int| 0 <= n < before.len() && before[n] == k;
                    assert(out.deep_view()[n] == k);
                }
                if all[i as int].0 == k && all[i as int].1 == 0 {
                    assert(out.deep_view()[before.len() as int] == k);
                }
            }
        }
        i = i + 1;
    }
    proof {
        assert forall|k: ResourceKeyView|
            out.deep_view().to_set().contains(k) <==> spent(table(all)).contains(k) by {
            assert(out.deep_view().contains(k) <==> exists|j: int|
                0 <= j < all.len() && (#[trigger] all[j]).0 == k && all[j].1 == 0);
            if spent(table(all)).contains(k) {
                assert(keys(all).contains(k));
                let j = choose|j: int| 0 <= j < all.len() && keys(all)[j] == k;
                table_of_entry::<ResourceKey, usize>(all, j);
                assert(all[j].0 == k);
            }
            if exists|j: int| 0 <= j < all.len() && (#[trigger] all[j]).0 == k && all[j].1 == 0 {
                let j = choose|j: int|
                    0 <= j < all.len() && (#[trigger] all[j]).0 == k && all[j].1 == 0;
                table_of_entry::<ResourceKey, usize>(all, j);
            }
        }
        assert(out.deep_view().to_set() =~= spent(table(all)));
    }
    out
}

/// The numbers that are kept for objects, and those of the objects that were found.
pub struct References {
    parents: OrderedMap<ResourceKey, usize>,
    resolved_references: OrderedMap<ResourceKey, ResolvedReference>,
}

impl References {
    /// The numbers that are kept for objects.
    pub closed spec fn counts(self) -> Map<ResourceKeyView, usize> {
        table(self.parents.deep_view())
    }

    /// The objects that were found.
    pub closed spec fn found(self) -> Map<ResourceKeyView, ResolvedReferenceView> {
        table(self.resolved_references.deep_view())
    }

    /// Nothing is referred to and nothing was found.
    pub fn new() -> (r: Self)
        ensures
            r.counts() == Map::<ResourceKeyView, usize>::empty(),
            r.found() == Map::<ResourceKeyView, ResolvedReferenceView>::empty(),
    {
        let r = References { parents: OrderedMap::new(), resolved_references: OrderedMap::new() };
        assert(r.counts() =~= Map::<ResourceKeyView, usize>::empty());
        assert(r.found() =~= Map::<ResourceKeyView, ResolvedReferenceView>::empty());
        r
    }

    /// The number that is kept for an object.
    pub fn parents(&self, key: &ResourceKey) -> (r: Option<usize>)
        ensures
            r == self.counts().get(key.deep_view()),
    {
        match self.parents.get(key) {
            Some(count) => Some(*count),
            None => None,
        }
    }

    /// The keys that a number is kept for, in their order.
    pub fn keys(&self) -> (r: Vec<ResourceKey>)
        ensures
            r.deep_view().to_set() == self.counts().dom(),
            increasing::<ResourceKey>(r.deep_view()),
    {
        let list = self.parents.entries();
        let ghost all = keys(self.parents.deep_view());
        let mut out: Vec<ResourceKey> = Vec::new();
        let mut i: usize = 0;
        assert(out.deep_view() =~= Seq::<ResourceKeyView>::empty());
        while i < list.len()
            invariant
                i <= list.len(),
                list.deep_view() == self.parents.deep_view(),
                all == keys(self.parents.deep_view()),
                out.deep_view() == all.take(i as int),
            decreases list.len() - i,
        {
            let ghost before = out.deep_view();
            out.push(list[i].0.dup());
            assert(list.deep_view()[i as int] == list[i as int].deep_view());
            assert(out.deep_view() =~= before.push(all[i as int]));
            i = i + 1;
            assert(out.deep_view() =~= all.take(i as int));
        }
        assert(all.take(i as int) =~= all);
        assert(out.deep_view().to_set() =~= self.counts().dom());
        out
    }

    /// Forgets an object: the number that is kept for it, and what was found of it.
    pub fn remove(&mut self, key: &ResourceKey) -> (r: Option<ResolvedReference>)
        ensures
            final(self).counts() == old(self).counts().remove(key.deep_view()),
            final(self).found() == old(self).found().remove(key.deep_view()),
            r.deep_view() == old(self).found().get(key.deep_view()),
    {
        let _ = self.parents.remove(key);
        self.resolved_references.remove(key)
    }

    /// Forgets what was found of an object.
    pub fn remove_resolved_reference(&mut self, key: &ResourceKey) -> (r: Option<ResolvedReference>)
        ensures
            final(self).counts() == old(self).counts(),
            final(self).found() == old(self).found().remove(key.deep_view()),
            r.deep_view() == old(self).found().get(key.deep_view()),
    {
        self.resolved_references.remove(key)
    }

    /// Takes what was found of an object. It is news where nothing was found before, or something
    /// that differs in more than its metadata; else what was found before is kept.
    pub fn add_resolved_reference(
        &mut self,
        key: &ResourceKey,
        reference: ResolvedReference,
    ) -> (r: bool)
        ensures
            final(self).counts() == old(self).counts(),
            r == (old(self).found().contains_key(key.deep_view()) ==> old(
                self,
            ).found()[key.deep_view()].content != reference.content@),
            final(self).found() == if r {
                old(self).found().insert(key.deep_view(), reference.deep_view())
            } else {
                old(self).found()
            },
    {
        let news = match self.resolved_references.get(key) {
            Some(known) => !known.content.same(&reference.content),
            None => true,
        };
        if news {
            self.resolved_references.insert(key.dup(), reference);
        }
        news
    }

    /// What was found of an object.
    pub fn get(&self, key: &ResourceKey) -> (r: Option<&ResolvedReference>)
        ensures
            r.deep_view() == self.found().get(key.deep_view()),
    {
        self.resolved_references.get(key)
    }

    fn forget_spent(&mut self)
        ensures
            final(self).counts() == old(self).counts().remove_keys(spent(old(self).counts())),
            final(self).found() == old(self).found().remove_keys(spent(old(self).counts())),
    {
        let list = list_spent(&self.parents);
        let ghost all = list.deep_view();
        let ghost counts = self.counts();
        let ghost found = self.found();
        let mut i: usize = 0;
        assert(counts.remove_keys(all.take(0).to_set()) =~= counts);
        assert(found.remove_keys(all.take(0).to_set()) =~= found);
        while i < list.len()
            invariant
                i <= list.len(),
                list.deep_view() == all,
                self.counts() == counts.remove_keys(all.take(i as int).to_set()),
                self.found() == found.remove_keys(all.take(i as int).to_set()),
            decreases list.len() - i,
        {
            let ghost taken = all.take(i as int).to_set();
            let _ = self.remove(&list[i]);
            proof {
                let next = all.take(i + 1);
                assert(all[i as int] == list[i as int].deep_view());
                assert(next =~= all.take(i as int).push(all[i as int]));
                assert forall|k: ResourceKeyView| next.to_set().contains(k) <==> taken.insert(
                    all[i as int],
                ).contains(k) by {
                    if next.contains(k) && k != all[i as int] {
                        let j = choose|j: int| 0 <= j < next.len() && next[j] == k;
                        assert(all.take(i as int)[j] == k);
                    }
                    if all.take(i as int).contains(k) {
                        let j = choose|j: int| 0 <= j < i && all.take(i as int)[j] == k;
                        assert(next[j] == k);
                    }
                    if k == all[i as int] {
                        assert(next[i as int] == k);
                    }
                }
                assert(next.to_set() =~= taken.insert(all[i as int]));
                assert(self.counts() =~= counts.remove_keys(next.to_set()));
                assert(self.found() =~= found.remove_keys(next.to_set()));
            }
            i = i + 1;
        }
        assert(all.take(i as int) =~= all);
    }
}

/// The routes of a gateway, with what they refer to.
pub open spec fn routes_of(
    gateways: Seq<(ResourceKeyView, Seq<(ResourceKeyView, Seq<ResourceKeyView>)>)>,
    gateway: ResourceKeyView,
) -> Seq<(ResourceKeyView, Seq<ResourceKeyView>)> {
    if table(gateways).contains_key(gateway) {
        table(gateways)[gateway]
    } else {
        Seq::empty()
    }
}

proof fn sum_insert(
    gateways: Seq<(ResourceKeyView, Seq<(ResourceKeyView, Seq<ResourceKeyView>)>)>,
    p: int,
    entry: (ResourceKeyView, Seq<(ResourceKeyView, Seq<ResourceKeyView>)>),
    key: ResourceKeyView,
)
    requires
        0 <= p <= gateways.len(),
    ensures
        referring_in_all(gateways.insert(p, entry), key) == referring_in_all(gateways, key)
            + referring(entry.1, key),
    decreases gateways.len(),
{
    let next = gateways.insert(p, entry);
    if p == gateways.len() {
        assert(next.drop_last() =~= gateways);
    } else {
        assert(next.drop_last() =~= gateways.drop_last().insert(p, entry));
        sum_insert(gateways.drop_last(), p, entry, key);
    }
}

proof fn sum_remove(
    gateways: Seq<(ResourceKeyView, Seq<(ResourceKeyView, Seq<ResourceKeyView>)>)>,
    p: int,
    key: ResourceKeyView,
)
    requires
        0 <= p < gateways.len(),
    ensures
        referring_in_all(gateways.remove(p), key) == referring_in_all(gateways, key) - referring(
            gateways[p].1,
            key,
        ),
{
    let rest = gateways.remove(p);
    sum_insert(rest, p, gateways[p], key);
    assert(rest.insert(p, gateways[p]) =~= gateways);
}

proof fn sum_update(
    gateways: Seq<(ResourceKeyView, Seq<(ResourceKeyView, Seq<ResourceKeyView>)>)>,
    p: int,
    entry: (ResourceKeyView, Seq<(ResourceKeyView, Seq<ResourceKeyView>)>),
    key: ResourceKeyView,
)
    requires
        0 <= p < gateways.len(),
    ensures
        referring_in_all(gateways.update(p, entry), key) == referring_in_all(gateways, key)
            - referring(gateways[p].1, key) + referring(entry.1, key),
{
    sum_remove(gateways, p, key);
    sum_insert(gateways.remove(p), p, entry, key);
    assert(gateways.remove(p).insert(p, entry) =~= gateways.update(p, entry));
}

/// Storing the routes of a gateway changes how many routes refer to an object by what the gateway's
/// own routes add and take.
pub proof fn law_put_routes(
    gateways: Seq<(ResourceKeyView, Seq<(ResourceKeyView, Seq<ResourceKeyView>)>)>,
    gateway: ResourceKeyView,
    routes: Seq<(ResourceKeyView, Seq<ResourceKeyView>)>,
    key: ResourceKeyView,
)
    requires
        increasing::<ResourceKey>(keys(gateways)),
    ensures
        referring_in_all(
            put::<ResourceKey, Seq<(ResourceKeyView, Seq<ResourceKeyView>)>>(
                gateways,
                gateway,
                routes,
            ),
            key,
        ) == referring_in_all(gateways, key) - referring(routes_of(gateways, gateway), key)
            + referring(routes, key),
        referring(routes_of(gateways, gateway), key) <= referring_in_all(gateways, key),
{
    slot_bounds::<ResourceKey>(keys(gateways), gateway);
    let p = slot::<ResourceKey>(keys(gateways), gateway);
    hits_is_contains::<ResourceKey>(keys(gateways), gateway);
    if hits::<ResourceKey>(keys(gateways), gateway) {
        table_of_entry::<ResourceKey, Seq<(ResourceKeyView, Seq<ResourceKeyView>)>>(gateways, p);
        sum_update(gateways, p, (gateway, routes), key);
        sum_remove(gateways, p, key);
    } else {
        sum_insert(gateways, p, (gateway, routes), key);
    }
}

/// Dropping a gateway takes what its routes add to how many routes refer to an object.
pub proof fn law_drop_routes(
    gateways: Seq<(ResourceKeyView, Seq<(ResourceKeyView, Seq<ResourceKeyView>)>)>,
    gateway: ResourceKeyView,
    key: ResourceKeyView,
)
    requires
        increasing::<ResourceKey>(keys(gateways)),
    ensures
        referring_in_all(
            drop_key::<ResourceKey, Seq<(ResourceKeyView, Seq<ResourceKeyView>)>>(
                gateways,
                gateway,
            ),
            key,
        ) == referring_in_all(gateways, key) - referring(routes_of(gateways, gateway), key),
{
    slot_bounds::<ResourceKey>(keys(gateways), gateway);
    let p = slot::<ResourceKey>(keys(gateways), gateway);
    hits_is_contains::<ResourceKey>(keys(gateways), gateway);
    if hits::<ResourceKey>(keys(gateways), gateway) {
        table_of_entry::<ResourceKey, Seq<(ResourceKeyView, Seq<ResourceKeyView>)>>(gateways, p);
        sum_remove(gateways, p, key);
    }
}

proof fn referring_insert(
    routes: Seq<(ResourceKeyView, Seq<ResourceKeyView>)>,
    p: int,
    entry: (ResourceKeyView, Seq<ResourceKeyView>),
    key: ResourceKeyView,
)
    requires
        0 <= p <= routes.len(),
    ensures
        referring(routes.insert(p, entry), key) == referring(routes, key) + if entry.1.contains(key) {
            1nat
        } else {
            0nat
        },
    decreases routes.len(),
{
    let next = routes.insert(p, entry);
    if p == routes.len() {
        assert(next.drop_last() =~= routes);
    } else {
        assert(next.drop_last() =~= routes.drop_last().insert(p, entry));
        referring_insert(routes.drop_last(), p, entry, key);
    }
}

/// What a route refers to, of the routes of one gateway.
pub open spec fn references_of(
    routes: Seq<(ResourceKeyView, Seq<ResourceKeyView>)>,
    route: ResourceKeyView,
) -> Seq<ResourceKeyView> {
    if table(routes).contains_key(route) {
        table(routes)[route]
    } else {
        Seq::empty()
    }
}

proof fn referring_without(
    routes: Seq<(ResourceKeyView, Seq<ResourceKeyView>)>,
    route: ResourceKeyView,
    key: ResourceKeyView,
)
    requires
        increasing::<ResourceKey>(keys(routes)),
    ensures
        referring(drop_key::<ResourceKey, Seq<ResourceKeyView>>(routes, route), key) == referring(
            routes,
            key,
        ) - if references_of(routes, route).contains(key) {
            1nat
        } else {
            0nat
        },
{
    slot_bounds::<ResourceKey>(keys(routes), route);
    let p = slot::<ResourceKey>(keys(routes), route);
    hits_is_contains::<ResourceKey>(keys(routes), route);
    if hits::<ResourceKey>(keys(routes), route) {
        table_of_entry::<ResourceKey, Seq<ResourceKeyView>>(routes, p);
        referring_insert(routes.remove(p), p, routes[p], key);
        assert(routes.remove(p).insert(p, routes[p]) =~= routes);
    }
}

/// The routes of a gateway without one of them.
pub open spec fn without_route(route: ResourceKeyView) -> spec_fn(
    Seq<(ResourceKeyView, Seq<ResourceKeyView>)>,
) -> Seq<(ResourceKeyView, Seq<ResourceKeyView>)> {
    |routes: Seq<(ResourceKeyView, Seq<ResourceKeyView>)>|
        drop_key::<ResourceKey, Seq<ResourceKeyView>>(routes, route)
}

/// How many gateways have a route that refers to an object.
pub open spec fn gateways_referring(
    gateways: Seq<(ResourceKeyView, Seq<(ResourceKeyView, Seq<ResourceKeyView>)>)>,
    route: ResourceKeyView,
    key: ResourceKeyView,
) -> nat
    decreases gateways.len(),
{
    if gateways.len() == 0 {
        0
    } else {
        gateways_referring(gateways.drop_last(), route, key) + if references_of(
            gateways.last().1,
            route,
        ).contains(key) {
            1nat
        } else {
            0nat
        }
    }
}

/// Whether the routes of each gateway are in order.
pub open spec fn all_increasing(
    gateways: Seq<(ResourceKeyView, Seq<(ResourceKeyView, Seq<ResourceKeyView>)>)>,
) -> bool {
    forall|i: int|
        0 <= i < gateways.len() ==> increasing::<ResourceKey>(keys((#[trigger] gateways[i]).1))
}

proof fn sum_without(
    gateways: Seq<(ResourceKeyView, Seq<(ResourceKeyView, Seq<ResourceKeyView>)>)>,
    route: ResourceKeyView,
    key: ResourceKeyView,
)
    requires
        all_increasing(gateways),
    ensures
        referring_in_all(revalued(gateways, without_route(route)), key) + gateways_referring(
            gateways,
            route,
            key,
        ) == referring_in_all(gateways, key),
    decreases gateways.len(),
{
    let next = revalued(gateways, without_route(route));
    if gateways.len() > 0 {
        let shorter = gateways.drop_last();
        assert forall|i: int| 0 <= i < shorter.len() implies increasing::<ResourceKey>(
            keys((#[trigger] shorter[i]).1),
        ) by {
            assert(gateways[i] == shorter[i]);
        }
        sum_without(shorter, route, key);
        assert(next.drop_last() =~= revalued(shorter, without_route(route)));
        assert(increasing::<ResourceKey>(keys(gateways[gateways.len() - 1].1)));
        referring_without(gateways.last().1, route, key);
    }
}

proof fn referring_member(
    gateways: Seq<(ResourceKeyView, Seq<(ResourceKeyView, Seq<ResourceKeyView>)>)>,
    route: ResourceKeyView,
    key: ResourceKeyView,
)
    ensures
        gateways_referring(gateways, route, key) > 0 <==> exists|i: int|
            0 <= i < gateways.len() && references_of((#[trigger] gateways[i]).1, route).contains(
                key,
            ),
    decreases gateways.len(),
{
    if gateways.len() > 0 {
        let shorter = gateways.drop_last();
        referring_member(shorter, route, key);
        if gateways_referring(shorter, route, key) > 0 {
            let i = choose|i: int|
                0 <= i < shorter.len() && references_of((#[trigger] shorter[i]).1, route).contains(
                    key,
                );
            assert(gateways[i] == shorter[i]);
        }
        if exists|i: int|
            0 <= i < gateways.len() && references_of((#[trigger] gateways[i]).1, route).contains(
                key,
            ) {
            let i = choose|i: int|
                0 <= i < gateways.len() && references_of(
                    (#[trigger] gateways[i]).1,
                    route,
                ).contains(key);
            if i < shorter.len() {
                assert(shorter[i] == gateways[i]);
            }
        }
        if references_of(gateways.last().1, route).contains(key) {
            assert(references_of(gateways[gateways.len() - 1].1, route).contains(key));
        }
    }
}

/// Whether the numbers that are kept cover the routes that refer to each object: none is too small,
/// and none is zero.
pub open spec fn covered(
    gateways: Seq<(ResourceKeyView, Seq<(ResourceKeyView, Seq<ResourceKeyView>)>)>,
    counts: Map<ResourceKeyView, usize>,
) -> bool {
    &&& forall|k: ResourceKeyView| referring_in_all(gateways, k) <= #[trigger] count_of(counts, k)
    &&& forall|k: ResourceKeyView| #[trigger] counts.contains_key(k) ==> counts[k] > 0
}

/// The number that is to be kept for an object once the routes of a gateway refer to other objects.
pub open spec fn recounted(
    gateways: Seq<(ResourceKeyView, Seq<(ResourceKeyView, Seq<ResourceKeyView>)>)>,
    counts: Map<ResourceKeyView, usize>,
    gateway: ResourceKeyView,
    routes: Seq<(ResourceKeyView, Seq<ResourceKeyView>)>,
    key: ResourceKeyView,
) -> int {
    count_of(counts, key) - referring(routes_of(gateways, gateway), key) + referring(routes, key)
}

/// Whether the numbers that are to be kept once the routes of a gateway refer to other objects are not
/// too large.
pub open spec fn room_for(
    gateways: Seq<(ResourceKeyView, Seq<(ResourceKeyView, Seq<ResourceKeyView>)>)>,
    counts: Map<ResourceKeyView, usize>,
    gateway: ResourceKeyView,
    routes: Seq<(ResourceKeyView, Seq<ResourceKeyView>)>,
) -> bool {
    forall|k: ResourceKeyView| #[trigger]
        recounted(gateways, counts, gateway, routes, k) <= usize::MAX
}

/// Whether the numbers that are kept are those of the routes that refer to each object.
pub open spec fn exact(
    gateways: Seq<(ResourceKeyView, Seq<(ResourceKeyView, Seq<ResourceKeyView>)>)>,
    counts: Map<ResourceKeyView, usize>,
) -> bool {
    forall|k: ResourceKeyView| #[trigger] count_of(counts, k) == referring_in_all(gateways, k)
}

/// The keys that a number was kept for, and is no longer.
pub open spec fn dropped(
    before: Map<ResourceKeyView, usize>,
    after: Map<ResourceKeyView, usize>,
) -> Set<ResourceKeyView> {
    Set::new(|k: ResourceKeyView| before.contains_key(k) && !after.contains_key(k))
}

/// What changes where an object was found, or is no longer found.
pub struct ReferenceUpdate {
    pub reference: ResourceKey,
    pub gateways: OrderedSet<ResourceKey>,
    pub routes: OrderedSet<ResourceKey>,
}

/// Which objects the routes of gateways refer to, and which of them were found.
pub struct MultiReferencesResolver {
    gateway_route_reference_mapping: GatewayToRouteReferenceMapping,
    references: References,
}

impl MultiReferencesResolver {
    /// Whether the gateways and their routes are in order, and a number is kept for each object that is
    /// referred to.
    #[verifier::type_invariant]
    pub open spec fn holds(self) -> bool {
        &&& increasing::<ResourceKey>(keys(self.gateways()))
        &&& all_increasing(self.gateways())
        &&& covered(self.gateways(), self.counts())
    }

    /// What each route of each gateway refers to.
    pub closed spec fn gateways(self) -> Seq<
        (ResourceKeyView, Seq<(ResourceKeyView, Seq<ResourceKeyView>)>),
    > {
        self.gateway_route_reference_mapping.deep_view()
    }

    /// The numbers that are kept for objects.
    pub closed spec fn counts(self) -> Map<ResourceKeyView, usize> {
        self.references.counts()
    }

    /// The objects that were found.
    pub closed spec fn found(self) -> Map<ResourceKeyView, ResolvedReferenceView> {
        self.references.found()
    }

    /// No gateway, and nothing referred to.
    pub fn new() -> (r: Self)
        ensures
            r.gateways() == Seq::<
                (ResourceKeyView, Seq<(ResourceKeyView, Seq<ResourceKeyView>)>),
            >::empty(),
            r.counts() == Map::<ResourceKeyView, usize>::empty(),
            r.found() == Map::<ResourceKeyView, ResolvedReferenceView>::empty(),
            r.holds(),
            exact(r.gateways(), r.counts()),
    {
        MultiReferencesResolver {
            gateway_route_reference_mapping: OrderedMap::new(),
            references: References::new(),
        }
    }

    /// Whether the numbers are not too large once the routes of a gateway refer to other objects.
    pub fn has_room(&self, gateway_key: &ResourceKey, routes: &RouteToReferenceMapping) -> (r: bool)
        ensures
            r == room_for(
                self.gateways(),
                self.counts(),
                gateway_key.deep_view(),
                routes.deep_view(),
            ),
    {
        proof {
            use_type_invariant(self);
        }
        let list = routes.entries();
        let ghost all = routes.deep_view();
        let ghost gateways = self.gateways();
        let ghost counts = self.counts();
        let ghost gateway = gateway_key.deep_view();
        let known = self.gateway_route_reference_mapping.get(gateway_key);
        assert forall|k: ResourceKeyView| referring(routes_of(gateways, gateway), k)
            <= #[trigger] count_of(counts, k) by {
            law_put_routes(gateways, gateway, all, k);
        }
        let mut i: usize = 0;
        while i < list.len()
            invariant
                i <= list.len(),
                list.deep_view() == all,
                all == routes.deep_view(),
                gateways == self.gateways(),
                counts == self.counts(),
                gateway == gateway_key.deep_view(),
                match known {
                    Some(known) => known.deep_view() == routes_of(gateways, gateway),
                    None => routes_of(gateways, gateway).len() == 0,
                },
                forall|k: ResourceKeyView|
                    referring(routes_of(gateways, gateway), k) <= #[trigger] count_of(counts, k),
                forall|j: int, k: ResourceKeyView|
                    0 <= j < i && (#[trigger] all[j]).1.contains(k) ==> #[trigger] recounted(
                        gateways,
                        counts,
                        gateway,
                        all,
                        k,
                    ) <= usize::MAX,
            decreases list.len() - i,
        {
            let items = list[i].1.items();
            let ghost wanted = all[i as int].1;
            assert(all[i as int] == list[i as int].deep_view());
            let mut n: usize = 0;
            while n < items.len()
                invariant
                    n <= items.len(),
                    items.deep_view() == wanted,
                    all == routes.deep_view(),
                    gateways == self.gateways(),
                    counts == self.counts(),
                    gateway == gateway_key.deep_view(),
                    match known {
                        Some(known) => known.deep_view() == routes_of(gateways, gateway),
                        None => routes_of(gateways, gateway).len() == 0,
                    },
                    forall|k: ResourceKeyView|
                        referring(routes_of(gateways, gateway), k) <= #[trigger] count_of(counts, k),
                    forall|m: int|
                        0 <= m < n ==> recounted(
                            gateways,
                            counts,
                            gateway,
                            all,
                            #[trigger] wanted[m],
                        ) <= usize::MAX,
                decreases items.len() - n,
            {
                let ghost key = wanted[n as int];
                assert(key == items[n as int].deep_view());
                let have: usize = match self.references.parents(&items[n]) {
                    Some(count) => count,
                    None => 0,
                };
                let gone: usize = match known {
                    Some(known) => count_referring(known, &items[n]),
                    None => 0,
                };
                let more: usize = count_referring(routes, &items[n]);
                assert(have == count_of(counts, key));
                assert(gone == referring(routes_of(gateways, gateway), key));
                if have - gone > usize::MAX - more {
                    assert(recounted(gateways, counts, gateway, all, key) > usize::MAX);
                    return false;
                }
                n = n + 1;
            }
            assert forall|k: ResourceKeyView| wanted.contains(k) implies #[trigger] recounted(
                gateways,
                counts,
                gateway,
                all,
                k,
            ) <= usize::MAX by {
                let m = choose|m: int| 0 <= m < wanted.len() && wanted[m] == k;
                assert(recounted(gateways, counts, gateway, all, wanted[m]) <= usize::MAX);
            }
            i = i + 1;
        }
        assert forall|k: ResourceKeyView| #[trigger]
            recounted(gateways, counts, gateway, all, k) <= usize::MAX by {
            if referring(all, k) > 0 {
                referred_by_some(all, k);
                let j = choose|j: int| 0 <= j < all.len() && (#[trigger] all[j]).1.contains(k);
                assert(all[j].1.contains(k));
            } else {
                assert(count_of(counts, k) <= usize::MAX);
            }
        }
        true
    }

    /// Takes what the routes of a gateway refer to, in place of what they referred to. Nothing
    /// happens where they are no routes.
    pub fn add_references_for_gateway(
        &mut self,
        gateway_key: &ResourceKey,
        routes: RouteToReferenceMapping,
    )
        requires
            room_for(
                old(self).gateways(),
                old(self).counts(),
                gateway_key.deep_view(),
                routes.deep_view(),
            ),
        ensures
            routes.deep_view().len() == 0 ==> final(self).gateways() == old(self).gateways()
                && final(self).counts() == old(self).counts() && final(self).found() == old(
                self,
            ).found(),
            routes.deep_view().len() > 0 ==> {
                &&& final(self).gateways() == put::<
                    ResourceKey,
                    Seq<(ResourceKeyView, Seq<ResourceKeyView>)>,
                >(old(self).gateways(), gateway_key.deep_view(), routes.deep_view())
                &&& forall|k: ResourceKeyView|
                    #[trigger] count_of(final(self).counts(), k) == count_of(old(self).counts(), k)
                        - referring(routes_of(old(self).gateways(), gateway_key.deep_view()), k)
                        + referring(routes.deep_view(), k)
                &&& final(self).found() == old(self).found().remove_keys(
                    dropped(old(self).counts(), final(self).counts()),
                )
            },
            final(self).holds(),
            exact(old(self).gateways(), old(self).counts()) ==> exact(
                final(self).gateways(),
                final(self).counts(),
            ),
    {
        proof {
            use_type_invariant(&*self);
        }
        if routes.len() == 0 {
            return;
        }
        let ghost gateways = self.gateways();
        let ghost counts = self.counts();
        let ghost gateway = gateway_key.deep_view();
        let ghost added = routes.deep_view();
        let _ = routes.entries();
        let mut mapping: GatewayToRouteReferenceMapping = OrderedMap::new();
        let mut references = References::new();
        std::mem::swap(&mut mapping, &mut self.gateway_route_reference_mapping);
        std::mem::swap(&mut references, &mut self.references);
        proof {
            assert forall|k: ResourceKeyView| referring(routes_of(gateways, gateway), k)
                <= #[trigger] count_of(counts, k) by {
                law_put_routes(gateways, gateway, added, k);
            }
            law_put::<ResourceKey, Seq<(ResourceKeyView, Seq<ResourceKeyView>)>>(
                gateways,
                gateway,
                added,
            );
        }
        let known: Option<RouteToReferenceMapping> = match mapping.get(gateway_key) {
            Some(known) => Some(known.dup()),
            None => None,
        };
        match &known {
            Some(known) => {
                take_routes(&mut references.parents, known);
            },
            None => {},
        }
        let ghost lowered = references.counts();
        assert forall|k: ResourceKeyView| #[trigger] count_of(lowered, k) == count_of(counts, k)
            - referring(routes_of(gateways, gateway), k) by {
            assert(count_of(counts, k) >= 0);
        }
        assert forall|k: ResourceKeyView| #[trigger] count_of(lowered, k) + referring(added, k)
            <= usize::MAX by {
            assert(recounted(gateways, counts, gateway, added, k) <= usize::MAX);
        }
        add_routes(&mut references.parents, &routes);
        let ghost raised = references.counts();
        references.forget_spent();
        mapping.insert(gateway_key.dup(), routes);
        proof {
            let after = references.counts();
            assert forall|k: ResourceKeyView| #[trigger] count_of(after, k) == count_of(counts, k)
                - referring(routes_of(gateways, gateway), k) + referring(added, k) by {
                assert(count_of(raised, k) == count_of(lowered, k) + referring(added, k));
                assert(count_of(lowered, k) == count_of(counts, k) - referring(
                    routes_of(gateways, gateway),
                    k,
                ));
            }
            assert forall|k: ResourceKeyView| referring_in_all(mapping.deep_view(), k)
                <= #[trigger] count_of(after, k) by {
                law_put_routes(gateways, gateway, added, k);
                assert(referring_in_all(gateways, k) <= count_of(counts, k));
            }
            assert forall|i: int| 0 <= i < mapping.deep_view().len() implies increasing::<
                ResourceKey,
            >(keys((#[trigger] mapping.deep_view()[i]).1)) by {
                slot_bounds::<ResourceKey>(keys(gateways), gateway);
                let p = slot::<ResourceKey>(keys(gateways), gateway);
                let j = if hits::<ResourceKey>(keys(gateways), gateway) || i < p { i } else { i - 1 };
                if i != p {
                    assert(mapping.deep_view()[i] == gateways[j]);
                }
            }
            assert forall|k: ResourceKeyView| spent(raised).contains(k) <==> dropped(
                counts,
                after,
            ).contains(k) by {
                assert(raised.contains_key(k) <==> lowered.contains_key(k) || referring(added, k)
                    > 0);
                assert(count_of(raised, k) == count_of(lowered, k) + referring(added, k));
                assert(count_of(lowered, k) == count_of(counts, k) - referring(
                    routes_of(gateways, gateway),
                    k,
                ));
            }
            assert(spent(raised) =~= dropped(counts, after));
        }
        proof {
            if exact(gateways, counts) {
                law_add_keeps_exact(gateways, counts, references.counts(), gateway, added);
            }
        }
        self.references = references;
        self.gateway_route_reference_mapping = mapping;
    }

    /// Forgets a gateway, with what its routes refer to.
    pub fn delete_references_for_gateway(&mut self, gateway_key: &ResourceKey)
        ensures
            final(self).gateways() == drop_key::<
                ResourceKey,
                Seq<(ResourceKeyView, Seq<ResourceKeyView>)>,
            >(old(self).gateways(), gateway_key.deep_view()),
            forall|k: ResourceKeyView|
                #[trigger] count_of(final(self).counts(), k) == count_of(old(self).counts(), k)
                    - referring(routes_of(old(self).gateways(), gateway_key.deep_view()), k),
            final(self).found() == old(self).found().remove_keys(
                dropped(old(self).counts(), final(self).counts()),
            ),
            final(self).holds(),
            exact(old(self).gateways(), old(self).counts()) ==> exact(
                final(self).gateways(),
                final(self).counts(),
            ),
    {
        proof {
            use_type_invariant(&*self);
        }
        let ghost gateways = self.gateways();
        let ghost counts = self.counts();
        let ghost gateway = gateway_key.deep_view();
        let mut mapping: GatewayToRouteReferenceMapping = OrderedMap::new();
        let mut references = References::new();
        std::mem::swap(&mut mapping, &mut self.gateway_route_reference_mapping);
        std::mem::swap(&mut references, &mut self.references);
        proof {
            assert forall|k: ResourceKeyView| referring(routes_of(gateways, gateway), k)
                <= #[trigger] count_of(counts, k) by {
                law_put_routes(gateways, gateway, Seq::empty(), k);
            }
            law_drop_key::<ResourceKey, Seq<(ResourceKeyView, Seq<ResourceKeyView>)>>(
                gateways,
                gateway,
            );
        }
        let known = mapping.remove(gateway_key);
        match &known {
            Some(known) => {
                take_routes(&mut references.parents, known);
            },
            None => {},
        }
        let ghost lowered = references.counts();
        assert forall|k: ResourceKeyView| #[trigger] count_of(lowered, k) == count_of(counts, k)
            - referring(routes_of(gateways, gateway), k) by {
            assert(count_of(counts, k) >= 0);
        }
        references.forget_spent();
        proof {
            let after = references.counts();
            assert forall|k: ResourceKeyView| #[trigger] count_of(after, k) == count_of(counts, k)
                - referring(routes_of(gateways, gateway), k) by {
                assert(count_of(lowered, k) == count_of(counts, k) - referring(
                    routes_of(gateways, gateway),
                    k,
                ));
            }
            assert forall|k: ResourceKeyView| referring_in_all(mapping.deep_view(), k)
                <= #[trigger] count_of(after, k) by {
                law_drop_routes(gateways, gateway, k);
                assert(referring_in_all(gateways, k) <= count_of(counts, k));
            }
            assert forall|i: int| 0 <= i < mapping.deep_view().len() implies increasing::<
                ResourceKey,
            >(keys((#[trigger] mapping.deep_view()[i]).1)) by {
                slot_bounds::<ResourceKey>(keys(gateways), gateway);
                let p = slot::<ResourceKey>(keys(gateways), gateway);
                let j = if !hits::<ResourceKey>(keys(gateways), gateway) || i < p {
                    i
                } else {
                    i + 1
                };
                assert(mapping.deep_view()[i] == gateways[j]);
            }
            assert forall|k: ResourceKeyView| spent(lowered).contains(k) <==> dropped(
                counts,
                after,
            ).contains(k) by {
                assert(count_of(lowered, k) == count_of(counts, k) - referring(
                    routes_of(gateways, gateway),
                    k,
                ));
            }
            assert(spent(lowered) =~= dropped(counts, after));
        }
        proof {
            if exact(gateways, counts) {
                law_delete_keeps_exact(gateways, counts, references.counts(), gateway);
            }
        }
        self.references = references;
        self.gateway_route_reference_mapping = mapping;
    }

    /// What was found of an object.
    pub fn get_reference(&self, key: &ResourceKey) -> (r: Option<&ResolvedReference>)
        ensures
            r.deep_view() == self.found().get(key.deep_view()),
    {
        self.references.get(key)
    }

    /// The number that is kept for an object.
    pub fn parents(&self, key: &ResourceKey) -> (r: Option<usize>)
        ensures
            r == self.counts().get(key.deep_view()),
    {
        self.references.parents(key)
    }

    /// The keys of the objects that are to be looked for, in their order.
    pub fn keys(&self) -> (r: Vec<ResourceKey>)
        ensures
            r.deep_view().to_set() == self.counts().dom(),
            increasing::<ResourceKey>(r.deep_view()),
    {
        self.references.keys()
    }
}

/// Adding a gateway keeps the numbers those of the routes that refer to each object.
pub proof fn law_add_keeps_exact(
    gateways: Seq<(ResourceKeyView, Seq<(ResourceKeyView, Seq<ResourceKeyView>)>)>,
    before: Map<ResourceKeyView, usize>,
    after: Map<ResourceKeyView, usize>,
    gateway: ResourceKeyView,
    routes: Seq<(ResourceKeyView, Seq<ResourceKeyView>)>,
)
    requires
        increasing::<ResourceKey>(keys(gateways)),
        exact(gateways, before),
        forall|k: ResourceKeyView|
            #[trigger] count_of(after, k) == count_of(before, k) - referring(
                routes_of(gateways, gateway),
                k,
            ) + referring(routes, k),
    ensures
        exact(
            put::<ResourceKey, Seq<(ResourceKeyView, Seq<ResourceKeyView>)>>(
                gateways,
                gateway,
                routes,
            ),
            after,
        ),
{
    let next = put::<ResourceKey, Seq<(ResourceKeyView, Seq<ResourceKeyView>)>>(
        gateways,
        gateway,
        routes,
    );
    assert forall|k: ResourceKeyView| #[trigger] count_of(after, k) == referring_in_all(next, k) by {
        law_put_routes(gateways, gateway, routes, k);
        assert(count_of(before, k) == referring_in_all(gateways, k));
    }
}

/// Deleting a gateway keeps the numbers those of the routes that refer to each object.
pub proof fn law_delete_keeps_exact(
    gateways: Seq<(ResourceKeyView, Seq<(ResourceKeyView, Seq<ResourceKeyView>)>)>,
    before: Map<ResourceKeyView, usize>,
    after: Map<ResourceKeyView, usize>,
    gateway: ResourceKeyView,
)
    requires
        increasing::<ResourceKey>(keys(gateways)),
        exact(gateways, before),
        forall|k: ResourceKeyView|
            #[trigger] count_of(after, k) == count_of(before, k) - referring(
                routes_of(gateways, gateway),
                k,
            ),
    ensures
        exact(
            drop_key::<ResourceKey, Seq<(ResourceKeyView, Seq<ResourceKeyView>)>>(
                gateways,
                gateway,
            ),
            after,
        ),
{
    let next = drop_key::<ResourceKey, Seq<(ResourceKeyView, Seq<ResourceKeyView>)>>(
        gateways,
        gateway,
    );
    assert forall|k: ResourceKeyView| #[trigger] count_of(after, k) == referring_in_all(next, k) by {
        law_drop_routes(gateways, gateway, k);
        assert(count_of(before, k) == referring_in_all(gateways, k));
    }
}

/// Deleting a gateway that was just added, and that was not there before, takes the numbers back to
/// what they were.
pub proof fn law_delete_undoes_add(
    gateways: Seq<(ResourceKeyView, Seq<(ResourceKeyView, Seq<ResourceKeyView>)>)>,
    before: Map<ResourceKeyView, usize>,
    between: Map<ResourceKeyView, usize>,
    after: Map<ResourceKeyView, usize>,
    gateway: ResourceKeyView,
    routes: Seq<(ResourceKeyView, Seq<ResourceKeyView>)>,
)
    requires
        increasing::<ResourceKey>(keys(gateways)),
        !table(gateways).contains_key(gateway),
        covered(gateways, before),
        forall|k: ResourceKeyView| #[trigger] after.contains_key(k) ==> after[k] > 0,
        forall|k: ResourceKeyView|
            #[trigger] count_of(between, k) == count_of(before, k) - referring(
                routes_of(gateways, gateway),
                k,
            ) + referring(routes, k),
        forall|k: ResourceKeyView|
            #[trigger] count_of(after, k) == count_of(between, k) - referring(
                routes_of(
                    put::<ResourceKey, Seq<(ResourceKeyView, Seq<ResourceKeyView>)>>(
                        gateways,
                        gateway,
                        routes,
                    ),
                    gateway,
                ),
                k,
            ),
    ensures
        after == before,
{
    law_put::<ResourceKey, Seq<(ResourceKeyView, Seq<ResourceKeyView>)>>(gateways, gateway, routes);
    assert forall|k: ResourceKeyView| after.contains_key(k) <==> before.contains_key(k) by {
        assert(count_of(after, k) == count_of(between, k) - referring(routes, k));
        assert(count_of(between, k) == count_of(before, k) + referring(routes, k));
    }
    assert forall|k: ResourceKeyView| after.contains_key(k) implies after[k] == before[k] by {
        assert(count_of(after, k) == count_of(between, k) - referring(routes, k));
        assert(count_of(between, k) == count_of(before, k) + referring(routes, k));
    }
    assert(after =~= before);
}

/// The gateways that have a route.
pub open spec fn gateways_with(
    gateways: Seq<(ResourceKeyView, Seq<(ResourceKeyView, Seq<ResourceKeyView>)>)>,
    route: ResourceKeyView,
) -> Set<ResourceKeyView> {
    Set::new(
        |g: ResourceKeyView|
            exists|i: int|
                0 <= i < gateways.len() && (#[trigger] gateways[i]).0 == g && keys(
                    gateways[i].1,
                ).contains(route),
    )
}

/// The gateways that have a route that refers to an object.
pub open spec fn gateways_affected(
    gateways: Seq<(ResourceKeyView, Seq<(ResourceKeyView, Seq<ResourceKeyView>)>)>,
    key: ResourceKeyView,
) -> Set<ResourceKeyView> {
    Set::new(
        |g: ResourceKeyView|
            exists|i: int|
                0 <= i < gateways.len() && (#[trigger] gateways[i]).0 == g && referring(
                    gateways[i].1,
                    key,
                ) > 0,
    )
}

/// The routes of the gateways that have a route that refers to an object.
pub open spec fn routes_affected(
    gateways: Seq<(ResourceKeyView, Seq<(ResourceKeyView, Seq<ResourceKeyView>)>)>,
    key: ResourceKeyView,
) -> Set<ResourceKeyView> {
    Set::new(
        |r: ResourceKeyView|
            exists|i: int|
                0 <= i < gateways.len() && referring((#[trigger] gateways[i]).1, key) > 0 && keys(
                    gateways[i].1,
                ).contains(r),
    )
}

fn list_keys(routes: &RouteToReferenceMapping) -> (r: Vec<ResourceKey>)
    ensures
        r.deep_view() == keys(routes.deep_view()),
{
    let list = routes.entries();
    let ghost all = keys(routes.deep_view());
    let mut out: Vec<ResourceKey> = Vec::new();
    let mut i: usize = 0;
    assert(out.deep_view() =~= Seq::<ResourceKeyView>::empty());
    while i < list.len()
        invariant
            i <= list.len(),
            list.deep_view() == routes.deep_view(),
            all == keys(routes.deep_view()),
            out.deep_view() == all.take(i as int),
        decreases list.len() - i,
    {
        let ghost before = out.deep_view();
        out.push(list[i].0.dup());
        assert(list.deep_view()[i as int] == list[i as int].deep_view());
        assert(out.deep_view() =~= before.push(all[i as int]));
        i = i + 1;
        assert(out.deep_view() =~= all.take(i as int));
    }
    assert(all.take(i as int) =~= all);
    out
}

fn refers(routes: &RouteToReferenceMapping, key: &ResourceKey) -> (r: bool)
    ensures
        r == (referring(routes.deep_view(), key.deep_view()) > 0),
{
    let list = routes.entries();
    let ghost all = routes.deep_view();
    let mut i: usize = 0;
    while i < list.len()
        invariant
            i <= list.len(),
            list.deep_view() == all,
            all == routes.deep_view(),
            referring(all.take(i as int), key.deep_view()) == 0,
        decreases list.len() - i,
    {
        assert(all[i as int] == list[i as int].deep_view());
        assert(all.take(i + 1).drop_last() =~= all.take(i as int));
        if list[i].1.contains(key) {
            proof {
                referring_grows(all, i + 1, key.deep_view());
            }
            return true;
        }
        i = i + 1;
    }
    assert(all.take(i as int) =~= all);
    false
}

fn remove_route(routes: &RouteToReferenceMapping, route: &ResourceKey) -> (r:
    RouteToReferenceMapping)
    ensures
        r.deep_view() == without_route(route.deep_view())(routes.deep_view()),
{
    let mut rest = routes.dup();
    let _ = rest.remove(route);
    rest
}

impl MultiReferencesResolver {
    /// Forgets a route of all gateways, with what it refers to. The number that is kept for an object
    /// falls by one where the route referred to it, however many gateways had the route. The gateways
    /// that had it are given back.
    pub fn delete_route_references(&mut self, route_key: &ResourceKey) -> (r: OrderedSet<ResourceKey>)
        ensures
            final(self).gateways() == revalued(
                old(self).gateways(),
                without_route(route_key.deep_view()),
            ),
            forall|k: ResourceKeyView|
                #[trigger] count_of(final(self).counts(), k) == count_of(old(self).counts(), k)
                    - if gateways_referring(old(self).gateways(), route_key.deep_view(), k) > 0 {
                    1nat
                } else {
                    0nat
                },
            final(self).found() == old(self).found().remove_keys(
                dropped(old(self).counts(), final(self).counts()),
            ),
            final(self).holds(),
            r.deep_view().to_set() == gateways_with(
                old(self).gateways(),
                route_key.deep_view(),
            ),
    {
        proof {
            use_type_invariant(&*self);
        }
        let ghost gateways = self.gateways();
        let ghost counts = self.counts();
        let ghost route = route_key.deep_view();
        let mut mapping: GatewayToRouteReferenceMapping = OrderedMap::new();
        let mut references = References::new();
        std::mem::swap(&mut mapping, &mut self.gateway_route_reference_mapping);
        std::mem::swap(&mut references, &mut self.references);
        let mut affected: OrderedSet<ResourceKey> = OrderedSet::new();
        let mut referred: OrderedSet<ResourceKey> = OrderedSet::new();
        {
            let list = mapping.entries();
            let mut i: usize = 0;
            assert(affected.deep_view().to_set() =~= gateways_with(gateways.take(0), route));
            while i < list.len()
                invariant
                    i <= list.len(),
                    list.deep_view() == gateways,
                    route == route_key.deep_view(),
                    affected.deep_view().to_set() == gateways_with(gateways.take(i as int), route),
                    forall|k: ResourceKeyView|
                        #[trigger] referred.deep_view().to_set().contains(k) <==> gateways_referring(
                            gateways.take(i as int),
                            route,
                            k,
                        ) > 0,
                decreases list.len() - i,
            {
                let ghost before = affected.deep_view().to_set();
                let ghost held = referred.deep_view().to_set();
                let ghost now = gateways.take(i as int);
                let ghost next = gateways.take(i + 1);
                assert(gateways[i as int] == list[i as int].deep_view());
                assert(next.drop_last() =~= now);
                match list[i].1.get(route_key) {
                    Some(items) => {
                        affected.insert(list[i].0.dup());
                        referred.insert_each(items.items());
                    },
                    None => {},
                }
                proof {
                    assert forall|g: ResourceKeyView|
                        affected.deep_view().to_set().contains(g) <==> gateways_with(
                            next,
                            route,
                        ).contains(g) by {
                        if before.contains(g) {
                            let j = choose|j: int|
                                0 <= j < now.len() && (#[trigger] now[j]).0 == g && keys(
                                    now[j].1,
                                ).contains(route);
                            assert(next[j] == now[j]);
                        }
                        if gateways_with(next, route).contains(g) {
                            let j = choose|j: int|
                                0 <= j < next.len() && (#[trigger] next[j]).0 == g && keys(
                                    next[j].1,
                                ).contains(route);
                            if j < i {
                                assert(now[j] == next[j]);
                            }
                        }
                        if gateways[i as int].0 == g && keys(gateways[i as int].1).contains(route) {
                            assert(next[i as int] == gateways[i as int]);
                        }
                    }
                    assert(affected.deep_view().to_set() =~= gateways_with(next, route));
                    assert forall|k: ResourceKeyView| #[trigger]
                        referred.deep_view().to_set().contains(k) <==> gateways_referring(
                            next,
                            route,
                            k,
                        ) > 0 by {
                        assert(held.contains(k) <==> gateways_referring(now, route, k) > 0);
                    }
                }
                i = i + 1;
            }
            assert(gateways.take(i as int) =~= gateways);
        }
        assert forall|k: ResourceKeyView| #[trigger] referred.deep_view().contains(k)
            <==> gateways_referring(gateways, route, k) > 0 by {
            assert(referred.deep_view().to_set().contains(k) <==> gateways_referring(
                gateways,
                route,
                k,
            ) > 0);
        }
        take_each(&mut references.parents, &referred);
        let ghost lowered = references.counts();
        let rest = mapping.revalue(
            |routes: &RouteToReferenceMapping| -> (y: RouteToReferenceMapping)
                ensures y.deep_view() == without_route(route_key.deep_view())(routes.deep_view())
            { remove_route(routes, route_key) },
            Ghost(without_route(route_key.deep_view())),
        );
        references.forget_spent();
        proof {
            let after = references.counts();
            let next = rest.deep_view();
            assert forall|k: ResourceKeyView| #[trigger] count_of(lowered, k) == count_of(counts, k)
                - if gateways_referring(gateways, route, k) > 0 {
                1nat
            } else {
                0nat
            } by {
                sum_without(gateways, route, k);
                assert(referring_in_all(gateways, k) <= count_of(counts, k));
                assert(referred.deep_view().contains(k) <==> gateways_referring(gateways, route, k)
                    > 0);
            }
            assert forall|k: ResourceKeyView| #[trigger] count_of(after, k) == count_of(counts, k)
                - if gateways_referring(gateways, route, k) > 0 {
                1nat
            } else {
                0nat
            } by {
                assert(count_of(lowered, k) >= 0);
            }
            assert forall|k: ResourceKeyView| referring_in_all(next, k) <= #[trigger] count_of(
                after,
                k,
            ) by {
                sum_without(gateways, route, k);
                assert(referring_in_all(gateways, k) <= count_of(counts, k));
            }
            assert forall|i: int| 0 <= i < next.len() implies increasing::<ResourceKey>(
                keys((#[trigger] next[i]).1),
            ) by {
                assert(increasing::<ResourceKey>(keys(gateways[i].1)));
                law_drop_key::<ResourceKey, Seq<ResourceKeyView>>(gateways[i].1, route);
            }
            assert forall|k: ResourceKeyView| spent(lowered).contains(k) <==> dropped(
                counts,
                after,
            ).contains(k) by {
                assert(count_of(lowered, k) >= 0);
            }
            assert(spent(lowered) =~= dropped(counts, after));
        }
        self.references = references;
        self.gateway_route_reference_mapping = rest;
        affected
    }

    /// What is to be told of an object that changed: the gateways that have a route that refers to
    /// it, and all routes of those gateways.
    pub fn update_gateways(&self, key: &ResourceKey) -> (r: ReferenceUpdate)
        ensures
            r.reference.deep_view() == key.deep_view(),
            r.gateways.deep_view().to_set() == gateways_affected(
                self.gateways(),
                key.deep_view(),
            ),
            r.routes.deep_view().to_set() == routes_affected(self.gateways(), key.deep_view()),
    {
        let list = self.gateway_route_reference_mapping.entries();
        let ghost all = self.gateways();
        let ghost wanted = key.deep_view();
        let mut gateways: OrderedSet<ResourceKey> = OrderedSet::new();
        let mut routes: OrderedSet<ResourceKey> = OrderedSet::new();
        let mut i: usize = 0;
        assert(gateways.deep_view().to_set() =~= gateways_affected(all.take(0), wanted));
        assert(routes.deep_view().to_set() =~= routes_affected(all.take(0), wanted));
        while i < list.len()
            invariant
                i <= list.len(),
                list.deep_view() == all,
                wanted == key.deep_view(),
                gateways.deep_view().to_set() == gateways_affected(all.take(i as int), wanted),
                routes.deep_view().to_set() == routes_affected(all.take(i as int), wanted),
            decreases list.len() - i,
        {
            let ghost now = all.take(i as int);
            let ghost next = all.take(i + 1);
            let ghost first = gateways.deep_view().to_set();
            let ghost second = routes.deep_view().to_set();
            assert(all[i as int] == list[i as int].deep_view());
            if refers(&list[i].1, key) {
                gateways.insert(list[i].0.dup());
                let more = list_keys(&list[i].1);
                routes.insert_each(&more);
            }
            proof {
                assert(next[i as int] == all[i as int]);
                assert forall|g: ResourceKeyView|
                    gateways.deep_view().to_set().contains(g) <==> gateways_affected(
                        next,
                        wanted,
                    ).contains(g) by {
                    if first.contains(g) {
                        let j = choose|j: int|
                            0 <= j < now.len() && (#[trigger] now[j]).0 == g && referring(
                                now[j].1,
                                wanted,
                            ) > 0;
                        assert(next[j] == now[j]);
                    }
                    if gateways_affected(next, wanted).contains(g) {
                        let j = choose|j: int|
                            0 <= j < next.len() && (#[trigger] next[j]).0 == g && referring(
                                next[j].1,
                                wanted,
                            ) > 0;
                        if j < i {
                            assert(now[j] == next[j]);
                        }
                    }
                }
                assert(gateways.deep_view().to_set() =~= gateways_affected(next, wanted));
                assert forall|r: ResourceKeyView|
                    routes.deep_view().to_set().contains(r) <==> routes_affected(
                        next,
                        wanted,
                    ).contains(r) by {
                    if second.contains(r) {
                        let j = choose|j: int|
                            0 <= j < now.len() && referring((#[trigger] now[j]).1, wanted) > 0
                                && keys(now[j].1).contains(r);
                        assert(next[j] == now[j]);
                    }
                    if routes_affected(next, wanted).contains(r) {
                        let j = choose|j: int|
                            0 <= j < next.len() && referring((#[trigger] next[j]).1, wanted) > 0
                                && keys(next[j].1).contains(r);
                        if j < i {
                            assert(now[j] == next[j]);
                        }
                    }
                }
                assert(routes.deep_view().to_set() =~= routes_affected(next, wanted));
            }
            i = i + 1;
        }
        assert(all.take(i as int) =~= all);
        ReferenceUpdate { reference: key.dup(), gateways, routes }
    }

    /// Takes the outcome of looking for an object. What is to be told is given back where the outcome
    /// is news: the object was found for the first time, or differs in more than its metadata, or is
    /// no longer found.
    pub fn on_lookup(&mut self, key: &ResourceKey, outcome: Option<ResolvedReference>) -> (r: Option<
        ReferenceUpdate,
    >)
        ensures
            final(self).gateways() == old(self).gateways(),
            final(self).counts() == old(self).counts(),
            final(self).holds(),
            r is Some <==> match outcome {
                Some(reference) => old(self).found().contains_key(key.deep_view()) ==> old(
                    self,
                ).found()[key.deep_view()].content != reference.content@,
                None => old(self).found().contains_key(key.deep_view()),
            },
            final(self).found() == (match outcome {
                Some(reference) => if r is Some {
                    old(self).found().insert(key.deep_view(), reference.deep_view())
                } else {
                    old(self).found()
                },
                None => old(self).found().remove(key.deep_view()),
            }),
            r matches Some(update) ==> {
                &&& update.reference.deep_view() == key.deep_view()
                &&& update.gateways.deep_view().to_set() == gateways_affected(
                    old(self).gateways(),
                    key.deep_view(),
                )
                &&& update.routes.deep_view().to_set() == routes_affected(
                    old(self).gateways(),
                    key.deep_view(),
                )
            },
    {
        proof {
            use_type_invariant(&*self);
        }
        let mut mapping: GatewayToRouteReferenceMapping = OrderedMap::new();
        let mut references = References::new();
        std::mem::swap(&mut mapping, &mut self.gateway_route_reference_mapping);
        std::mem::swap(&mut references, &mut self.references);
        let news = match outcome {
            Some(reference) => references.add_resolved_reference(key, reference),
            None => references.remove_resolved_reference(key).is_some(),
        };
        self.references = references;
        self.gateway_route_reference_mapping = mapping;
        if news {
            Some(self.update_gateways(key))
        } else {
            None
        }
    }
}

/// A route more raises the number of routes that refer to an object by one where it refers to it, and
/// else not at all.
pub proof fn law_referring_counts(
    routes: Seq<(ResourceKeyView, Seq<ResourceKeyView>)>,
    route: (ResourceKeyView, Seq<ResourceKeyView>),
    key: ResourceKeyView,
)
    ensures
        route.1.contains(key) ==> referring(routes.push(route), key) == referring(routes, key) + 1,
        !route.1.contains(key) ==> referring(routes.push(route), key) == referring(routes, key),
        routes.len() == 0 ==> referring(routes, key) == 0,
        referring(routes, key) <= routes.len(),
        referring(routes, key) > 0 <==> exists|i: int|
            0 <= i < routes.len() && (#[trigger] routes[i]).1.contains(key),
    decreases routes.len(),
{
    assert(routes.push(route).drop_last() =~= routes);
    if routes.len() > 0 {
        law_referring_counts(routes.drop_last(), routes.last(), key);
        assert(routes =~= routes.drop_last().push(routes.last()));
    }
    if referring(routes, key) > 0 {
        referred_by_some(routes, key);
    }
    if exists|i: int| 0 <= i < routes.len() && (#[trigger] routes[i]).1.contains(key) {
        let i = choose|i: int| 0 <= i < routes.len() && (#[trigger] routes[i]).1.contains(key);
        if i < routes.len() - 1 {
            assert(routes.drop_last()[i].1.contains(key));
        }
    }
}

/// The number of routes that refer to an object is the sum of those of each gateway.
pub proof fn law_referring_in_all_counts(
    gateways: Seq<(ResourceKeyView, Seq<(ResourceKeyView, Seq<ResourceKeyView>)>)>,
    gateway: (ResourceKeyView, Seq<(ResourceKeyView, Seq<ResourceKeyView>)>),
    key: ResourceKeyView,
)
    ensures
        referring_in_all(gateways.push(gateway), key) == referring_in_all(gateways, key) + referring(
            gateway.1,
            key,
        ),
        gateways.len() == 0 ==> referring_in_all(gateways, key) == 0,
{
    assert(gateways.push(gateway).drop_last() =~= gateways);
}

/// A gateway is affected by a change of an object where one of its routes refers to the object, and then
/// all of its routes are.
pub proof fn law_affected_by_change(
    gateways: Seq<(ResourceKeyView, Seq<(ResourceKeyView, Seq<ResourceKeyView>)>)>,
    key: ResourceKeyView,
    i: int,
    j: int,
    k: int,
)
    requires
        0 <= i < gateways.len(),
        0 <= j < gateways[i].1.len(),
        0 <= k < gateways[i].1.len(),
        gateways[i].1[j].1.contains(key),
    ensures
        gateways_affected(gateways, key).contains(gateways[i].0),
        routes_affected(gateways, key).contains(gateways[i].1[k].0),
{
    let routes = gateways[i].1;
    law_referring_counts(routes, routes[j], key);
    assert(routes[j].1.contains(key));
    assert(keys(routes)[k] == routes[k].0);
    assert(keys(routes).contains(routes[k].0));
}

/// No gateway and no route is affected but by a route of the gateway that refers to the object.
pub proof fn law_only_affected_by_change(
    gateways: Seq<(ResourceKeyView, Seq<(ResourceKeyView, Seq<ResourceKeyView>)>)>,
    key: ResourceKeyView,
    affected: ResourceKeyView,
)
    ensures
        gateways_affected(gateways, key).contains(affected) ==> exists|i: int, j: int|
            0 <= i < gateways.len() && gateways[i].0 == affected && 0 <= j < gateways[i].1.len() && (
            #[trigger] gateways[i].1[j]).1.contains(key),
        routes_affected(gateways, key).contains(affected) ==> exists|i: int, j: int, k: int|
            0 <= i < gateways.len() && 0 <= j < gateways[i].1.len() && 0 <= k < gateways[i].1.len()
                && (#[trigger] gateways[i].1[j]).1.contains(key) && (
            #[trigger] gateways[i].1[k]).0 == affected,
{
    if gateways_affected(gateways, key).contains(affected) {
        let i = choose|i: int|
            0 <= i < gateways.len() && (#[trigger] gateways[i]).0 == affected && referring(
                gateways[i].1,
                key,
            ) > 0;
        referred_by_some(gateways[i].1, key);
        let j = choose|j: int|
            0 <= j < gateways[i].1.len() && (#[trigger] gateways[i].1[j]).1.contains(key);
        assert(gateways[i].1[j].1.contains(key));
    }
    if routes_affected(gateways, key).contains(affected) {
        let i = choose|i: int|
            0 <= i < gateways.len() && referring((#[trigger] gateways[i]).1, key) > 0 && keys(
                gateways[i].1,
            ).contains(affected);
        referred_by_some(gateways[i].1, key);
        let j = choose|j: int|
            0 <= j < gateways[i].1.len() && (#[trigger] gateways[i].1[j]).1.contains(key);
        let k = choose|k: int| 0 <= k < gateways[i].1.len() && keys(gateways[i].1)[k] == affected;
        assert(gateways[i].1[j].1.contains(key));
        assert(gateways[i].1[k].0 == affected);
    }
}

/// A gateway has a route where the route is among its routes.
pub proof fn law_gateways_with(
    gateways: Seq<(ResourceKeyView, Seq<(ResourceKeyView, Seq<ResourceKeyView>)>)>,
    route: ResourceKeyView,
    gateway: ResourceKeyView,
)
    ensures
        gateways_with(gateways, route).contains(gateway) <==> exists|i: int, j: int|
            0 <= i < gateways.len() && 0 <= j < gateways[i].1.len() && gateways[i].0 == gateway && (
            #[trigger] gateways[i].1[j]).0 == route,
{
    if gateways_with(gateways, route).contains(gateway) {
        let i = choose|i: int|
            0 <= i < gateways.len() && (#[trigger] gateways[i]).0 == gateway && keys(
                gateways[i].1,
            ).contains(route);
        let j = choose|j: int| 0 <= j < gateways[i].1.len() && keys(gateways[i].1)[j] == route;
        assert(gateways[i].1[j].0 == route);
    }
    if exists|i: int, j: int|
        0 <= i < gateways.len() && 0 <= j < gateways[i].1.len() && gateways[i].0 == gateway && (
        #[trigger] gateways[i].1[j]).0 == route {
        let (i, j) = choose|i: int, j: int|
            0 <= i < gateways.len() && 0 <= j < gateways[i].1.len() && gateways[i].0 == gateway && (
            #[trigger] gateways[i].1[j]).0 == route;
        assert(keys(gateways[i].1)[j] == route);
        assert(keys(gateways[i].1).contains(route));
    }
}

/// A route that was taken out is no longer there; all others are, with what they refer to.
pub proof fn law_without_route(
    routes: Seq<(ResourceKeyView, Seq<ResourceKeyView>)>,
    route: ResourceKeyView,
)
    requires
        increasing::<ResourceKey>(keys(routes)),
    ensures
        table(without_route(route)(routes)) == table(routes).remove(route),
{
    law_drop_key::<ResourceKey, Seq<ResourceKeyView>>(routes, route);
}

} // verus!
