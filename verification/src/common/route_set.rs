//! Sets of routes, in which no two have the same key.
use vstd::prelude::*;
use crate::common::resource_key::{ResourceKey, ResourceKeyView};
use crate::common::route::{Route, RouteView};
use crate::model::Model;
use crate::ordered::{
    OrderedMap,
    hits_is_contains,
    increasing,
    keys,
    law_put,
    put,
    slot_bounds,
    table,
    table_of_entry,
    values,
};

verus! {

/// The keys of routes.
pub open spec fn route_keys(routes: Seq<RouteView>) -> Seq<ResourceKeyView> {
    Seq::new(routes.len(), |i: int| routes[i].config.resource_key)
}

/// Routes under their keys.
pub open spec fn keyed(routes: Seq<RouteView>) -> Seq<(ResourceKeyView, RouteView)> {
    Seq::new(routes.len(), |i: int| (routes[i].config.resource_key, routes[i]))
}

/// The routes with one more, in place of the one that had its key.
pub open spec fn with_route(routes: Seq<RouteView>, route: RouteView) -> Seq<RouteView> {
    values(put::<ResourceKey, RouteView>(keyed(routes), route.config.resource_key, route))
}

/// The routes with one more, unless one has its key.
pub open spec fn with_new_route(routes: Seq<RouteView>, route: RouteView) -> Seq<RouteView> {
    if route_keys(routes).contains(route.config.resource_key) {
        routes
    } else {
        with_route(routes, route)
    }
}

/// The routes with others, each in place of the one that had its key.
pub open spec fn with_routes(routes: Seq<RouteView>, others: Seq<RouteView>) -> Seq<RouteView>
    decreases others.len(),
{
    if others.len() == 0 {
        routes
    } else {
        with_route(with_routes(routes, others.drop_last()), others.last())
    }
}

proof fn keyed_put(routes: Seq<RouteView>, route: RouteView)
    requires
        increasing::<ResourceKey>(route_keys(routes)),
    ensures
        keyed(with_route(routes, route)) == put::<ResourceKey, RouteView>(
            keyed(routes),
            route.config.resource_key,
            route,
        ),
        increasing::<ResourceKey>(route_keys(with_route(routes, route))),
{
    let entries = keyed(routes);
    let key = route.config.resource_key;
    assert(keys(entries) =~= route_keys(routes));
    law_put::<ResourceKey, RouteView>(entries, key, route);
    let next = put::<ResourceKey, RouteView>(entries, key, route);
    slot_bounds::<ResourceKey>(keys(entries), key);
    assert forall|i: int| 0 <= i < next.len() implies next[i].0 == (
    #[trigger] next[i]).1.config.resource_key by {
    }
    assert(keyed(with_route(routes, route)) =~= next);
    assert(route_keys(with_route(routes, route)) =~= keys(next));
}

/// A set of routes, in which no two have the same key, in the order of their keys.
#[derive(Debug, PartialEq, Eq)]
pub struct RouteSet {
    routes: OrderedMap<ResourceKey, Route>,
}

impl DeepView for RouteSet {
    type V = Seq<RouteView>;

    closed spec fn deep_view(&self) -> Seq<RouteView> {
        values(self.routes.deep_view())
    }
}

impl RouteSet {
    #[verifier::type_invariant]
    spec fn is_keyed(self) -> bool {
        &&& self.routes.deep_view() == keyed(values(self.routes.deep_view()))
        &&& increasing::<ResourceKey>(keys(self.routes.deep_view()))
    }

    /// The set with no route.
    pub fn new() -> (r: Self)
        ensures
            r.deep_view() == Seq::<RouteView>::empty(),
    {
        let routes: OrderedMap<ResourceKey, Route> = OrderedMap::new();
        assert(routes.deep_view() =~= keyed(values(routes.deep_view())));
        assert(values(routes.deep_view()) =~= Seq::<RouteView>::empty());
        RouteSet { routes }
    }

    /// The number of routes.
    pub fn len(&self) -> (r: usize)
        ensures
            r == self.deep_view().len(),
    {
        self.routes.len()
    }

    /// The routes, in the order of their keys.
    pub fn items(&self) -> (r: Vec<&Route>)
        ensures
            r.deep_view() == self.deep_view(),
            increasing::<ResourceKey>(route_keys(self.deep_view())),
    {
        proof {
            use_type_invariant(self);
            assert(route_keys(self.deep_view()) =~= keys(self.routes.deep_view()));
        }
        let entries = self.routes.entries();
        let mut out: Vec<&Route> = Vec::new();
        let mut i: usize = 0;
        while i < entries.len()
            invariant
                i <= entries.len(),
                entries.deep_view() == self.routes.deep_view(),
                out.deep_view() == self.deep_view().take(i as int),
                self.deep_view() == values(self.routes.deep_view()),
            decreases entries.len() - i,
        {
            let ghost before = out.deep_view();
            out.push(&entries[i].1);
            assert(entries.deep_view()[i as int].1 == entries[i as int].1.deep_view());
            assert(out.deep_view() =~= before.push(entries[i as int].1.deep_view()));
            i = i + 1;
            assert(out.deep_view() =~= self.deep_view().take(i as int));
        }
        assert(self.deep_view().take(i as int) =~= self.deep_view());
        out
    }

    /// Adds a route, unless one has its key.
    pub fn insert(&mut self, route: Route)
        ensures
            final(self).deep_view() == with_new_route(old(self).deep_view(), route.deep_view()),
    {
        proof {
            use_type_invariant(&*self);
            assert(keys(self.routes.deep_view()) =~= route_keys(self.deep_view()));
        }
        if !self.routes.contains_key(&route.config.resource_key) {
            self.replace(route);
        }
    }

    /// Adds a route, in place of the one that had its key.
    pub fn replace(&mut self, route: Route)
        ensures
            final(self).deep_view() == with_route(old(self).deep_view(), route.deep_view()),
    {
        proof {
            use_type_invariant(&*self);
        }
        let ghost before = self.deep_view();
        let ghost added = route.deep_view();
        proof {
            assert(keys(self.routes.deep_view()) =~= route_keys(before));
            keyed_put(before, added);
        }
        let mut routes: OrderedMap<ResourceKey, Route> = OrderedMap::new();
        assert(routes.deep_view() =~= keyed(values(routes.deep_view())));
        std::mem::swap(&mut routes, &mut self.routes);
        let key = route.config.resource_key.dup();
        routes.insert(key, route);
        assert(routes.deep_view() == keyed(with_route(before, added)));
        assert(values(routes.deep_view()) =~= with_route(before, added));
        self.routes = routes;
    }

    /// Adds the routes of another set, each in place of the one that had its key.
    pub fn append(&mut self, others: &RouteSet)
        ensures
            final(self).deep_view() == with_routes(old(self).deep_view(), others.deep_view()),
    {
        let added = others.items();
        let mut i: usize = 0;
        let ghost before = self.deep_view();
        assert(others.deep_view().take(0) =~= Seq::<RouteView>::empty());
        while i < added.len()
            invariant
                i <= added.len(),
                added.deep_view() == others.deep_view(),
                self.deep_view() == with_routes(before, others.deep_view().take(i as int)),
            decreases added.len() - i,
        {
            let route = added[i].dup();
            assert(others.deep_view()[i as int] == route.deep_view());
            self.replace(route);
            assert(others.deep_view().take(i + 1).drop_last() =~= others.deep_view().take(i as int));
            i = i + 1;
        }
        assert(others.deep_view().take(i as int) =~= others.deep_view());
    }
}

impl Model for RouteSet {
    fn dup(&self) -> (r: Self) {
        proof {
            use_type_invariant(self);
        }
        let routes = self.routes.dup();
        RouteSet { routes }
    }

    fn same(&self, other: &Self) -> (r: bool) {
        proof {
            use_type_invariant(self);
            use_type_invariant(other);
        }
        self.routes.same(&other.routes)
    }
}

/// A route that is put among routes takes the place of the one that had its key, and leaves the others
/// as they are.
pub proof fn law_with_route(routes: Seq<RouteView>, route: RouteView)
    requires
        increasing::<ResourceKey>(route_keys(routes)),
    ensures
        increasing::<ResourceKey>(route_keys(with_route(routes, route))),
        forall|other: RouteView| #[trigger]
            with_route(routes, route).contains(other) <==> other == route || (routes.contains(other)
                && other.config.resource_key != route.config.resource_key),
{
    let key = route.config.resource_key;
    let entries = keyed(routes);
    let after = with_route(routes, route);
    keyed_put(routes, route);
    assert(keys(entries) =~= route_keys(routes));
    law_put::<ResourceKey, RouteView>(entries, key, route);
    assert(keys(keyed(after)) =~= route_keys(after));
    assert forall|other: RouteView| #[trigger] after.contains(other) <==> other == route || (
    routes.contains(other) && other.config.resource_key != key) by {
        let at = other.config.resource_key;
        if after.contains(other) {
            let i = choose|i: int| 0 <= i < after.len() && after[i] == other;
            table_of_entry::<ResourceKey, RouteView>(keyed(after), i);
            assert(table(keyed(after))[at] == other);
            if at != key {
                assert(table(entries).contains_key(at));
                let j = choose|j: int| 0 <= j < entries.len() && keys(entries)[j] == at;
                table_of_entry::<ResourceKey, RouteView>(entries, j);
                assert(routes[j] == other);
            }
        }
        if other == route {
            assert(table(keyed(after)).contains_key(key));
            let i = choose|i: int| 0 <= i < after.len() && keys(keyed(after))[i] == key;
            table_of_entry::<ResourceKey, RouteView>(keyed(after), i);
            assert(after[i] == route);
        } else if routes.contains(other) && at != key {
            let j = choose|j: int| 0 <= j < routes.len() && routes[j] == other;
            table_of_entry::<ResourceKey, RouteView>(entries, j);
            assert(table(keyed(after)).contains_key(at));
            let i = choose|i: int| 0 <= i < after.len() && keys(keyed(after))[i] == at;
            table_of_entry::<ResourceKey, RouteView>(keyed(after), i);
            assert(after[i] == other);
        }
    }
}

/// A route that is new is put among routes; where one has its key already, that one stays.
pub proof fn law_with_new_route(routes: Seq<RouteView>, route: RouteView)
    requires
        increasing::<ResourceKey>(route_keys(routes)),
    ensures
        increasing::<ResourceKey>(route_keys(with_new_route(routes, route))),
        forall|other: RouteView| #[trigger]
            routes.contains(other) ==> with_new_route(routes, route).contains(other),
        (exists|i: int|
            0 <= i < routes.len() && (#[trigger] routes[i]).config.resource_key
                == route.config.resource_key) ==> with_new_route(routes, route) == routes,
        (forall|i: int|
            0 <= i < routes.len() ==> (#[trigger] routes[i]).config.resource_key
                != route.config.resource_key) ==> with_new_route(routes, route).contains(route)
            && with_new_route(routes, route).len() == routes.len() + 1,
{
    let key = route.config.resource_key;
    let all = route_keys(routes);
    if exists|i: int| 0 <= i < routes.len() && (#[trigger] routes[i]).config.resource_key == key {
        let i = choose|i: int| 0 <= i < routes.len() && (#[trigger] routes[i]).config.resource_key == key;
        assert(all[i] == key);
        assert(all.contains(key));
    } else {
        if all.contains(key) {
            let i = choose|i: int| 0 <= i < all.len() && all[i] == key;
            assert(routes[i].config.resource_key == key);
        }
        law_with_route(routes, route);
        assert forall|other: RouteView| #[trigger] routes.contains(other) implies with_new_route(
            routes,
            route,
        ).contains(other) by {
            let i = choose|i: int| 0 <= i < routes.len() && routes[i] == other;
            assert(routes[i].config.resource_key != key);
            assert(with_route(routes, route).contains(other));
        }
        assert(with_route(routes, route).contains(route));
        assert(keys(keyed(routes)) =~= all);
        hits_is_contains::<ResourceKey>(all, key);
        slot_bounds::<ResourceKey>(all, key);
    }
}

/// Routes that are put among routes are all there, where no two of them have one key; of the others
/// those are that have none of their keys.
pub proof fn law_with_routes(routes: Seq<RouteView>, others: Seq<RouteView>)
    requires
        increasing::<ResourceKey>(route_keys(routes)),
    ensures
        increasing::<ResourceKey>(route_keys(with_routes(routes, others))),
        forall|route: RouteView| #[trigger]
            with_routes(routes, others).contains(route) ==> routes.contains(route)
                || others.contains(route),
        forall|route: RouteView| #[trigger]
            routes.contains(route) && (forall|i: int|
                0 <= i < others.len() ==> (#[trigger] others[i]).config.resource_key
                    != route.config.resource_key) ==> with_routes(routes, others).contains(route),
        forall|i: int|
            0 <= i < others.len() && (forall|j: int|
                i < j < others.len() ==> (#[trigger] others[j]).config.resource_key
                    != others[i].config.resource_key) ==> with_routes(routes, others).contains(
                #[trigger] others[i],
            ),
    decreases others.len(),
{
    if others.len() > 0 {
        let shorter = others.drop_last();
        let last = others.last();
        let before = with_routes(routes, shorter);
        let after = with_routes(routes, others);
        law_with_routes(routes, shorter);
        law_with_route(before, last);
        assert(others[others.len() - 1] == last);
        assert forall|route: RouteView| #[trigger] after.contains(route) implies routes.contains(route)
            || others.contains(route) by {
            if route != last {
                assert(before.contains(route));
                if shorter.contains(route) {
                    let i = choose|i: int| 0 <= i < shorter.len() && shorter[i] == route;
                    assert(others[i] == route);
                }
            }
        }
        assert forall|route: RouteView| #[trigger]
            routes.contains(route) && (forall|i: int|
                0 <= i < others.len() ==> (#[trigger] others[i]).config.resource_key
                    != route.config.resource_key) implies after.contains(route) by {
            assert forall|i: int| 0 <= i < shorter.len() implies (
            #[trigger] shorter[i]).config.resource_key != route.config.resource_key by {
                assert(others[i] == shorter[i]);
            }
            assert(before.contains(route));
        }
        assert forall|i: int|
            0 <= i < others.len() && (forall|j: int|
                i < j < others.len() ==> (#[trigger] others[j]).config.resource_key
                    != others[i].config.resource_key) implies after.contains(#[trigger] others[i]) by {
            if i < shorter.len() {
                assert(others[i] == shorter[i]);
                assert forall|j: int| i < j < shorter.len() implies (
                #[trigger] shorter[j]).config.resource_key != shorter[i].config.resource_key by {
                    assert(others[j] == shorter[j]);
                }
                assert(before.contains(shorter[i]));
                assert(others[others.len() - 1].config.resource_key != others[i].config.resource_key);
            }
        }
    }
}

} // verus!
