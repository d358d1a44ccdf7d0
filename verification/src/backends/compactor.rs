//! Listeners by their ports and protocols, and routes with the listeners that they are attached to.
use vstd::prelude::*;
use crate::common::contexts::{RouteToListenersMapping, RouteToListenersMappingView};
use crate::common::kube::{GatewayListener, GatewayListenerView, KubeGateway};
use crate::common::listener::{ProtocolType, protocol_named};
use crate::common::route::{Route, RouteView};
use crate::backends::gateways::protocol_place;
use crate::lists::{append_list, map_list, no_items};
use crate::model::Model;
use crate::ordered::{OrderedMap, increasing, keys, law_put, put, table};

verus! {

/// The protocol that a listener speaks: HTTP where it is not known.
pub open spec fn protocol_of(listener: GatewayListenerView) -> ProtocolType {
    match protocol_named(listener.protocol) {
        Some(protocol) => protocol,
        None => ProtocolType::Http,
    }
}

/// The listeners by their ports and then by their protocols, with their names and hostnames, after one
/// more listener.
pub open spec fn with_compacted(
    made: Seq<(i32, Seq<(u8, Seq<(Seq<char>, Option<Seq<char>>)>)>)>,
    listener: GatewayListenerView,
) -> Seq<(i32, Seq<(u8, Seq<(Seq<char>, Option<Seq<char>>)>)>)> {
    let at_port = if keys(made).contains(listener.port) {
        table(made)[listener.port]
    } else {
        Seq::empty()
    };
    let place = protocol_place(protocol_of(listener));
    let list = if keys(at_port).contains(place) {
        table(at_port)[place]
    } else {
        Seq::empty()
    };
    put::<i32, Seq<(u8, Seq<(Seq<char>, Option<Seq<char>>)>)>>(
        made,
        listener.port,
        put::<u8, Seq<(Seq<char>, Option<Seq<char>>)>>(
            at_port,
            place,
            list.push((listener.name, listener.hostname)),
        ),
    )
}

/// The listeners by their ports and then by their protocols, with their names and hostnames.
pub open spec fn compacted_listeners(listeners: Seq<GatewayListenerView>) -> Seq<
    (i32, Seq<(u8, Seq<(Seq<char>, Option<Seq<char>>)>)>),
>
    decreases listeners.len(),
{
    if listeners.len() == 0 {
        Seq::empty()
    } else {
        with_compacted(compacted_listeners(listeners.drop_last()), listeners.last())
    }
}

/// The listeners by their places among the protocols, with their names and hostnames.
pub type ListenersByProtocol = OrderedMap<u8, Vec<(String, Option<String>)>>;

fn speaks(listener: &GatewayListener) -> (r: u8)
    ensures
        r == protocol_place(protocol_of(listener.deep_view())),
{
    match ProtocolType::named(listener.protocol.as_str()) {
        Some(ProtocolType::Unknown) => 0,
        Some(ProtocolType::Http) => 1,
        Some(ProtocolType::Https) => 2,
        Some(ProtocolType::Tcp) => 3,
        Some(ProtocolType::Tls) => 4,
        Some(ProtocolType::Udp) => 5,
        None => 1,
    }
}

fn compact(made: &mut OrderedMap<i32, ListenersByProtocol>, listener: &GatewayListener)
    ensures
        final(made).deep_view() == with_compacted(old(made).deep_view(), listener.deep_view()),
{
    let mut at_port = match made.get(&listener.port) {
        Some(at_port) => at_port.dup(),
        None => OrderedMap::new(),
    };
    let place: u8 = speaks(listener);
    let mut list = match at_port.get(&place) {
        Some(list) => list.dup(),
        None => no_items(),
    };
    let ghost before = list.deep_view();
    let entry = (listener.name.dup(), listener.hostname.dup());
    list.push(entry);
    assert(list.deep_view() =~= before.push(entry.deep_view()));
    at_port.insert(place, list);
    made.insert(listener.port, at_port);
}

/// The listeners of a gateway by their ports and then by their protocols.
pub fn collapse_listeners(gateway: &KubeGateway) -> (r: OrderedMap<i32, ListenersByProtocol>)
    ensures
        r.deep_view() == compacted_listeners(gateway.deep_view().listeners),
{
    let ghost all = gateway.listeners.deep_view();
    let mut made: OrderedMap<i32, ListenersByProtocol> = OrderedMap::new();
    let mut i: usize = 0;
    assert(all.take(0) =~= Seq::<GatewayListenerView>::empty());
    while i < gateway.listeners.len()
        invariant
            i <= gateway.listeners.len(),
            all == gateway.listeners.deep_view(),
            made.deep_view() == compacted_listeners(all.take(i as int)),
        decreases gateway.listeners.len() - i,
    {
        compact(&mut made, &gateway.listeners[i]);
        assert(all[i as int] == gateway.listeners[i as int].deep_view());
        assert(all.take(i + 1).drop_last() =~= all.take(i as int));
        i = i + 1;
    }
    assert(all.take(i as int) =~= all);
    made
}

/// A route, with the names of the listeners that it is attached to, and as it is attached there.
#[derive(Debug)]
pub struct CollapsedRoute {
    pub name: String,
    pub namespace: String,
    pub listener_names: Vec<(String, Route)>,
}

/// What a [`CollapsedRoute`] holds.
#[verifier::ext_equal]
pub struct CollapsedRouteView {
    pub name: Seq<char>,
    pub namespace: Seq<char>,
    pub listener_names: Seq<(Seq<char>, RouteView)>,
}

impl DeepView for CollapsedRoute {
    type V = CollapsedRouteView;

    open spec fn deep_view(&self) -> CollapsedRouteView {
        CollapsedRouteView {
            name: self.name.deep_view(),
            namespace: self.namespace.deep_view(),
            listener_names: self.listener_names.deep_view(),
        }
    }
}

impl Model for CollapsedRoute {
    fn dup(&self) -> (r: Self) {
        CollapsedRoute {
            name: self.name.dup(),
            namespace: self.namespace.dup(),
            listener_names: self.listener_names.dup(),
        }
    }

    fn same(&self, other: &Self) -> (r: bool) {
        self.name.same(&other.name)
            && self.namespace.same(&other.namespace)
            && self.listener_names.same(&other.listener_names)
    }
}

/// The name of a listener, with a route that is attached to it.
pub open spec fn attached(route: RouteView) -> spec_fn(GatewayListenerView) -> (
    Seq<char>,
    RouteView,
) {
    |listener: GatewayListenerView| (listener.name, route)
}

/// The routes by their names and namespaces, after one more mapping.
pub open spec fn with_collapsed_route(
    made: Seq<((Seq<char>, Seq<char>), CollapsedRouteView)>,
    mapping: RouteToListenersMappingView,
) -> Seq<((Seq<char>, Seq<char>), CollapsedRouteView)> {
    let route_key = mapping.route.config.resource_key;
    let key = (route_key.name, route_key.namespace);
    let before = if keys(made).contains(key) {
        table(made)[key]
    } else {
        CollapsedRouteView { name: key.0, namespace: key.1, listener_names: Seq::empty() }
    };
    put::<(String, String), CollapsedRouteView>(
        made,
        key,
        CollapsedRouteView {
            listener_names: before.listener_names + mapping.listeners.map_values(
                attached(mapping.route),
            ),
            ..before
        },
    )
}

/// The routes by their names and namespaces, with the listeners that they are attached to.
pub open spec fn collapsed_routes(mappings: Seq<RouteToListenersMappingView>) -> Seq<
    ((Seq<char>, Seq<char>), CollapsedRouteView),
>
    decreases mappings.len(),
{
    if mappings.len() == 0 {
        Seq::empty()
    } else {
        with_collapsed_route(collapsed_routes(mappings.drop_last()), mappings.last())
    }
}

fn collapse_route(
    made: &mut OrderedMap<(String, String), CollapsedRoute>,
    mapping: &RouteToListenersMapping,
)
    ensures
        final(made).deep_view() == with_collapsed_route(
            old(made).deep_view(),
            mapping.deep_view(),
        ),
{
    let route = &mapping.route;
    let key = (route.name().to_owned(), route.namespace().dup());
    let before = match made.get(&key) {
        Some(before) => before.dup(),
        None => CollapsedRoute {
            name: route.name().to_owned(),
            namespace: route.namespace().dup(),
            listener_names: no_items(),
        },
    };
    let more = map_list(
        &mapping.listeners,
        |listener: &GatewayListener| -> (y: (String, Route))
            ensures y.deep_view() == attached(route.deep_view())(listener.deep_view())
        { (listener.name.dup(), route.dup()) },
        Ghost(attached(route.deep_view())),
    );
    let next = CollapsedRoute {
        name: before.name,
        namespace: before.namespace,
        listener_names: append_list(before.listener_names, more),
    };
    made.insert(key, next);
}

/// The routes by their names and namespaces, with the listeners that they are attached to.
pub fn collapse_routes(mappings: &Vec<RouteToListenersMapping>) -> (r: OrderedMap<
    (String, String),
    CollapsedRoute,
>)
    ensures
        r.deep_view() == collapsed_routes(mappings.deep_view()),
{
    let ghost all = mappings.deep_view();
    let mut made: OrderedMap<(String, String), CollapsedRoute> = OrderedMap::new();
    let mut i: usize = 0;
    assert(all.take(0) =~= Seq::<RouteToListenersMappingView>::empty());
    while i < mappings.len()
        invariant
            i <= mappings.len(),
            mappings.deep_view() == all,
            made.deep_view() == collapsed_routes(all.take(i as int)),
        decreases mappings.len() - i,
    {
        collapse_route(&mut made, &mappings[i]);
        assert(all[i as int] == mappings[i as int].deep_view());
        assert(all.take(i + 1).drop_last() =~= all.take(i as int));
        i = i + 1;
    }
    assert(all.take(i as int) =~= all);
    made
}

/// The listeners of a gateway by their ports and protocols, and routes with the listeners that they are
/// attached to.
pub fn collapse_listeners_and_routes(
    gateway: &KubeGateway,
    route_to_listeners_mapping: &Vec<RouteToListenersMapping>,
) -> (r: (OrderedMap<i32, ListenersByProtocol>, OrderedMap<(String, String), CollapsedRoute>))
    ensures
        r.0.deep_view() == compacted_listeners(gateway.deep_view().listeners),
        r.1.deep_view() == collapsed_routes(route_to_listeners_mapping.deep_view()),
{
    (collapse_listeners(gateway), collapse_routes(route_to_listeners_mapping))
}

/// A listener speaks the protocol that it names, and HTTP where it names none that is known.
pub proof fn law_protocol_of(listener: GatewayListenerView)
    ensures
        protocol_named(listener.protocol) matches Some(protocol) ==> protocol_of(listener) == protocol,
        protocol_named(listener.protocol) is None ==> protocol_of(listener) == ProtocolType::Http,
{
}

/// The names and hostnames of the listeners at a port that speak a protocol are those of the listeners
/// that do, in their order: one more listener comes last at its port and protocol, and changes nothing
/// elsewhere.
pub proof fn law_listeners_are_collapsed(
    listeners: Seq<GatewayListenerView>,
    listener: GatewayListenerView,
)
    ensures
        increasing::<i32>(keys(compacted_listeners(listeners))),
        ({
            let before = table(compacted_listeners(listeners));
            let after = table(compacted_listeners(listeners.push(listener)));
            let place = protocol_place(protocol_of(listener));
            &&& after.contains_key(listener.port)
            &&& table(after[listener.port]).contains_key(place)
            &&& table(after[listener.port])[place].len() > 0
            &&& table(after[listener.port])[place].last() == (listener.name, listener.hostname)
            &&& before.contains_key(listener.port) && table(
                before[listener.port],
            ).contains_key(place) ==> table(after[listener.port])[place].drop_last() == table(
                before[listener.port],
            )[place]
            &&& !(before.contains_key(listener.port) && table(
                before[listener.port],
            ).contains_key(place)) ==> table(after[listener.port])[place].len() == 1
            &&& forall|port: i32| #[trigger]
                before.contains_key(port) && port != listener.port ==> after.contains_key(port)
                    && after[port] == before[port]
            &&& forall|other: u8|
                before.contains_key(listener.port) && #[trigger] table(
                    before[listener.port],
                ).contains_key(other) && other != place ==> table(
                    after[listener.port],
                ).contains_key(other) && table(after[listener.port])[other] == table(
                    before[listener.port],
                )[other]
        }),
{
    let made = compacted_listeners(listeners);
    compacted_in_order(listeners);
    assert(listeners.push(listener).drop_last() =~= listeners);
    assert(listeners.push(listener).last() == listener);
    let place = protocol_place(protocol_of(listener));
    let at_port = if keys(made).contains(listener.port) {
        table(made)[listener.port]
    } else {
        Seq::empty()
    };
    let list = if keys(at_port).contains(place) {
        table(at_port)[place]
    } else {
        Seq::empty()
    };
    let next = list.push((listener.name, listener.hostname));
    assert(keys(made).contains(listener.port) == table(made).contains_key(listener.port));
    assert(keys(at_port).contains(place) == table(at_port).contains_key(place));
    law_put::<u8, Seq<(Seq<char>, Option<Seq<char>>)>>(at_port, place, next);
    let then = put::<u8, Seq<(Seq<char>, Option<Seq<char>>)>>(at_port, place, next);
    law_put::<i32, Seq<(u8, Seq<(Seq<char>, Option<Seq<char>>)>)>>(made, listener.port, then);
    assert(next.drop_last() =~= list);
}

proof fn compacted_in_order(listeners: Seq<GatewayListenerView>)
    ensures
        increasing::<i32>(keys(compacted_listeners(listeners))),
        forall|port: i32| #[trigger]
            table(compacted_listeners(listeners)).contains_key(port) ==> increasing::<u8>(
                keys(table(compacted_listeners(listeners))[port]),
            ),
    decreases listeners.len(),
{
    if listeners.len() > 0 {
        let listener = listeners.last();
        let made = compacted_listeners(listeners.drop_last());
        compacted_in_order(listeners.drop_last());
        let place = protocol_place(protocol_of(listener));
        let at_port = if keys(made).contains(listener.port) {
            table(made)[listener.port]
        } else {
            Seq::empty()
        };
        let list = if keys(at_port).contains(place) {
            table(at_port)[place]
        } else {
            Seq::empty()
        };
        let next = list.push((listener.name, listener.hostname));
        assert(keys(made).contains(listener.port) == table(made).contains_key(listener.port));
        law_put::<u8, Seq<(Seq<char>, Option<Seq<char>>)>>(at_port, place, next);
        let then = put::<u8, Seq<(Seq<char>, Option<Seq<char>>)>>(at_port, place, next);
        law_put::<i32, Seq<(u8, Seq<(Seq<char>, Option<Seq<char>>)>)>>(made, listener.port, then);
    }
}

/// A route stands under its name and namespace with the listeners that it is mapped to: one more mapping
/// adds the names of its listeners behind those that are there, each with the route, and changes nothing
/// elsewhere.
pub proof fn law_routes_are_collapsed(
    mappings: Seq<RouteToListenersMappingView>,
    mapping: RouteToListenersMappingView,
)
    ensures
        increasing::<(String, String)>(keys(collapsed_routes(mappings))),
        ({
            let before = table(collapsed_routes(mappings));
            let after = table(collapsed_routes(mappings.push(mapping)));
            let route = mapping.route.config.resource_key;
            let key = (route.name, route.namespace);
            let had = if before.contains_key(key) {
                before[key].listener_names.len()
            } else {
                0
            };
            &&& after.contains_key(key)
            &&& !before.contains_key(key) ==> after[key].name == route.name && after[key].namespace
                == route.namespace
            &&& before.contains_key(key) ==> after[key].name == before[key].name
                && after[key].namespace == before[key].namespace
            &&& after[key].listener_names.len() == had + mapping.listeners.len()
            &&& forall|i: int|
                0 <= i < mapping.listeners.len() ==> after[key].listener_names[had + i] == (
                    (#[trigger] mapping.listeners[i]).name,
                    mapping.route,
                )
            &&& before.contains_key(key) ==> after[key].listener_names.take(had as int)
                == before[key].listener_names
            &&& forall|other: (Seq<char>, Seq<char>)| #[trigger]
                before.contains_key(other) && other != key ==> after.contains_key(other)
                    && after[other] == before[other]
        }),
{
    let made = collapsed_routes(mappings);
    collapsed_in_order(mappings);
    assert(mappings.push(mapping).drop_last() =~= mappings);
    assert(mappings.push(mapping).last() == mapping);
    let route = mapping.route.config.resource_key;
    let key = (route.name, route.namespace);
    assert(keys(made).contains(key) == table(made).contains_key(key));
    let before = if keys(made).contains(key) {
        table(made)[key]
    } else {
        CollapsedRouteView { name: key.0, namespace: key.1, listener_names: Seq::empty() }
    };
    let next = CollapsedRouteView {
        listener_names: before.listener_names + mapping.listeners.map_values(
            attached(mapping.route),
        ),
        ..before
    };
    law_put::<(String, String), CollapsedRouteView>(made, key, next);
    assert(next.listener_names.take(before.listener_names.len() as int) =~= before.listener_names);
}

proof fn collapsed_in_order(mappings: Seq<RouteToListenersMappingView>)
    ensures
        increasing::<(String, String)>(keys(collapsed_routes(mappings))),
    decreases mappings.len(),
{
    if mappings.len() > 0 {
        let mapping = mappings.last();
        let made = collapsed_routes(mappings.drop_last());
        collapsed_in_order(mappings.drop_last());
        let key = (mapping.route.config.resource_key.name, mapping.route.config.resource_key.namespace);
        let before = if keys(made).contains(key) {
            table(made)[key]
        } else {
            CollapsedRouteView { name: key.0, namespace: key.1, listener_names: Seq::empty() }
        };
        let next = CollapsedRouteView {
            listener_names: before.listener_names + mapping.listeners.map_values(
                attached(mapping.route),
            ),
            ..before
        };
        law_put::<(String, String), CollapsedRouteView>(made, key, next);
    }
}

} // verus!
