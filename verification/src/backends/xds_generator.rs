//! The files that Envoy reads its listeners, routes and clusters from.
use vstd::prelude::*;
use crate::backends::gateways::listener_name;
use crate::backends::templates::{
    TemplateError,
    Templates,
    TeraCluster,
    TeraClusterView,
    TeraEndpoint,
    TeraEndpointView,
    TeraListener,
    TeraListenerView,
    TeraPath,
    TeraPathView,
    TeraRoute,
    TeraRouteConfig,
    TeraRouteConfigView,
    TeraRouteView,
    TeraVirtualHost,
    TeraVirtualHostView,
    clusters_rendered,
    listeners_rendered,
    route_rendered,
};
use crate::common::backend::{Backend, BackendType, BackendTypeView, BackendView};
use crate::common::gateway::{Gateway, GatewayView};
use crate::common::kube::{PathMatch, PathMatchType, PathMatchView, RouteMatch, RouteMatchView};
use crate::common::listener::{Listener, ListenerView, ProtocolType};
use crate::common::resource_key::{ResourceKey, ResourceKeyView, or_text, text_or};
use crate::common::route::{
    HTTPRoutingRule,
    HTTPRoutingRuleView,
    Route,
    RouteType,
    RouteTypeView,
    RouteView,
};
use crate::common::route_set::route_keys;
use crate::lists::{
    choose_list,
    chosen,
    chosen_contains,
    join_list,
    joined,
    joined_contains,
    map_list,
    no_items,
};
use crate::model::Model;
use crate::ordered::{
    OrderedMap,
    OrderedSet,
    increasing,
    increasing_is_distinct,
    keys,
    law_put,
    law_put_each,
    law_stored_keys,
    put,
    put_each,
    slot,
    slot_bounds,
    stored,
    stored_is_of_pairs,
    table,
    table_of_entry,
    values,
    with_item,
};
use crate::text::{cat, cat3, decimal, decimal_text};

verus! {

/// The file of the routes of a listener.
#[derive(Debug, PartialEq, Eq)]
pub struct RdsData {
    pub route_name: String,
    pub rds_content: String,
}

/// What a [`RdsData`] holds.
#[verifier::ext_equal]
pub struct RdsDataView {
    pub route_name: Seq<char>,
    pub rds_content: Seq<char>,
}

impl DeepView for RdsData {
    type V = RdsDataView;

    open spec fn deep_view(&self) -> RdsDataView {
        RdsDataView {
            route_name: self.route_name.deep_view(),
            rds_content: self.rds_content.deep_view(),
        }
    }
}

impl Model for RdsData {
    fn dup(&self) -> (r: Self) {
        RdsData {
            route_name: self.route_name.dup(),
            rds_content: self.rds_content.dup(),
        }
    }

    fn same(&self, other: &Self) -> (r: bool) {
        self.route_name.same(&other.route_name)
            && self.rds_content.same(&other.rds_content)
    }
}

impl RdsData {
    /// The file of the routes of a listener.
    pub fn new(route_name: String, rds_content: String) -> (r: Self)
        ensures
            r.route_name == route_name,
            r.rds_content == rds_content,
    {
        RdsData { route_name, rds_content }
    }
}

/// The files of the listeners, the routes and the clusters.
#[derive(Debug, PartialEq, Eq)]
pub struct XdsData {
    pub lds_content: String,
    pub rds_content: Vec<RdsData>,
    pub cds_content: String,
}

/// What a [`XdsData`] holds.
#[verifier::ext_equal]
pub struct XdsDataView {
    pub lds_content: Seq<char>,
    pub rds_content: Seq<RdsDataView>,
    pub cds_content: Seq<char>,
}

impl DeepView for XdsData {
    type V = XdsDataView;

    open spec fn deep_view(&self) -> XdsDataView {
        XdsDataView {
            lds_content: self.lds_content.deep_view(),
            rds_content: self.rds_content.deep_view(),
            cds_content: self.cds_content.deep_view(),
        }
    }
}

impl Model for XdsData {
    fn dup(&self) -> (r: Self) {
        XdsData {
            lds_content: self.lds_content.dup(),
            rds_content: self.rds_content.dup(),
            cds_content: self.cds_content.dup(),
        }
    }

    fn same(&self, other: &Self) -> (r: bool) {
        self.lds_content.same(&other.lds_content)
            && self.rds_content.same(&other.rds_content)
            && self.cds_content.same(&other.cds_content)
    }
}

impl XdsData {
    /// The files of the listeners, the routes and the clusters.
    pub fn new(lds_content: String, rds_content: Vec<RdsData>, cds_content: String) -> (r: Self)
        ensures
            r.lds_content == lds_content,
            r.rds_content == rds_content,
            r.cds_content == cds_content,
    {
        XdsData { lds_content, rds_content, cds_content }
    }
}

/// A virtual host: a listener, its hostname and a route.
#[derive(Debug)]
pub struct EnvoyVirutalHost {
    pub name: String,
    pub hostname: Option<String>,
    pub route: Route,
}

/// What a [`EnvoyVirutalHost`] holds.
#[verifier::ext_equal]
pub struct EnvoyVirutalHostView {
    pub name: Seq<char>,
    pub hostname: Option<Seq<char>>,
    pub route: RouteView,
}

impl DeepView for EnvoyVirutalHost {
    type V = EnvoyVirutalHostView;

    open spec fn deep_view(&self) -> EnvoyVirutalHostView {
        EnvoyVirutalHostView {
            name: self.name.deep_view(),
            hostname: self.hostname.deep_view(),
            route: self.route.deep_view(),
        }
    }
}

impl Model for EnvoyVirutalHost {
    fn dup(&self) -> (r: Self) {
        EnvoyVirutalHost {
            name: self.name.dup(),
            hostname: self.hostname.dup(),
            route: self.route.dup(),
        }
    }

    fn same(&self, other: &Self) -> (r: bool) {
        self.name.same(&other.name)
            && self.hostname.same(&other.hostname)
            && self.route.same(&other.route)
    }
}

/// A listener, which the listeners of a gateway at one port are made into. Its virtual hosts stand
/// under their names and the keys of their routes.
#[derive(Debug)]
pub struct EnvoyListener {
    pub name: String,
    pub port: i32,
    pub http_listener_map: OrderedMap<(String, ResourceKey), EnvoyVirutalHost>,
    pub tcp_listener_map: OrderedSet<(String, Option<String>)>,
}

/// What a [`EnvoyListener`] holds.
#[verifier::ext_equal]
pub struct EnvoyListenerView {
    pub name: Seq<char>,
    pub port: i32,
    pub http_listener_map: Seq<((Seq<char>, ResourceKeyView), EnvoyVirutalHostView)>,
    pub tcp_listener_map: Seq<(Seq<char>, Option<Seq<char>>)>,
}

impl DeepView for EnvoyListener {
    type V = EnvoyListenerView;

    open spec fn deep_view(&self) -> EnvoyListenerView {
        EnvoyListenerView {
            name: self.name.deep_view(),
            port: self.port.deep_view(),
            http_listener_map: self.http_listener_map.deep_view(),
            tcp_listener_map: self.tcp_listener_map.deep_view(),
        }
    }
}

impl Model for EnvoyListener {
    fn dup(&self) -> (r: Self) {
        EnvoyListener {
            name: self.name.dup(),
            port: self.port.dup(),
            http_listener_map: self.http_listener_map.dup(),
            tcp_listener_map: self.tcp_listener_map.dup(),
        }
    }

    fn same(&self, other: &Self) -> (r: bool) {
        self.name.same(&other.name)
            && self.port.same(&other.port)
            && self.http_listener_map.same(&other.http_listener_map)
            && self.tcp_listener_map.same(&other.tcp_listener_map)
    }
}

/// The virtual host of an HTTP route at a listener, under the name of the listener and the key of the
/// route.
pub open spec fn hosted(name: Seq<char>, hostname: Option<Seq<char>>) -> spec_fn(RouteView) -> Option<
    ((Seq<char>, ResourceKeyView), EnvoyVirutalHostView),
> {
    |route: RouteView|
        match route.config.route_type {
            RouteTypeView::Http(_) => Some(
                (
                    (name, route.config.resource_key),
                    EnvoyVirutalHostView { name, hostname, route },
                ),
            ),
            RouteTypeView::Grpc(_) => None,
        }
}

/// The virtual hosts of a listener: one for each resolved HTTP route.
pub open spec fn listener_hosts(listener: ListenerView) -> Seq<
    ((Seq<char>, ResourceKeyView), EnvoyVirutalHostView),
> {
    stored::<(String, ResourceKey), EnvoyVirutalHostView>(
        chosen(
            listener.made_of().resolved_routes,
            hosted(listener.made_of().config.name, listener.made_of().config.hostname),
        ),
    )
}

/// The listeners by their ports after one more listener of the gateway: it joins the listener at its
/// port, or becomes one. Only HTTP and TCP do.
pub open spec fn with_collapsed(
    made: Seq<(i32, EnvoyListenerView)>,
    gateway_name: Seq<char>,
    listener: ListenerView,
) -> Seq<(i32, EnvoyListenerView)> {
    let config = listener.made_of().config;
    let before = if keys(made).contains(config.port) {
        table(made)[config.port]
    } else {
        EnvoyListenerView {
            name: gateway_name,
            port: config.port,
            http_listener_map: Seq::empty(),
            tcp_listener_map: Seq::empty(),
        }
    };
    match listener.speaks() {
        ProtocolType::Http => put::<i32, EnvoyListenerView>(
            made,
            config.port,
            EnvoyListenerView {
                http_listener_map: put_each::<(String, ResourceKey), EnvoyVirutalHostView>(
                    before.http_listener_map,
                    listener_hosts(listener),
                ),
                ..before
            },
        ),
        ProtocolType::Tcp => put::<i32, EnvoyListenerView>(
            made,
            config.port,
            EnvoyListenerView {
                tcp_listener_map: with_item::<(String, Option<String>)>(
                    before.tcp_listener_map,
                    (config.name, config.hostname),
                ),
                ..before
            },
        ),
        _ => made,
    }
}

/// The listeners by their ports that the listeners of a gateway are made into.
pub open spec fn collapsed(gateway_name: Seq<char>, listeners: Seq<ListenerView>) -> Seq<
    (i32, EnvoyListenerView),
>
    decreases listeners.len(),
{
    if listeners.len() == 0 {
        Seq::empty()
    } else {
        with_collapsed(
            collapsed(gateway_name, listeners.drop_last()),
            gateway_name,
            listeners.last(),
        )
    }
}

impl GatewayView {
    /// The listeners that the files are about, in the order of their ports.
    pub open spec fn file_listeners(self) -> Seq<EnvoyListenerView> {
        values(collapsed(self.resource_key.name, values(self.listeners)))
    }
}

proof fn hosted_pair(
    listener: ListenerView,
    pair: ((Seq<char>, ResourceKeyView), EnvoyVirutalHostView),
) -> (j: int)
    requires
        chosen(
            listener.made_of().resolved_routes,
            hosted(listener.made_of().config.name, listener.made_of().config.hostname),
        ).contains(pair),
    ensures
        0 <= j < listener.made_of().resolved_routes.len(),
        pair.0.0 == listener.made_of().config.name,
        pair.0.1 == listener.made_of().resolved_routes[j].config.resource_key,
        pair.1 == (EnvoyVirutalHostView {
            name: listener.made_of().config.name,
            hostname: listener.made_of().config.hostname,
            route: listener.made_of().resolved_routes[j],
        }),
{
    let routes = listener.made_of().resolved_routes;
    let give = hosted(listener.made_of().config.name, listener.made_of().config.hostname);
    chosen_contains(routes, give, pair);
    choose|j: int| 0 <= j < routes.len() && #[trigger] give(routes[j]) == Some(pair)
}

proof fn hosts_are_named(listener: ListenerView, key: (Seq<char>, ResourceKeyView))
    requires
        table(listener_hosts(listener)).contains_key(key),
    ensures
        key.0 == listener.made_of().config.name,
{
    let pairs = chosen(
        listener.made_of().resolved_routes,
        hosted(listener.made_of().config.name, listener.made_of().config.hostname),
    );
    let all = listener_hosts(listener);
    let i = choose|i: int| 0 <= i < all.len() && keys(all)[i] == key;
    stored_is_of_pairs::<(String, ResourceKey), EnvoyVirutalHostView>(pairs, i);
    let _ = hosted_pair(listener, all[i]);
}

proof fn route_has_host(listener: ListenerView, j: int)
    requires
        0 <= j < listener.made_of().resolved_routes.len(),
        route_keys(listener.made_of().resolved_routes).no_duplicates(),
        listener.made_of().resolved_routes[j].config.route_type is Http,
    ensures
        ({
            let config = listener.made_of().config;
            let route = listener.made_of().resolved_routes[j];
            let key = (config.name, route.config.resource_key);
            let host = EnvoyVirutalHostView { name: config.name, hostname: config.hostname, route };
            &&& table(listener_hosts(listener)).contains_key(key)
            &&& table(listener_hosts(listener))[key] == host
        }),
{
    let config = listener.made_of().config;
    let routes = listener.made_of().resolved_routes;
    let give = hosted(config.name, config.hostname);
    let pairs = chosen(routes, give);
    let all = listener_hosts(listener);
    let key = (config.name, routes[j].config.resource_key);
    let host = EnvoyVirutalHostView {
        name: config.name,
        hostname: config.hostname,
        route: routes[j],
    };
    chosen_contains(routes, give, (key, host));
    assert(give(routes[j]) == Some((key, host)));
    let p = choose|p: int| 0 <= p < pairs.len() && pairs[p] == (key, host);
    assert(keys(pairs)[p] == key);
    law_stored_keys::<(String, ResourceKey), EnvoyVirutalHostView>(pairs);
    assert(keys(pairs).to_set().contains(key));
    assert(table(all).contains_key(key));
    let i = choose|i: int| 0 <= i < all.len() && keys(all)[i] == key;
    table_of_entry::<(String, ResourceKey), EnvoyVirutalHostView>(all, i);
    stored_is_of_pairs::<(String, ResourceKey), EnvoyVirutalHostView>(pairs, i);
    let k = hosted_pair(listener, all[i]);
    assert(route_keys(routes)[k] == route_keys(routes)[j]);
    assert(k == j);
}

proof fn collapsed_in_order(gateway_name: Seq<char>, listeners: Seq<ListenerView>)
    ensures
        increasing::<i32>(keys(collapsed(gateway_name, listeners))),
        forall|port: i32| #[trigger]
            table(collapsed(gateway_name, listeners)).contains_key(port) ==> increasing::<
                (String, ResourceKey),
            >(keys(table(collapsed(gateway_name, listeners))[port].http_listener_map)),
    decreases listeners.len(),
{
    if listeners.len() > 0 {
        let made = collapsed(gateway_name, listeners.drop_last());
        collapsed_in_order(gateway_name, listeners.drop_last());
        joining_one(made, gateway_name, listeners.last());
    }
}

/// The virtual hosts of the listener at a port, none where there is no listener.
pub open spec fn hosts_at(made: Seq<(i32, EnvoyListenerView)>, port: i32) -> Seq<
    ((Seq<char>, ResourceKeyView), EnvoyVirutalHostView),
> {
    if table(made).contains_key(port) {
        table(made)[port].http_listener_map
    } else {
        Seq::empty()
    }
}

proof fn joining_one(
    made: Seq<(i32, EnvoyListenerView)>,
    gateway_name: Seq<char>,
    listener: ListenerView,
)
    requires
        increasing::<i32>(keys(made)),
        forall|port: i32| #[trigger]
            table(made).contains_key(port) ==> increasing::<(String, ResourceKey)>(
                keys(table(made)[port].http_listener_map),
            ),
    ensures
        ({
            let next = with_collapsed(made, gateway_name, listener);
            let config = listener.made_of().config;
            &&& increasing::<i32>(keys(next))
            &&& forall|port: i32| #[trigger]
                table(next).contains_key(port) ==> increasing::<(String, ResourceKey)>(
                    keys(table(next)[port].http_listener_map),
                )
            &&& forall|port: i32| #[trigger]
                table(made).contains_key(port) ==> table(next).contains_key(port)
            &&& forall|port: i32|
                listener.speaks() != ProtocolType::Http || port != config.port ==> hosts_at(
                    next,
                    port,
                ) == #[trigger] hosts_at(made, port)
            &&& listener.speaks() == ProtocolType::Http ==> {
                &&& table(next).contains_key(config.port)
                &&& table(hosts_at(next, config.port)) == table(
                    hosts_at(made, config.port),
                ).union_prefer_right(table(listener_hosts(listener)))
            }
        }),
{
    let config = listener.made_of().config;
    let next = with_collapsed(made, gateway_name, listener);
    let pairs = chosen(
        listener.made_of().resolved_routes,
        hosted(config.name, config.hostname),
    );
    law_stored_keys::<(String, ResourceKey), EnvoyVirutalHostView>(pairs);
    assert(keys(made).contains(config.port) == table(made).contains_key(config.port));
    law_put_each::<(String, ResourceKey), EnvoyVirutalHostView>(
        hosts_at(made, config.port),
        listener_hosts(listener),
    );
    if listener.speaks() == ProtocolType::Http || listener.speaks() == ProtocolType::Tcp {
        slot_bounds::<i32>(keys(made), config.port);
        let value = next[slot::<i32>(keys(made), config.port)].1;
        assert(next == put::<i32, EnvoyListenerView>(made, config.port, value));
        law_put::<i32, EnvoyListenerView>(made, config.port, value);
    }
}

proof fn route_is_hosted(
    gateway_name: Seq<char>,
    listeners: Seq<ListenerView>,
    i: int,
    j: int,
)
    requires
        0 <= i < listeners.len(),
        listeners.map_values(listener_name()).no_duplicates(),
        listeners[i].speaks() == ProtocolType::Http,
        0 <= j < listeners[i].made_of().resolved_routes.len(),
        route_keys(listeners[i].made_of().resolved_routes).no_duplicates(),
        listeners[i].made_of().resolved_routes[j].config.route_type is Http,
    ensures
        ({
            let made = collapsed(gateway_name, listeners);
            let config = listeners[i].made_of().config;
            let route = listeners[i].made_of().resolved_routes[j];
            let key = (config.name, route.config.resource_key);
            &&& table(made).contains_key(config.port)
            &&& table(hosts_at(made, config.port)).contains_key(key)
            &&& table(hosts_at(made, config.port))[key] == (EnvoyVirutalHostView {
                name: config.name,
                hostname: config.hostname,
                route,
            })
        }),
    decreases listeners.len(),
{
    let shorter = listeners.drop_last();
    let last = listeners.last();
    let made = collapsed(gateway_name, shorter);
    let config = listeners[i].made_of().config;
    let key = (config.name, listeners[i].made_of().resolved_routes[j].config.resource_key);
    let names = listeners.map_values(listener_name());
    collapsed_in_order(gateway_name, shorter);
    joining_one(made, gateway_name, last);
    if i < shorter.len() {
        assert(shorter.map_values(listener_name()) =~= names.drop_last());
        route_is_hosted(gateway_name, shorter, i, j);
        assert(names[i] != names[names.len() - 1]);
        if table(listener_hosts(last)).contains_key(key) {
            hosts_are_named(last, key);
        }
        assert(hosts_at(made, config.port) == hosts_at(made, config.port));
    } else {
        route_has_host(last, j);
    }
}

/// Each resolved HTTP route of an HTTP listener of a gateway has a virtual host of its own at the port of
/// the listener.
pub proof fn law_each_route_is_hosted(gateway: GatewayView, i: int, j: int)
    requires
        gateway.keeps_names(),
        0 <= i < gateway.listeners.len(),
        gateway.listeners[i].1.speaks() == ProtocolType::Http,
        increasing::<ResourceKey>(route_keys(gateway.listeners[i].1.made_of().resolved_routes)),
        0 <= j < gateway.listeners[i].1.made_of().resolved_routes.len(),
        gateway.listeners[i].1.made_of().resolved_routes[j].config.route_type is Http,
    ensures
        ({
            let config = gateway.listeners[i].1.made_of().config;
            let route = gateway.listeners[i].1.made_of().resolved_routes[j];
            let host = EnvoyVirutalHostView { name: config.name, hostname: config.hostname, route };
            exists|k: int|
                0 <= k < gateway.file_listeners().len() && #[trigger] values(
                    gateway.file_listeners()[k].http_listener_map,
                ).contains(host)
        }),
{
    let listeners = values(gateway.listeners);
    let names = listeners.map_values(listener_name());
    let made = collapsed(gateway.resource_key.name, listeners);
    let config = listeners[i].made_of().config;
    let route = listeners[i].made_of().resolved_routes[j];
    let host = EnvoyVirutalHostView { name: config.name, hostname: config.hostname, route };
    assert forall|k: int| 0 <= k < names.len() implies names[k] == #[trigger] keys(
        gateway.listeners,
    )[k] by {
        assert(gateway.listeners[k].0 == gateway.listeners[k].1.made_of().config.name);
    }
    assert(names =~= keys(gateway.listeners));
    increasing_is_distinct::<String>(names);
    increasing_is_distinct::<ResourceKey>(route_keys(listeners[i].made_of().resolved_routes));
    route_is_hosted(gateway.resource_key.name, listeners, i, j);
    collapsed_in_order(gateway.resource_key.name, listeners);
    let k = choose|k: int| 0 <= k < made.len() && keys(made)[k] == config.port;
    table_of_entry::<i32, EnvoyListenerView>(made, k);
    let hosts = hosts_at(made, config.port);
    let key = (config.name, route.config.resource_key);
    let n = choose|n: int| 0 <= n < hosts.len() && keys(hosts)[n] == key;
    table_of_entry::<(String, ResourceKey), EnvoyVirutalHostView>(hosts, n);
    assert(values(hosts)[n] == host);
    assert(values(gateway.file_listeners()[k].http_listener_map).contains(host));
}

/// The name of the way in which a path is matched.
pub open spec fn match_name(how: Option<PathMatchType>) -> Seq<char> {
    match how {
        Some(PathMatchType::Exact) => "path"@,
        Some(PathMatchType::PathPrefix) => "prefix"@,
        Some(PathMatchType::RegularExpression) => "safe_regex"@,
        None => ""@,
    }
}

fn name_match(how: Option<PathMatchType>) -> (r: String)
    ensures
        r@ == match_name(how),
{
    match how {
        Some(PathMatchType::Exact) => "path".to_owned(),
        Some(PathMatchType::PathPrefix) => "prefix".to_owned(),
        Some(PathMatchType::RegularExpression) => "safe_regex".to_owned(),
        None => "".to_owned(),
    }
}

/// A path, as the template of routes takes it.
pub open spec fn told_path(path: Option<PathMatchView>) -> Option<TeraPathView> {
    match path {
        Some(path) => Some(
            TeraPathView {
                path: text_or(path.value, ""@),
                match_type: match_name(path.match_type),
            },
        ),
        None => None,
    }
}

fn tell_path(path: &Option<PathMatch>) -> (r: Option<TeraPath>)
    ensures
        r.deep_view() == told_path(path.deep_view()),
{
    match path {
        Some(path) => Some(
            TeraPath { path: or_text(&path.value, ""), match_type: name_match(path.match_type) },
        ),
        None => None,
    }
}

/// A match of a rule, which leads to the cluster that is named like the rule.
pub open spec fn told_match(cluster_name: Seq<char>) -> spec_fn(
    RouteMatchView,
) -> TeraRouteConfigView {
    |rule: RouteMatchView| TeraRouteConfigView { path: told_path(rule.path), cluster_name }
}

/// The matches of a rule.
pub open spec fn told_rule() -> spec_fn(HTTPRoutingRuleView) -> Seq<TeraRouteConfigView> {
    |rule: HTTPRoutingRuleView| rule.matching_rules.map_values(told_match(rule.name))
}

fn tell_rule(rule: &HTTPRoutingRule) -> (r: Vec<TeraRouteConfig>)
    ensures
        r.deep_view() == told_rule()(rule.deep_view()),
{
    map_list(
        &rule.matching_rules,
        |matching: &RouteMatch| -> (y: TeraRouteConfig)
            ensures y.deep_view() == told_match(rule.name@)(matching.deep_view())
        { TeraRouteConfig { path: tell_path(&matching.path), cluster_name: rule.name.dup() } },
        Ghost(told_match(rule.name@)),
    )
}

impl RouteView {
    /// The rules of the route, where it is an HTTP route.
    pub open spec fn http_rules(self) -> Seq<HTTPRoutingRuleView> {
        match self.config.route_type {
            RouteTypeView::Http(configuration) => configuration.routing_rules,
            RouteTypeView::Grpc(_) => Seq::empty(),
        }
    }
}

impl Route {
    /// The rules of the route, where it is an HTTP route.
    pub fn routing_rules(&self) -> (r: Vec<HTTPRoutingRule>)
        ensures
            r.deep_view() == self.deep_view().http_rules(),
    {
        match &self.config.route_type {
            RouteType::Http(configuration) => configuration.routing_rules.dup(),
            RouteType::Grpc(_) => no_items(),
        }
    }
}

/// A virtual host, as the template of routes takes it: for any host where it has no hostname.
pub open spec fn told_host() -> spec_fn(EnvoyVirutalHostView) -> TeraVirtualHostView {
    |host: EnvoyVirutalHostView|
        TeraVirtualHostView {
            hostname: text_or(host.hostname, "*"@),
            route_configs: joined(host.route.http_rules(), told_rule()),
        }
}

fn tell_host(host: &&EnvoyVirutalHost) -> (r: TeraVirtualHost)
    ensures
        r.deep_view() == told_host()(host.deep_view()),
{
    let rules = host.route.routing_rules();
    TeraVirtualHost {
        hostname: or_text(&host.hostname, "*"),
        route_configs: join_list(&rules, tell_rule, Ghost(told_rule())),
    }
}

/// The routes of a listener, as their template takes them.
pub open spec fn told_routes() -> spec_fn(EnvoyListenerView) -> TeraRouteView {
    |listener: EnvoyListenerView|
        TeraRouteView {
            name: listener.name + "-"@ + decimal(listener.port as int) + "-route"@,
            virtual_hosts: values(listener.http_listener_map).map_values(told_host()),
        }
}

/// The routes of a listener, as their template takes them.
pub fn tell_routes(listener: &EnvoyListener) -> (r: TeraRoute)
    ensures
        r.deep_view() == told_routes()(listener.deep_view()),
{
    let hosts = listener.http_listener_map.values();
    let number = decimal_text(listener.port as i64);
    let start = cat3(listener.name.as_str(), "-", number.as_str());
    TeraRoute {
        name: cat(start.as_str(), "-route"),
        virtual_hosts: map_list(&hosts, tell_host, Ghost(told_host())),
    }
}

/// A backend, as the template of clusters takes it.
pub open spec fn told_endpoint() -> spec_fn(BackendView) -> TeraEndpointView {
    |backend: BackendView|
        match backend.typed() {
            BackendTypeView::Service(config) => TeraEndpointView {
                service: config.endpoint,
                port: config.port,
                weight: config.weight,
            },
            BackendTypeView::Invalid(config) => TeraEndpointView {
                service: config.endpoint,
                port: config.port,
                weight: config.weight,
            },
            BackendTypeView::InferencePool(config) => TeraEndpointView {
                service: config.endpoint,
                port: config.port,
                weight: config.weight,
            },
        }
}

fn tell_endpoint(backend: &Backend) -> (r: TeraEndpoint)
    ensures
        r.deep_view() == told_endpoint()(backend.deep_view()),
{
    match backend.backend_type() {
        BackendType::Service(config) => TeraEndpoint {
            service: config.endpoint.dup(),
            port: config.port,
            weight: config.weight,
        },
        BackendType::Invalid(config) => TeraEndpoint {
            service: config.endpoint.dup(),
            port: config.port,
            weight: config.weight,
        },
        BackendType::InferencePool(config) => TeraEndpoint {
            service: config.endpoint.dup(),
            port: config.port,
            weight: config.weight,
        },
    }
}

/// The cluster of a rule, which is named like the rule.
pub open spec fn told_cluster() -> spec_fn(HTTPRoutingRuleView) -> TeraClusterView {
    |rule: HTTPRoutingRuleView|
        TeraClusterView { name: rule.name, endpoints: rule.backends.map_values(told_endpoint()) }
}

fn tell_cluster(rule: &HTTPRoutingRule) -> (r: TeraCluster)
    ensures
        r.deep_view() == told_cluster()(rule.deep_view()),
{
    TeraCluster {
        name: rule.name.dup(),
        endpoints: map_list(&rule.backends, tell_endpoint, Ghost(told_endpoint())),
    }
}

/// The clusters of a virtual host, rule by rule.
pub open spec fn host_clusters() -> spec_fn(EnvoyVirutalHostView) -> Seq<TeraClusterView> {
    |host: EnvoyVirutalHostView| host.route.http_rules().map_values(told_cluster())
}

/// The clusters of a listener, virtual host by virtual host.
pub open spec fn listener_clusters() -> spec_fn(EnvoyListenerView) -> Seq<TeraClusterView> {
    |listener: EnvoyListenerView| joined(values(listener.http_listener_map), host_clusters())
}

fn list_host_clusters(host: &&EnvoyVirutalHost) -> (r: Vec<TeraCluster>)
    ensures
        r.deep_view() == host_clusters()(host.deep_view()),
{
    let rules = host.route.routing_rules();
    map_list(&rules, tell_cluster, Ghost(told_cluster()))
}

fn list_listener_clusters(listener: &&EnvoyListener) -> (r: Vec<TeraCluster>)
    ensures
        r.deep_view() == listener_clusters()(listener.deep_view()),
{
    let hosts = listener.http_listener_map.values();
    join_list(&hosts, list_host_clusters, Ghost(host_clusters()))
}

/// The clusters of listeners, as their template takes them.
pub fn tell_clusters(listeners: &Vec<&EnvoyListener>) -> (r: Vec<TeraCluster>)
    ensures
        r.deep_view() == joined(listeners.deep_view(), listener_clusters()),
{
    join_list(listeners, list_listener_clusters, Ghost(listener_clusters()))
}

/// A listener, as its template takes it.
pub open spec fn told_listener() -> spec_fn(EnvoyListenerView) -> TeraListenerView {
    |listener: EnvoyListenerView|
        TeraListenerView {
            name: listener.name,
            port: listener.port,
            route_name: listener.name + "-dynamic-route"@,
            ip_address: "0.0.0.0"@,
        }
}

fn tell_listener(listener: &&EnvoyListener) -> (r: TeraListener)
    ensures
        r.deep_view() == told_listener()(listener.deep_view()),
{
    TeraListener {
        name: listener.name.dup(),
        port: listener.port,
        route_name: cat(listener.name.as_str(), "-dynamic-route"),
        ip_address: "0.0.0.0".to_owned(),
    }
}

/// The listeners, as their template takes them.
pub fn tell_listeners(listeners: &Vec<&EnvoyListener>) -> (r: Vec<TeraListener>)
    ensures
        r.deep_view() == listeners.deep_view().map_values(told_listener()),
{
    map_list(listeners, tell_listener, Ghost(told_listener()))
}

/// Puts the files together. There are none where the listeners or the clusters were not rendered;
/// routes that were not rendered are left out.
pub fn assemble(
    lds: Result<String, TemplateError>,
    rds: Vec<(String, Option<String>)>,
    cds: Result<String, TemplateError>,
) -> (r: Result<XdsData, TemplateError>)
    ensures
        match (lds, cds) {
            (Err(error), _) => r == Err::<XdsData, TemplateError>(error),
            (Ok(_), Err(error)) => r == Err::<XdsData, TemplateError>(error),
            (Ok(listeners), Ok(clusters)) => r is Ok && r->Ok_0.deep_view() == (XdsDataView {
                lds_content: listeners@,
                rds_content: chosen(rds.deep_view(), given_file()),
                cds_content: clusters@,
            }),
        },
{
    let listeners = match lds {
        Ok(text) => text,
        Err(error) => {
            return Err(error);
        },
    };
    let routes = choose_list(&rds, give_file, Ghost(given_file()));
    match cds {
        Ok(clusters) => Ok(XdsData::new(listeners, routes, clusters)),
        Err(error) => Err(error),
    }
}

/// The file of the routes of a listener, where they were rendered.
pub open spec fn given_file() -> spec_fn((Seq<char>, Option<Seq<char>>)) -> Option<RdsDataView> {
    |route: (Seq<char>, Option<Seq<char>>)|
        match route.1 {
            Some(text) => Some(RdsDataView { route_name: route.0, rds_content: text }),
            None => None,
        }
}

fn give_file(route: &(String, Option<String>)) -> (r: Option<RdsData>)
    ensures
        r.deep_view() == given_file()(route.deep_view()),
{
    match &route.1 {
        Some(text) => Some(RdsData::new(route.0.dup(), text.dup())),
        None => None,
    }
}

/// The template of the listeners.
pub const LDS_TEMPLATE: &'static str = "lds.yaml.tera";

/// The template of the routes.
pub const RDS_TEMPLATE: &'static str = "rds.yaml.tera";

/// The template of the clusters.
pub const CDS_TEMPLATE: &'static str = "cds.yaml.tera";

/// The name of the file of the routes of a listener, and its text where it is rendered.
pub open spec fn route_file(templates: Map<Seq<char>, Seq<char>>) -> spec_fn(EnvoyListenerView) -> (
    Seq<char>,
    Option<Seq<char>>,
) {
    |listener: EnvoyListenerView|
        (
            told_routes()(listener).name,
            route_rendered(templates, RDS_TEMPLATE@, told_routes()(listener)),
        )
}

/// Makes the files for a gateway.
pub struct EnvoyXDSGenerator<'a> {
    effective_gateway: &'a Gateway,
}

impl<'a> EnvoyXDSGenerator<'a> {
    /// The gateway.
    pub closed spec fn gateway(&self) -> GatewayView {
        self.effective_gateway.deep_view()
    }

    /// What rendering the listeners of the gateway gives.
    pub open spec fn listeners_text(&self, templates: Map<Seq<char>, Seq<char>>) -> Option<Seq<char>> {
        listeners_rendered(
            templates,
            LDS_TEMPLATE@,
            self.gateway().file_listeners().map_values(told_listener()),
        )
    }

    /// What rendering the clusters of the gateway gives.
    pub open spec fn clusters_text(&self, templates: Map<Seq<char>, Seq<char>>) -> Option<Seq<char>> {
        clusters_rendered(
            templates,
            CDS_TEMPLATE@,
            joined(self.gateway().file_listeners(), listener_clusters()),
        )
    }

    /// A generator for a gateway.
    pub fn new(effective_gateway: &'a Gateway) -> (r: Self)
        ensures
            r.gateway() == effective_gateway.deep_view(),
    {
        EnvoyXDSGenerator { effective_gateway }
    }

    fn add_listener(
        made: &mut OrderedMap<i32, EnvoyListener>,
        gateway_name: &str,
        listener: &Listener,
    )
        ensures
            final(made).deep_view() == with_collapsed(
                old(made).deep_view(),
                gateway_name@,
                listener.deep_view(),
            ),
    {
        let port: i32 = listener.port();
        let protocol = listener.protocol();
        let ghost name = listener.deep_view().made_of().config.name;
        let hostname = match listener.hostname() {
            Some(hostname) => Some(hostname.dup()),
            None => None,
        };
        let mut next = match made.get(&port) {
            Some(there) => there.dup(),
            None => EnvoyListener {
                name: gateway_name.to_owned(),
                port,
                http_listener_map: OrderedMap::new(),
                tcp_listener_map: OrderedSet::new(),
            },
        };
        match protocol {
            ProtocolType::Http => {
                let (resolved, _) = listener.routes();
                let pairs = choose_list(
                    &resolved,
                    |route: &&Route| -> (y: Option<((String, ResourceKey), EnvoyVirutalHost)>)
                        ensures y.deep_view() == hosted(name, hostname.deep_view())(route.deep_view())
                    {
                        match &route.config.route_type {
                            RouteType::Http(_) => Some(
                                (
                                    (listener.name().to_owned(), route.resource_key().dup()),
                                    EnvoyVirutalHost {
                                        name: listener.name().to_owned(),
                                        hostname: hostname.dup(),
                                        route: route.dup(),
                                    },
                                ),
                            ),
                            RouteType::Grpc(_) => None,
                        }
                    },
                    Ghost(hosted(name, hostname.deep_view())),
                );
                let hosts = OrderedMap::gather(&pairs);
                next.http_listener_map.append(&hosts);
                made.insert(port, next);
            },
            ProtocolType::Tcp => {
                next.tcp_listener_map.insert((listener.name().to_owned(), hostname));
                made.insert(port, next);
            },
            _ => {},
        }
    }

    /// The listeners by their ports that the listeners of the gateway are made into.
    pub fn collapse_listeners_and_routes(&self) -> (r: OrderedMap<i32, EnvoyListener>)
        ensures
            r.deep_view() == collapsed(
                self.gateway().resource_key.name,
                values(self.gateway().listeners),
            ),
    {
        let listeners = self.effective_gateway.listeners();
        let ghost all = listeners.deep_view();
        let ghost name = self.gateway().resource_key.name;
        let mut made: OrderedMap<i32, EnvoyListener> = OrderedMap::new();
        let mut i: usize = 0;
        assert(all.take(0) =~= Seq::<ListenerView>::empty());
        while i < listeners.len()
            invariant
                i <= listeners.len(),
                listeners.deep_view() == all,
                name == self.effective_gateway.deep_view().resource_key.name,
                made.deep_view() == collapsed(name, all.take(i as int)),
            decreases listeners.len() - i,
        {
            Self::add_listener(&mut made, self.effective_gateway.name(), listeners[i]);
            assert(all[i as int] == listeners[i as int].deep_view());
            assert(all.take(i + 1).drop_last() =~= all.take(i as int));
            i = i + 1;
        }
        assert(all.take(i as int) =~= all);
        made
    }

    /// Renders the files with templates. There are none where rendering the listeners fails, or else the
    /// clusters; the file of the routes of a listener is left out where rendering them fails.
    pub fn generate_xds(&self, templates: &Templates) -> (r: Result<XdsData, TemplateError>)
        ensures
            match (
                self.listeners_text(templates.sources()),
                self.clusters_text(templates.sources()),
            ) {
                (None, _) => r is Err && r->Err_0.template@ == LDS_TEMPLATE@,
                (Some(_), None) => r is Err && r->Err_0.template@ == CDS_TEMPLATE@,
                (Some(listeners), Some(clusters)) => r is Ok && r->Ok_0.deep_view() == (XdsDataView {
                    lds_content: listeners,
                    rds_content: chosen(
                        self.gateway().file_listeners().map_values(
                            route_file(templates.sources()),
                        ),
                        given_file(),
                    ),
                    cds_content: clusters,
                }),
            },
            r is Ok ==> templates.sources().contains_key(LDS_TEMPLATE@)
                && templates.sources().contains_key(CDS_TEMPLATE@),
    {
        let made = self.collapse_listeners_and_routes();
        let listeners = made.values();
        let told = tell_listeners(&listeners);
        let lds = templates.render_listeners(LDS_TEMPLATE, &told);
        let rds = Self::generate_routes(&listeners, templates);
        let clusters = tell_clusters(&listeners);
        let cds = templates.render_clusters(CDS_TEMPLATE, &clusters);
        assemble(lds, rds, cds)
    }

    fn generate_routes(listeners: &Vec<&EnvoyListener>, templates: &Templates) -> (r: Vec<
        (String, Option<String>),
    >)
        ensures
            r.deep_view() == listeners.deep_view().map_values(route_file(templates.sources())),
    {
        map_list(
            listeners,
            |listener: &&EnvoyListener| -> (y: (String, Option<String>))
                ensures y.deep_view() == route_file(templates.sources())(listener.deep_view())
            {
                let route = tell_routes(listener);
                let content = match templates.render_route(RDS_TEMPLATE, &route) {
                    Ok(text) => Some(text),
                    Err(_) => None,
                };
                (route.name, content)
            },
            Ghost(route_file(templates.sources())),
        )
    }
}

/// A path is told of with its value, or an empty one, and with the name of the way in which it is
/// matched; no path is told of where none is asked for.
pub proof fn law_path_is_told_of(path: PathMatchView)
    ensures
        told_path(None) is None,
        told_path(Some(path)) is Some,
        path.value is Some ==> told_path(Some(path))->0.path == path.value->0,
        path.value is None ==> told_path(Some(path))->0.path == ""@,
        path.match_type == Some(PathMatchType::Exact) ==> told_path(Some(path))->0.match_type
            == "path"@,
        path.match_type == Some(PathMatchType::PathPrefix) ==> told_path(Some(path))->0.match_type
            == "prefix"@,
        path.match_type == Some(PathMatchType::RegularExpression) ==> told_path(
            Some(path),
        )->0.match_type == "safe_regex"@,
        path.match_type is None ==> told_path(Some(path))->0.match_type == ""@,
{
}

/// A virtual host is for its hostname, or for any, and has an entry for each match of each rule of its
/// route: with the path of the match, to the cluster that is named like the rule.
pub proof fn law_host_is_told_of(host: EnvoyVirutalHostView, k: int, m: int)
    requires
        0 <= k < host.route.http_rules().len(),
        0 <= m < host.route.http_rules()[k].matching_rules.len(),
    ensures
        host.hostname is Some ==> told_host()(host).hostname == host.hostname->0,
        host.hostname is None ==> told_host()(host).hostname == "*"@,
        told_host()(host).route_configs.contains(
            TeraRouteConfigView {
                path: told_path(host.route.http_rules()[k].matching_rules[m].path),
                cluster_name: host.route.http_rules()[k].name,
            },
        ),
{
    let rules = host.route.http_rules();
    let entry = TeraRouteConfigView {
        path: told_path(rules[k].matching_rules[m].path),
        cluster_name: rules[k].name,
    };
    assert(told_rule()(rules[k])[m] == entry);
    assert(told_rule()(rules[k]).contains(entry));
    joined_contains(rules, told_rule(), entry);
}

/// Each entry of a virtual host is that of a match of a rule of its route.
pub proof fn law_host_has_no_other_entry(host: EnvoyVirutalHostView, i: int)
    requires
        0 <= i < told_host()(host).route_configs.len(),
    ensures
        exists|k: int, m: int|
            0 <= k < host.route.http_rules().len() && 0 <= m
                < host.route.http_rules()[k].matching_rules.len() && told_host()(
                host,
            ).route_configs[i].cluster_name == host.route.http_rules()[k].name && told_host()(
                host,
            ).route_configs[i].path == told_path(
                (#[trigger] host.route.http_rules()[k].matching_rules[m]).path,
            ),
{
    let rules = host.route.http_rules();
    let entry = told_host()(host).route_configs[i];
    assert(joined(rules, told_rule()).contains(entry));
    joined_contains(rules, told_rule(), entry);
    let k = choose|k: int| 0 <= k < rules.len() && #[trigger] told_rule()(rules[k]).contains(entry);
    let all = told_rule()(rules[k]);
    let m = choose|m: int| 0 <= m < all.len() && all[m] == entry;
    assert(host.route.http_rules()[k].matching_rules[m].path == rules[k].matching_rules[m].path);
}

/// The routes of a listener are named by the listener and its port, with one virtual host for each of
/// its virtual hosts. The listener listens at its port on every address.
pub proof fn law_listener_is_told_of(listener: EnvoyListenerView)
    ensures
        told_routes()(listener).name == listener.name + "-"@ + decimal(listener.port as int)
            + "-route"@,
        told_routes()(listener).virtual_hosts.len() == listener.http_listener_map.len(),
        forall|i: int|
            0 <= i < listener.http_listener_map.len() ==> #[trigger] told_routes()(
                listener,
            ).virtual_hosts[i] == told_host()(listener.http_listener_map[i].1),
        told_listener()(listener).name == listener.name,
        told_listener()(listener).port == listener.port,
        told_listener()(listener).route_name == listener.name + "-dynamic-route"@,
        told_listener()(listener).ip_address == "0.0.0.0"@,
{
    assert forall|i: int| 0 <= i < listener.http_listener_map.len() implies values(
        listener.http_listener_map,
    )[i] == listener.http_listener_map[i].1 by {}
}

/// A backend is an endpoint at its host and its port with its weight, whatever it is and whatever is
/// known of it.
pub proof fn law_endpoint_is_told_of(backend: BackendView)
    ensures
        backend.typed() matches BackendTypeView::Service(config) ==> told_endpoint()(backend)
            == (TeraEndpointView {
            service: config.endpoint,
            port: config.port,
            weight: config.weight,
        }),
        backend.typed() matches BackendTypeView::InferencePool(config) ==> told_endpoint()(backend)
            == (TeraEndpointView {
            service: config.endpoint,
            port: config.port,
            weight: config.weight,
        }),
        backend.typed() matches BackendTypeView::Invalid(config) ==> told_endpoint()(backend)
            == (TeraEndpointView {
            service: config.endpoint,
            port: config.port,
            weight: config.weight,
        }),
{
}

/// There is a cluster for each rule of the route of each virtual host of a listener, named like the
/// rule, with an endpoint for each backend of the rule in its place.
pub proof fn law_rule_has_cluster(listeners: Seq<EnvoyListenerView>, l: int, h: int, k: int)
    requires
        0 <= l < listeners.len(),
        0 <= h < listeners[l].http_listener_map.len(),
        0 <= k < listeners[l].http_listener_map[h].1.route.http_rules().len(),
    ensures
        ({
            let rule = listeners[l].http_listener_map[h].1.route.http_rules()[k];
            joined(listeners, listener_clusters()).contains(
                TeraClusterView {
                    name: rule.name,
                    endpoints: rule.backends.map_values(told_endpoint()),
                },
            )
        }),
{
    let hosts = values(listeners[l].http_listener_map);
    let rule = hosts[h].route.http_rules()[k];
    assert(hosts[h] == listeners[l].http_listener_map[h].1);
    let cluster = told_cluster()(rule);
    assert(host_clusters()(hosts[h])[k] == cluster);
    assert(host_clusters()(hosts[h]).contains(cluster));
    joined_contains(hosts, host_clusters(), cluster);
    assert(listener_clusters()(listeners[l]).contains(cluster));
    joined_contains(listeners, listener_clusters(), cluster);
}

/// The files of routes are those that were rendered, each under its name; the others are left out.
pub proof fn law_files_of_routes(files: Seq<(Seq<char>, Option<Seq<char>>)>, data: RdsDataView)
    ensures
        chosen(files, given_file()).contains(data) <==> exists|i: int|
            0 <= i < files.len() && (#[trigger] files[i]).0 == data.route_name && files[i].1 == Some(
                data.rds_content,
            ),
{
    chosen_contains(files, given_file(), data);
    if chosen(files, given_file()).contains(data) {
        let i = choose|i: int|
            0 <= i < files.len() && #[trigger] given_file()(files[i]) == Some(data);
        assert(files[i].0 == data.route_name);
    }
    if exists|i: int|
        0 <= i < files.len() && (#[trigger] files[i]).0 == data.route_name && files[i].1 == Some(
            data.rds_content,
        ) {
        let i = choose|i: int|
            0 <= i < files.len() && (#[trigger] files[i]).0 == data.route_name && files[i].1 == Some(
                data.rds_content,
            );
        assert(given_file()(files[i]) == Some(data));
    }
}

/// The listeners that the files are about are those at the ports of the HTTP and TCP listeners of the
/// gateway, each with the name of the gateway and at its own port.
pub proof fn law_listener_at_port(
    gateway_name: Seq<char>,
    listeners: Seq<ListenerView>,
    port: i32,
)
    ensures
        increasing::<i32>(keys(collapsed(gateway_name, listeners))),
        table(collapsed(gateway_name, listeners)).contains_key(port) <==> exists|j: int|
            0 <= j < listeners.len() && (#[trigger] listeners[j]).made_of().config.port == port && (
            listeners[j] is Http || listeners[j] is Tcp),
        table(collapsed(gateway_name, listeners)).contains_key(port) ==> table(
            collapsed(gateway_name, listeners),
        )[port].name == gateway_name && table(collapsed(gateway_name, listeners))[port].port == port,
    decreases listeners.len(),
{
    if listeners.len() > 0 {
        let shorter = listeners.drop_last();
        let made = collapsed(gateway_name, shorter);
        let next = collapsed(gateway_name, listeners);
        let last = listeners.last();
        let at = last.made_of().config.port;
        law_listener_at_port(gateway_name, shorter, port);
        law_listener_at_port(gateway_name, shorter, at);
        assert(keys(made).contains(at) == table(made).contains_key(at));
        match last.speaks() {
            ProtocolType::Http | ProtocolType::Tcp => {
                slot_bounds::<i32>(keys(made), at);
                let p = slot::<i32>(keys(made), at);
                let value = next[p].1;
                assert(next == put::<i32, EnvoyListenerView>(made, at, value));
                law_put::<i32, EnvoyListenerView>(made, at, value);
            },
            _ => {},
        }
        if table(made).contains_key(port) {
            let j = choose|j: int|
                0 <= j < shorter.len() && (#[trigger] shorter[j]).made_of().config.port == port && (
                shorter[j] is Http || shorter[j] is Tcp);
            assert(listeners[j] == shorter[j]);
        }
        if table(next).contains_key(port) && !table(made).contains_key(port) {
            assert(listeners[listeners.len() - 1] == last);
        }
        if exists|j: int|
            0 <= j < listeners.len() && (#[trigger] listeners[j]).made_of().config.port == port && (
            listeners[j] is Http || listeners[j] is Tcp) {
            let j = choose|j: int|
                0 <= j < listeners.len() && (#[trigger] listeners[j]).made_of().config.port == port
                    && (listeners[j] is Http || listeners[j] is Tcp);
            if j < shorter.len() {
                assert(shorter[j] == listeners[j]);
            }
        }
    }
}

/// The texts of a gateway are those that the template of listeners gives for its listeners, in their order,
/// the template of clusters for their clusters, and the template of routes for those of a listener.
pub proof fn law_texts_of_gateway(
    generator: EnvoyXDSGenerator<'_>,
    templates: Map<Seq<char>, Seq<char>>,
    told: Seq<TeraListenerView>,
    listener: EnvoyListenerView,
)
    requires
        told.len() == generator.gateway().file_listeners().len(),
        forall|i: int|
            0 <= i < told.len() ==> #[trigger] told[i] == told_listener()(
                generator.gateway().file_listeners()[i],
            ),
    ensures
        generator.listeners_text(templates) == listeners_rendered(
            templates,
            "lds.yaml.tera"@,
            told,
        ),
        generator.clusters_text(templates) == clusters_rendered(
            templates,
            "cds.yaml.tera"@,
            joined(generator.gateway().file_listeners(), listener_clusters()),
        ),
        route_file(templates)(listener) == (
            told_routes()(listener).name,
            route_rendered(templates, "rds.yaml.tera"@, told_routes()(listener)),
        ),
{
    assert(told =~= generator.gateway().file_listeners().map_values(told_listener()));
}

} // verus!
