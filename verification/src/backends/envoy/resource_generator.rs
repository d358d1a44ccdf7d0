//! The listeners, virtual hosts and clusters that a gateway calls for.
use core::cmp::Ordering;
use vstd::prelude::*;
use vstd::std_specs::cmp::{PartialEqSpec, PartialEqSpecImpl, PartialOrdSpec, PartialOrdSpecImpl};
use crate::backends::envoy::clusters::{
    check_extensions,
    check_listeners,
    clusters_by_name,
    extension_service_cluster,
    generate_all_clusters,
    info_fits,
    listener_fits,
};
use crate::backends::envoy::inference::{
    InferenceClusterInfo,
    InferenceClusterInfoView,
    get_inference_pool_configurations,
    rule_extension,
};
use crate::backends::envoy::resources::{EnvoyCluster, EnvoyRoute, EnvoyRouteView};
use crate::backends::envoy::route_converters::{grpc_route, http_route};
use crate::common::gateway::{Gateway, GatewayView};
use crate::common::listener::{
    Listener,
    ListenerView,
    ProtocolType,
    TlsType,
    TlsTypeView,
    grpc_rules_of,
    http_rules_of,
};
use crate::common::resource_key::DEFAULT_ROUTE_HOSTNAME;
use crate::common::route::{
    GRPCEffectiveRoutingRule,
    GRPCEffectiveRoutingRuleView,
    HTTPEffectiveRoutingRule,
    HTTPEffectiveRoutingRuleView,
    Route,
    RouteView,
};
use crate::lists::{
    append_list,
    choose_list,
    chosen,
    chosen_contains,
    each,
    join_list,
    joined,
    joined_contains,
    map_list,
    one_item,
};
use crate::model::Model;
use crate::order::{Rank, Ranked, text_rank};
use crate::ordered::{
    OrderedMap,
    OrderedSet,
    increasing,
    keys,
    law_put,
    law_put_each,
    law_put_new,
    law_set_of,
    put,
    put_each,
    put_new,
    set_of,
    slot,
    slot_bounds,
    table,
    values,
    with_item,
};
use crate::text::{cat, cat3, text_is};

verus! {

/// The name of a listener with its hostname.
pub type ListenerNameToHostname = (String, Option<String>);

/// The hostnames of a route.
pub open spec fn hosts_of_route() -> spec_fn(RouteView) -> Seq<Seq<char>> {
    |route: RouteView| route.config.hostnames
}

/// The hostnames of some routes, each once, in their order.
pub open spec fn hosts_of_routes(routes: Seq<RouteView>) -> Seq<Seq<char>> {
    set_of::<String>(joined(routes, hosts_of_route()))
}

/// Whether the hostname of a listener decides alone: it is there, not empty and not the wildcard.
pub open spec fn decides(listener_hostname: Option<Seq<char>>) -> bool {
    listener_hostname matches Some(hostname) && hostname.len() > 0 && hostname
        != DEFAULT_ROUTE_HOSTNAME@
}

/// The hostnames where the hostname of the listener does not decide alone: those of the routes where
/// the listener has none, and the wildcard where there is nothing to go by.
pub open spec fn hosts_otherwise(
    routes: Seq<RouteView>,
    listener_hostname: Option<Seq<char>>,
) -> Seq<Seq<char>> {
    if listener_hostname is None && hosts_of_routes(routes).len() > 0 {
        hosts_of_routes(routes)
    } else {
        seq![DEFAULT_ROUTE_HOSTNAME@]
    }
}

/// The hostnames that requests of a listener may be for.
pub open spec fn potential_hosts(
    routes: Seq<RouteView>,
    listener_hostname: Option<Seq<char>>,
) -> Seq<Seq<char>> {
    if decides(listener_hostname) {
        seq![listener_hostname->0]
    } else {
        hosts_otherwise(routes, listener_hostname)
    }
}

/// The domains of a listener: where its hostname decides, with any port and with none.
pub open spec fn effective_hosts(
    routes: Seq<RouteView>,
    listener_hostname: Option<Seq<char>>,
) -> Seq<Seq<char>> {
    if decides(listener_hostname) {
        seq![listener_hostname->0 + ":*"@, listener_hostname->0]
    } else {
        hosts_otherwise(routes, listener_hostname)
    }
}

fn list_hosts(route: &&Route) -> (r: Vec<String>)
    ensures
        r.deep_view() == hosts_of_route()(route.deep_view()),
{
    route.config.hostnames.dup()
}

/// The hostnames of a listener, made by `create_hostnames` where its own hostname decides alone.
pub fn calculate_hostnames_common<F: Fn(String) -> Vec<String>>(
    routes: &Vec<&Route>,
    listener_hostname: Option<String>,
    create_hostnames: F,
) -> (r: Vec<String>)
    requires
        forall|hostname: String| call_requires(create_hostnames, (hostname,)),
    ensures
        decides(listener_hostname.deep_view()) ==> call_ensures(
            create_hostnames,
            (listener_hostname->0,),
            r,
        ),
        !decides(listener_hostname.deep_view()) ==> r.deep_view() == hosts_otherwise(
            routes.deep_view(),
            listener_hostname.deep_view(),
        ),
{
    let all = join_list(routes, list_hosts, Ghost(hosts_of_route()));
    let hosts = OrderedSet::gather(&all);
    match listener_hostname {
        None => {
            if hosts.len() > 0 {
                hosts.items().dup()
            } else {
                one_item(DEFAULT_ROUTE_HOSTNAME.to_owned())
            }
        },
        Some(hostname) => {
            if hostname.as_str().unicode_len() > 0 && !text_is(
                hostname.as_str(),
                DEFAULT_ROUTE_HOSTNAME,
            ) {
                create_hostnames(hostname)
            } else {
                one_item(DEFAULT_ROUTE_HOSTNAME.to_owned())
            }
        },
    }
}

/// A virtual host: the domains it is for and the routes it has.
#[derive(Debug)]
pub struct EnvoyVirtualHost {
    pub name: String,
    pub effective_hostnames: Vec<String>,
    pub resolved_routes: Vec<Route>,
    pub unresolved_routes: Vec<Route>,
    pub http_routes: Vec<EnvoyRoute>,
    pub grpc_routes: Vec<EnvoyRoute>,
}

/// What a [`EnvoyVirtualHost`] holds.
#[verifier::ext_equal]
pub struct EnvoyVirtualHostView {
    pub name: Seq<char>,
    pub effective_hostnames: Seq<Seq<char>>,
    pub resolved_routes: Seq<RouteView>,
    pub unresolved_routes: Seq<RouteView>,
    pub http_routes: Seq<EnvoyRouteView>,
    pub grpc_routes: Seq<EnvoyRouteView>,
}

impl DeepView for EnvoyVirtualHost {
    type V = EnvoyVirtualHostView;

    open spec fn deep_view(&self) -> EnvoyVirtualHostView {
        EnvoyVirtualHostView {
            name: self.name.deep_view(),
            effective_hostnames: self.effective_hostnames.deep_view(),
            resolved_routes: self.resolved_routes.deep_view(),
            unresolved_routes: self.unresolved_routes.deep_view(),
            http_routes: self.http_routes.deep_view(),
            grpc_routes: self.grpc_routes.deep_view(),
        }
    }
}

impl Model for EnvoyVirtualHost {
    fn dup(&self) -> (r: Self) {
        EnvoyVirtualHost {
            name: self.name.dup(),
            effective_hostnames: self.effective_hostnames.dup(),
            resolved_routes: self.resolved_routes.dup(),
            unresolved_routes: self.unresolved_routes.dup(),
            http_routes: self.http_routes.dup(),
            grpc_routes: self.grpc_routes.dup(),
        }
    }

    fn same(&self, other: &Self) -> (r: bool) {
        self.name.same(&other.name)
            && self.effective_hostnames.same(&other.effective_hostnames)
            && self.resolved_routes.same(&other.resolved_routes)
            && self.unresolved_routes.same(&other.unresolved_routes)
            && self.http_routes.same(&other.http_routes)
            && self.grpc_routes.same(&other.grpc_routes)
    }
}

impl PartialEq for EnvoyVirtualHost {
    fn eq(&self, other: &Self) -> (r: bool) {
        self.name.same(&other.name)
    }
}

impl PartialEqSpecImpl for EnvoyVirtualHost {
    open spec fn obeys_eq_spec() -> bool {
        true
    }

    open spec fn eq_spec(&self, other: &Self) -> bool {
        self.name@ == other.name@
    }
}

impl Eq for EnvoyVirtualHost {

}

impl PartialOrd for EnvoyVirtualHost {
    fn partial_cmp(&self, other: &Self) -> (r: Option<Ordering>) {
        Some(self.name.against(&other.name).to_named())
    }
}

impl PartialOrdSpecImpl for EnvoyVirtualHost {
    open spec fn obeys_partial_cmp_spec() -> bool {
        true
    }

    open spec fn partial_cmp_spec(&self, other: &Self) -> Option<Ordering> {
        Some(text_rank(self.name@, other.name@).named())
    }
}

/// A listener, which the listeners of a gateway at one port are made into. Its virtual hosts stand
/// under their names.
#[derive(Debug)]
pub struct EnvoyListener {
    pub name: String,
    pub port: i32,
    pub http_listener_map: OrderedMap<String, EnvoyVirtualHost>,
    pub tcp_listener_map: OrderedSet<(String, Option<String>)>,
    pub tls_type: Option<TlsType>,
}

/// What a [`EnvoyListener`] holds.
#[verifier::ext_equal]
pub struct EnvoyListenerView {
    pub name: Seq<char>,
    pub port: i32,
    pub http_listener_map: Seq<(Seq<char>, EnvoyVirtualHostView)>,
    pub tcp_listener_map: Seq<(Seq<char>, Option<Seq<char>>)>,
    pub tls_type: Option<TlsTypeView>,
}

impl DeepView for EnvoyListener {
    type V = EnvoyListenerView;

    open spec fn deep_view(&self) -> EnvoyListenerView {
        EnvoyListenerView {
            name: self.name.deep_view(),
            port: self.port.deep_view(),
            http_listener_map: self.http_listener_map.deep_view(),
            tcp_listener_map: self.tcp_listener_map.deep_view(),
            tls_type: self.tls_type.deep_view(),
        }
    }
}

impl Model for EnvoyListener {
    fn dup(&self) -> (r: Self) {
        EnvoyListener {
            name: self.name.dup(),
            port: self.port.dup(),
            http_listener_map: self.http_listener_map.dup(),
            tcp_listener_map: self.tcp_listener_map.dup(),
            tls_type: self.tls_type.dup(),
        }
    }

    fn same(&self, other: &Self) -> (r: bool) {
        self.name.same(&other.name)
            && self.port.same(&other.port)
            && self.http_listener_map.same(&other.http_listener_map)
            && self.tcp_listener_map.same(&other.tcp_listener_map)
            && self.tls_type.same(&other.tls_type)
    }
}

/// A rule that the hostname of a virtual host lets in. The hostnames that go together are given.
pub open spec fn http_admitted(
    host: Seq<char>,
    matches: Seq<(Seq<char>, Seq<Seq<char>>)>,
) -> spec_fn(HTTPEffectiveRoutingRuleView) -> Option<HTTPEffectiveRoutingRuleView> {
    |rule: HTTPEffectiveRoutingRuleView|
        if matches.contains((host, rule.hostnames)) {
            Some(rule)
        } else {
            None
        }
}

/// A gRPC rule that the hostname of a virtual host lets in.
pub open spec fn grpc_admitted(
    host: Seq<char>,
    matches: Seq<(Seq<char>, Seq<Seq<char>>)>,
) -> spec_fn(GRPCEffectiveRoutingRuleView) -> Option<GRPCEffectiveRoutingRuleView> {
    |rule: GRPCEffectiveRoutingRuleView|
        if matches.contains((host, rule.hostnames)) {
            Some(rule)
        } else {
            None
        }
}

impl ListenerView {
    /// The hostnames that requests of the listener may be for.
    pub open spec fn hosts(self) -> Seq<Seq<char>> {
        potential_hosts(self.made_of().resolved_routes, self.made_of().config.hostname)
    }

    /// The rules that a hostname lets in, in the order in which they are tried.
    pub open spec fn http_rules(
        self,
        host: Seq<char>,
        matches: Seq<(Seq<char>, Seq<Seq<char>>)>,
    ) -> Seq<HTTPEffectiveRoutingRuleView> {
        chosen(
            http_rules_of(self.made_of().resolved_routes, self.made_of().unresolved_routes),
            http_admitted(host, matches),
        )
    }

    /// The gRPC rules that a hostname lets in, in the order in which they are tried.
    pub open spec fn grpc_rules(
        self,
        host: Seq<char>,
        matches: Seq<(Seq<char>, Seq<Seq<char>>)>,
    ) -> Seq<GRPCEffectiveRoutingRuleView> {
        chosen(
            grpc_rules_of(self.made_of().resolved_routes, self.made_of().unresolved_routes),
            grpc_admitted(host, matches),
        )
    }

    /// The virtual host for a hostname.
    pub open spec fn virtual_host(
        self,
        host: Seq<char>,
        matches: Seq<(Seq<char>, Seq<Seq<char>>)>,
    ) -> EnvoyVirtualHostView {
        EnvoyVirtualHostView {
            name: self.made_of().config.name + "-"@ + host,
            effective_hostnames: effective_hosts(self.made_of().resolved_routes, Some(host)),
            resolved_routes: self.made_of().resolved_routes,
            unresolved_routes: self.made_of().unresolved_routes,
            http_routes: self.http_rules(host, matches).map_values(http_route()),
            grpc_routes: self.grpc_rules(host, matches).map_values(grpc_route()),
        }
    }

    /// The virtual hosts for hostnames, the first of a name where a name comes twice.
    pub open spec fn virtual_hosts(
        self,
        hosts: Seq<Seq<char>>,
        matches: Seq<(Seq<char>, Seq<Seq<char>>)>,
    ) -> Seq<(Seq<char>, EnvoyVirtualHostView)>
        decreases hosts.len(),
    {
        if hosts.len() == 0 {
            Seq::empty()
        } else {
            let host = self.virtual_host(hosts.last(), matches);
            put_new::<String, EnvoyVirtualHostView>(
                self.virtual_hosts(hosts.drop_last(), matches),
                host.name,
                host,
            )
        }
    }

    /// The listener that the listener is made into where it is the first at its port.
    pub open spec fn envoy_listener(
        self,
        gateway_name: Seq<char>,
        matches: Seq<(Seq<char>, Seq<Seq<char>>)>,
    ) -> EnvoyListenerView {
        EnvoyListenerView {
            name: gateway_name,
            port: self.made_of().config.port,
            http_listener_map: self.virtual_hosts(self.hosts(), matches),
            tcp_listener_map: Seq::empty(),
            tls_type: self.made_of().config.tls_type,
        }
    }

    /// The extensions that the rules of the listener call for at a hostname.
    pub open spec fn extensions_at(self, matches: Seq<(Seq<char>, Seq<Seq<char>>)>) -> spec_fn(
        Seq<char>,
    ) -> Seq<InferenceClusterInfoView> {
        |host: Seq<char>| chosen(self.http_rules(host, matches), rule_extension())
    }
}

/// The extensions that the rules of a listener call for: only HTTP has them.
pub open spec fn listener_extensions(matches: Seq<(Seq<char>, Seq<Seq<char>>)>) -> spec_fn(
    ListenerView,
) -> Seq<InferenceClusterInfoView> {
    |listener: ListenerView|
        if listener.speaks() == ProtocolType::Http || listener.speaks() == ProtocolType::Https {
            joined(listener.hosts(), listener.extensions_at(matches))
        } else {
            Seq::empty()
        }
}

/// The listeners by their ports after one more listener of the gateway: it joins the listener at its
/// port, or becomes one. Only HTTP, HTTPS and TCP do.
pub open spec fn with_listener(
    made: Seq<(i32, EnvoyListenerView)>,
    gateway_name: Seq<char>,
    listener: ListenerView,
    matches: Seq<(Seq<char>, Seq<Seq<char>>)>,
) -> Seq<(i32, EnvoyListenerView)> {
    let config = listener.made_of().config;
    let named = (config.name, config.hostname);
    let there = keys(made).contains(config.port);
    let before = table(made)[config.port];
    match listener.speaks() {
        ProtocolType::Http | ProtocolType::Https => {
            let new = listener.envoy_listener(gateway_name, matches);
            let next = if there {
                EnvoyListenerView {
                    http_listener_map: put_each::<String, EnvoyVirtualHostView>(
                        before.http_listener_map,
                        new.http_listener_map,
                    ),
                    ..before
                }
            } else {
                new
            };
            put::<i32, EnvoyListenerView>(made, config.port, next)
        },
        ProtocolType::Tcp => {
            let next = if there {
                EnvoyListenerView {
                    tcp_listener_map: with_item::<(String, Option<String>)>(
                        before.tcp_listener_map,
                        named,
                    ),
                    ..before
                }
            } else {
                EnvoyListenerView {
                    name: gateway_name,
                    port: config.port,
                    http_listener_map: Seq::empty(),
                    tcp_listener_map: seq![named],
                    tls_type: None,
                }
            };
            put::<i32, EnvoyListenerView>(made, config.port, next)
        },
        _ => made,
    }
}

/// The listeners by their ports that the listeners of a gateway are made into.
pub open spec fn mapped_listeners(
    gateway_name: Seq<char>,
    listeners: Seq<ListenerView>,
    matches: Seq<(Seq<char>, Seq<Seq<char>>)>,
) -> Seq<(i32, EnvoyListenerView)>
    decreases listeners.len(),
{
    if listeners.len() == 0 {
        Seq::empty()
    } else {
        with_listener(
            mapped_listeners(gateway_name, listeners.drop_last(), matches),
            gateway_name,
            listeners.last(),
            matches,
        )
    }
}

/// The pairs of a hostname and the hostnames of a rule on which it depends what a listener is made
/// into.
pub open spec fn asked_of_http(host: Seq<char>) -> spec_fn(HTTPEffectiveRoutingRuleView) -> (
    Seq<char>,
    Seq<Seq<char>>,
) {
    |rule: HTTPEffectiveRoutingRuleView| (host, rule.hostnames)
}

/// The pair of a hostname and the hostnames of a gRPC rule.
pub open spec fn asked_of_grpc(host: Seq<char>) -> spec_fn(GRPCEffectiveRoutingRuleView) -> (
    Seq<char>,
    Seq<Seq<char>>,
) {
    |rule: GRPCEffectiveRoutingRuleView| (host, rule.hostnames)
}

/// The pairs of a hostname and the hostnames of each rule of a listener.
pub open spec fn asked_at(listener: ListenerView) -> spec_fn(Seq<char>) -> Seq<
    (Seq<char>, Seq<Seq<char>>),
> {
    |host: Seq<char>|
        http_rules_of(
            listener.made_of().resolved_routes,
            listener.made_of().unresolved_routes,
        ).map_values(asked_of_http(host)) + grpc_rules_of(
            listener.made_of().resolved_routes,
            listener.made_of().unresolved_routes,
        ).map_values(asked_of_grpc(host))
}

fn ask_at(
    host: &String,
    http: &Vec<HTTPEffectiveRoutingRule>,
    grpc: &Vec<GRPCEffectiveRoutingRule>,
) -> (r: Vec<(String, Vec<String>)>)
    ensures
        r.deep_view() == http.deep_view().map_values(asked_of_http(host@))
            + grpc.deep_view().map_values(asked_of_grpc(host@)),
{
    let first = map_list(
        http,
        |rule: &HTTPEffectiveRoutingRule| -> (y: (String, Vec<String>))
            ensures y.deep_view() == asked_of_http(host@)(rule.deep_view())
        { (host.dup(), rule.hostnames.dup()) },
        Ghost(asked_of_http(host@)),
    );
    let second = map_list(
        grpc,
        |rule: &GRPCEffectiveRoutingRule| -> (y: (String, Vec<String>))
            ensures y.deep_view() == asked_of_grpc(host@)(rule.deep_view())
        { (host.dup(), rule.hostnames.dup()) },
        Ghost(asked_of_grpc(host@)),
    );
    append_list(first, second)
}

fn potential_hostnames(listener: &Listener) -> (r: Vec<String>)
    ensures
        r.deep_view() == listener.deep_view().hosts(),
{
    let (resolved, _) = listener.routes();
    let hostname = match listener.hostname() {
        Some(hostname) => Some(hostname.dup()),
        None => None,
    };
    ResourceGenerator::calculate_potential_hostnames(&resolved, hostname)
}

/// The pairs of a hostname and the hostnames of a rule on which it depends what a listener is made
/// into. Those of them that go together are what the generator is given.
pub fn hostname_pairs(listener: &Listener) -> (r: Vec<(String, Vec<String>)>)
    ensures
        r.deep_view() == joined(listener.deep_view().hosts(), asked_at(listener.deep_view())),
{
    let hosts = potential_hostnames(listener);
    let http = listener.http_matching_rules();
    let grpc = listener.grpc_matching_rules();
    join_list(
        &hosts,
        |host: &String| -> (y: Vec<(String, Vec<String>)>)
            ensures y.deep_view() == asked_at(listener.deep_view())(host.deep_view())
        { ask_at(host, &http, &grpc) },
        Ghost(asked_at(listener.deep_view())),
    )
}

fn admit_http(
    rule: &HTTPEffectiveRoutingRule,
    host: &String,
    matches: &OrderedSet<(String, Vec<String>)>,
) -> (r: Option<HTTPEffectiveRoutingRule>)
    ensures
        r.deep_view() == http_admitted(host@, matches.deep_view())(rule.deep_view()),
{
    let pair = (host.dup(), rule.hostnames.dup());
    if matches.contains(&pair) {
        Some(rule.dup())
    } else {
        None
    }
}

fn admit_grpc(
    rule: &GRPCEffectiveRoutingRule,
    host: &String,
    matches: &OrderedSet<(String, Vec<String>)>,
) -> (r: Option<GRPCEffectiveRoutingRule>)
    ensures
        r.deep_view() == grpc_admitted(host@, matches.deep_view())(rule.deep_view()),
{
    let pair = (host.dup(), rule.hostnames.dup());
    if matches.contains(&pair) {
        Some(rule.dup())
    } else {
        None
    }
}

fn copy_route(route: &&Route) -> (r: Route)
    ensures
        r.deep_view() == (|x: RouteView| x)(route.deep_view()),
{
    route.dup()
}

fn copy_routes(routes: &Vec<&Route>) -> (r: Vec<Route>)
    ensures
        r.deep_view() == routes.deep_view(),
{
    let out = map_list(routes, copy_route, Ghost(|x: RouteView| x));
    assert(out.deep_view() =~= routes.deep_view());
    out
}

/// Makes a gateway into listeners and clusters.
pub struct ResourceGenerator<'a> {
    effective_gateway: &'a Gateway,
    resources: OrderedMap<i32, EnvoyListener>,
    inference_clusters: Vec<InferenceClusterInfo>,
}

impl<'a> ResourceGenerator<'a> {
    /// The gateway.
    pub closed spec fn gateway(&self) -> GatewayView {
        self.effective_gateway.deep_view()
    }

    /// The listeners that were made, by their ports.
    pub closed spec fn listeners(&self) -> Seq<(i32, EnvoyListenerView)> {
        self.resources.deep_view()
    }

    /// The extensions that the rules were found to call for.
    pub closed spec fn extensions(&self) -> Seq<InferenceClusterInfoView> {
        self.inference_clusters.deep_view()
    }

    /// A generator for a gateway, which has made nothing.
    pub fn new(effective_gateway: &'a Gateway) -> (r: Self)
        ensures
            r.gateway() == effective_gateway.deep_view(),
            r.listeners() == Seq::<(i32, EnvoyListenerView)>::empty(),
            r.extensions() == Seq::<InferenceClusterInfoView>::empty(),
    {
        let inference_clusters: Vec<InferenceClusterInfo> = Vec::new();
        assert(inference_clusters.deep_view() =~= Seq::<InferenceClusterInfoView>::empty());
        ResourceGenerator { effective_gateway, resources: OrderedMap::new(), inference_clusters }
    }

    /// The hostnames that requests of a listener may be for.
    pub fn calculate_potential_hostnames(
        routes: &Vec<&Route>,
        listener_hostname: Option<String>,
    ) -> (r: Vec<String>)
        ensures
            r.deep_view() == potential_hosts(routes.deep_view(), listener_hostname.deep_view()),
    {
        calculate_hostnames_common(
            routes,
            listener_hostname,
            |hostname: String| -> (y: Vec<String>)
                ensures y.deep_view() == seq![hostname@]
            { one_item(hostname) },
        )
    }

    /// The domains of a listener.
    pub fn calculate_effective_hostnames(
        routes: &Vec<&Route>,
        listener_hostname: Option<String>,
    ) -> (r: Vec<String>)
        ensures
            r.deep_view() == effective_hosts(routes.deep_view(), listener_hostname.deep_view()),
    {
        calculate_hostnames_common(
            routes,
            listener_hostname,
            |hostname: String| -> (y: Vec<String>)
                ensures y.deep_view() == seq![hostname@ + ":*"@, hostname@]
            { with_ports(hostname) },
        )
    }

    fn generate_virtual_host(
        &mut self,
        listener: &Listener,
        host: &String,
        matches: &OrderedSet<(String, Vec<String>)>,
    ) -> (r: EnvoyVirtualHost)
        ensures
            final(self).gateway() == old(self).gateway(),
            final(self).listeners() == old(self).listeners(),
            final(self).extensions() == old(self).extensions()
                + listener.deep_view().extensions_at(matches.deep_view())(host@),
            r.deep_view() == listener.deep_view().virtual_host(host@, matches.deep_view()),
    {
        let (resolved, unresolved) = listener.routes();
        let all_http = listener.http_matching_rules();
        let all_grpc = listener.grpc_matching_rules();
        let http = choose_list(
            &all_http,
            |rule: &HTTPEffectiveRoutingRule| -> (y: Option<HTTPEffectiveRoutingRule>)
                ensures y.deep_view() == http_admitted(host@, matches.deep_view())(rule.deep_view())
            { admit_http(rule, host, matches) },
            Ghost(http_admitted(host@, matches.deep_view())),
        );
        let grpc = choose_list(
            &all_grpc,
            |rule: &GRPCEffectiveRoutingRule| -> (y: Option<GRPCEffectiveRoutingRule>)
                ensures y.deep_view() == grpc_admitted(host@, matches.deep_view())(rule.deep_view())
            { admit_grpc(rule, host, matches) },
            Ghost(grpc_admitted(host@, matches.deep_view())),
        );
        let mut extensions = choose_list(
            &http,
            get_inference_pool_configurations,
            Ghost(rule_extension()),
        );
        let ghost before = self.inference_clusters.deep_view();
        let ghost more = extensions.deep_view();
        self.inference_clusters.append(&mut extensions);
        assert(self.inference_clusters.deep_view() =~= before + more);
        EnvoyVirtualHost {
            name: cat3(listener.name(), "-", host.as_str()),
            effective_hostnames: Self::calculate_effective_hostnames(&resolved, Some(host.dup())),
            resolved_routes: copy_routes(&resolved),
            unresolved_routes: copy_routes(&unresolved),
            http_routes: map_list(&http, EnvoyRoute::of_http_rule, Ghost(http_route())),
            grpc_routes: map_list(&grpc, EnvoyRoute::of_grpc_rule, Ghost(grpc_route())),
        }
    }

    fn generate_envoy_listener(
        &mut self,
        gateway_name: String,
        listener: &Listener,
        matches: &OrderedSet<(String, Vec<String>)>,
    ) -> (r: EnvoyListener)
        ensures
            final(self).gateway() == old(self).gateway(),
            final(self).listeners() == old(self).listeners(),
            final(self).extensions() == old(self).extensions() + joined(
                listener.deep_view().hosts(),
                listener.deep_view().extensions_at(matches.deep_view()),
            ),
            r.deep_view() == listener.deep_view().envoy_listener(
                gateway_name@,
                matches.deep_view(),
            ),
    {
        let hosts = potential_hostnames(listener);
        let ghost all = hosts.deep_view();
        let ghost before = self.extensions();
        let ghost seen = listener.deep_view();
        let ghost pairs = matches.deep_view();
        let mut http_listener_map: OrderedMap<String, EnvoyVirtualHost> = OrderedMap::new();
        let mut i: usize = 0;
        assert(all.take(0) =~= Seq::<Seq<char>>::empty());
        assert(self.extensions() =~= before + joined(all.take(0), seen.extensions_at(pairs)));
        while i < hosts.len()
            invariant
                i <= hosts.len(),
                hosts.deep_view() == all,
                seen == listener.deep_view(),
                pairs == matches.deep_view(),
                self.gateway() == old(self).gateway(),
                self.listeners() == old(self).listeners(),
                self.extensions() == before + joined(
                    all.take(i as int),
                    seen.extensions_at(pairs),
                ),
                http_listener_map.deep_view() == seen.virtual_hosts(all.take(i as int), pairs),
            decreases hosts.len() - i,
        {
            let host = self.generate_virtual_host(listener, &hosts[i], matches);
            assert(all[i as int] == hosts[i as int].deep_view());
            assert(all.take(i + 1).drop_last() =~= all.take(i as int));
            http_listener_map.insert_new(host.name.dup(), host);
            i = i + 1;
            assert(self.extensions() =~= before + joined(
                all.take(i as int),
                seen.extensions_at(pairs),
            ));
        }
        assert(all.take(i as int) =~= all);
        EnvoyListener {
            name: gateway_name,
            port: listener.port(),
            http_listener_map,
            tcp_listener_map: OrderedSet::new(),
            tls_type: listener.config().tls_type.dup(),
        }
    }

    fn add_listener(
        &mut self,
        made: &mut OrderedMap<i32, EnvoyListener>,
        gateway_name: String,
        listener: &Listener,
        matches: &OrderedSet<(String, Vec<String>)>,
    )
        ensures
            final(self).gateway() == old(self).gateway(),
            final(self).listeners() == old(self).listeners(),
            final(self).extensions() == old(self).extensions() + listener_extensions(
                matches.deep_view(),
            )(listener.deep_view()),
            final(made).deep_view() == with_listener(
                old(made).deep_view(),
                gateway_name@,
                listener.deep_view(),
                matches.deep_view(),
            ),
    {
        let port: i32 = listener.port();
        assert(self.extensions() =~= self.extensions() + Seq::<InferenceClusterInfoView>::empty());
        match listener.protocol() {
            ProtocolType::Http | ProtocolType::Https => {
                let new = self.generate_envoy_listener(gateway_name, listener, matches);
                let next = match made.get(&port) {
                    Some(there) => {
                        let mut next = there.dup();
                        next.http_listener_map.append(&new.http_listener_map);
                        next
                    },
                    None => new,
                };
                made.insert(port, next);
            },
            ProtocolType::Tcp => {
                let hostname = match listener.hostname() {
                    Some(hostname) => Some(hostname.dup()),
                    None => None,
                };
                let named = (listener.name().to_owned(), hostname);
                let next = match made.get(&port) {
                    Some(there) => {
                        let mut next = there.dup();
                        next.tcp_listener_map.insert(named);
                        next
                    },
                    None => {
                        let mut tcp_listener_map: OrderedSet<(String, Option<String>)> =
                            OrderedSet::new();
                        tcp_listener_map.insert(named);
                        assert(tcp_listener_map.deep_view() =~= seq![named.deep_view()]);
                        EnvoyListener {
                            name: gateway_name,
                            port,
                            http_listener_map: OrderedMap::new(),
                            tcp_listener_map,
                            tls_type: None,
                        }
                    },
                };
                made.insert(port, next);
            },
            _ => {},
        }
    }

    fn generate_envoy_listener_mapping(&mut self, matches: &OrderedSet<(String, Vec<String>)>) -> (r:
        OrderedMap<i32, EnvoyListener>)
        ensures
            final(self).gateway() == old(self).gateway(),
            final(self).listeners() == old(self).listeners(),
            final(self).extensions() == old(self).extensions() + joined(
                values(old(self).gateway().listeners),
                listener_extensions(matches.deep_view()),
            ),
            r.deep_view() == mapped_listeners(
                old(self).gateway().resource_key.name,
                values(old(self).gateway().listeners),
                matches.deep_view(),
            ),
    {
        let gateway = self.effective_gateway;
        let listeners = gateway.listeners();
        let ghost all = listeners.deep_view();
        let ghost name = gateway.deep_view().resource_key.name;
        let ghost before = self.extensions();
        let ghost pairs = matches.deep_view();
        let mut made: OrderedMap<i32, EnvoyListener> = OrderedMap::new();
        let mut i: usize = 0;
        assert(all.take(0) =~= Seq::<ListenerView>::empty());
        assert(self.extensions() =~= before + joined(all.take(0), listener_extensions(pairs)));
        while i < listeners.len()
            invariant
                i <= listeners.len(),
                listeners.deep_view() == all,
                name == gateway.deep_view().resource_key.name,
                pairs == matches.deep_view(),
                self.gateway() == old(self).gateway(),
                self.listeners() == old(self).listeners(),
                self.extensions() == before + joined(all.take(i as int), listener_extensions(pairs)),
                made.deep_view() == mapped_listeners(name, all.take(i as int), pairs),
            decreases listeners.len() - i,
        {
            self.add_listener(&mut made, gateway.name().to_owned(), listeners[i], matches);
            assert(all[i as int] == listeners[i as int].deep_view());
            assert(all.take(i + 1).drop_last() =~= all.take(i as int));
            i = i + 1;
            assert(self.extensions() =~= before + joined(
                all.take(i as int),
                listener_extensions(pairs),
            ));
        }
        assert(all.take(i as int) =~= all);
        made
    }

    /// Makes the listeners of the gateway into listeners by their ports. `matches` holds the pairs of
    /// a hostname of a virtual host and the hostnames of a rule that go together.
    pub fn generate_envoy_listeners(&mut self, matches: &OrderedSet<(String, Vec<String>)>) -> (r:
        &OrderedMap<i32, EnvoyListener>)
        ensures
            final(self).gateway() == old(self).gateway(),
            final(self).extensions() == old(self).extensions() + joined(
                values(old(self).gateway().listeners),
                listener_extensions(matches.deep_view()),
            ),
            final(self).listeners() == mapped_listeners(
                old(self).gateway().resource_key.name,
                values(old(self).gateway().listeners),
                matches.deep_view(),
            ),
            r.deep_view() == final(self).listeners(),
    {
        let listeners = self.generate_envoy_listener_mapping(matches);
        self.resources = listeners;
        &self.resources
    }

    /// Whether what gets a cluster is at a port that can be.
    pub fn ports_fit(&self) -> (r: bool)
        ensures
            r == (each(values(self.listeners()), listener_fits()) && each(
                self.extensions(),
                info_fits(),
            )),
    {
        let listeners = self.resources.values();
        let first = check_listeners(&listeners);
        let second = check_extensions(&self.inference_clusters);
        first && second
    }

    /// The clusters of the services and the pools that the routes of the listeners send requests to,
    /// in the order of their names, and then the clusters of the extensions.
    pub fn generate_envoy_clusters(&self) -> (r: Vec<EnvoyCluster>)
        requires
            each(values(self.listeners()), listener_fits()),
            each(self.extensions(), info_fits()),
        ensures
            r.deep_view() == values(clusters_by_name(values(self.listeners()), true)) + chosen(
                self.extensions(),
                extension_service_cluster(),
            ),
    {
        let listeners = self.resources.values();
        generate_all_clusters(&listeners, &self.inference_clusters)
    }
}

fn with_ports(hostname: String) -> (r: Vec<String>)
    ensures
        r.deep_view() == seq![hostname@ + ":*"@, hostname@],
{
    let mut out: Vec<String> = Vec::new();
    out.push(cat(hostname.as_str(), ":*"));
    out.push(hostname);
    assert(out.deep_view() =~= seq![hostname@ + ":*"@, hostname@]);
    out
}

/// The listeners that a gateway is made into stand under their ports, no two of them at one port.
pub proof fn law_one_listener_at_a_port(
    gateway_name: Seq<char>,
    listeners: Seq<ListenerView>,
    matches: Seq<(Seq<char>, Seq<Seq<char>>)>,
)
    ensures
        increasing::<i32>(keys(mapped_listeners(gateway_name, listeners, matches))),
        forall|port: i32| #[trigger]
            table(mapped_listeners(gateway_name, listeners, matches)).contains_key(port) ==> table(
                mapped_listeners(gateway_name, listeners, matches),
            )[port].port == port,
    decreases listeners.len(),
{
    if listeners.len() > 0 {
        let made = mapped_listeners(gateway_name, listeners.drop_last(), matches);
        let listener = listeners.last();
        let port = listener.made_of().config.port;
        law_one_listener_at_a_port(gateway_name, listeners.drop_last(), matches);
        let next = mapped_listeners(gateway_name, listeners, matches);
        match listener.speaks() {
            ProtocolType::Http | ProtocolType::Https | ProtocolType::Tcp => {
                assert(keys(made).contains(port) == table(made).contains_key(port));
                slot_bounds::<i32>(keys(made), port);
                let p = slot::<i32>(keys(made), port);
                let value = next[p].1;
                assert(next == put::<i32, EnvoyListenerView>(made, port, value));
                law_put::<i32, EnvoyListenerView>(made, port, value);
            },
            _ => {},
        }
    }
}

/// Of the listeners of a gateway for HTTP and TCP at one port, the first decides on the name and on
/// TLS, where it is one for HTTP; one for TCP leaves TLS alone.
pub proof fn law_first_at_a_port(
    gateway_name: Seq<char>,
    listeners: Seq<ListenerView>,
    matches: Seq<(Seq<char>, Seq<Seq<char>>)>,
    i: int,
)
    requires
        0 <= i < listeners.len(),
        listeners[i] is Http || listeners[i] is Https || listeners[i] is Tcp,
        forall|j: int|
            0 <= j < i && (#[trigger] listeners[j]).made_of().config.port
                == listeners[i].made_of().config.port ==> listeners[j] is Tls || listeners[j] is Udp,
    ensures
        ({
            let made = table(mapped_listeners(gateway_name, listeners, matches));
            let config = listeners[i].made_of().config;
            &&& made.contains_key(config.port)
            &&& made[config.port].name == gateway_name
            &&& made[config.port].port == config.port
            &&& listeners[i] is Tcp ==> made[config.port].tls_type is None
            &&& !(listeners[i] is Tcp) ==> made[config.port].tls_type == config.tls_type
        }),
    decreases listeners.len(),
{
    let shorter = listeners.drop_last();
    let made = mapped_listeners(gateway_name, shorter, matches);
    let last = listeners.last();
    let at = last.made_of().config.port;
    let port = listeners[i].made_of().config.port;
    law_one_listener_at_a_port(gateway_name, shorter, matches);
    law_one_listener_at_a_port(gateway_name, listeners, matches);
    assert(keys(made).contains(port) == table(made).contains_key(port));
    assert(keys(made).contains(at) == table(made).contains_key(at));
    if i < shorter.len() {
        assert forall|j: int| 0 <= j < i && (#[trigger] shorter[j]).made_of().config.port
            == shorter[i].made_of().config.port implies shorter[j] is Tls || shorter[j] is Udp by {
            assert(listeners[j] == shorter[j]);
        }
        law_first_at_a_port(gateway_name, shorter, matches, i);
    } else {
        law_port_is_taken(gateway_name, shorter, matches, port);
        if table(made).contains_key(port) {
            let j = choose|j: int|
                0 <= j < shorter.len() && (#[trigger] shorter[j]).made_of().config.port == port && (
                shorter[j] is Http || shorter[j] is Https || shorter[j] is Tcp);
            assert(listeners[j] == shorter[j]);
        }
    }
    match last.speaks() {
        ProtocolType::Http | ProtocolType::Https | ProtocolType::Tcp => {
            let next = mapped_listeners(gateway_name, listeners, matches);
            slot_bounds::<i32>(keys(made), at);
            let p = slot::<i32>(keys(made), at);
            let value = next[p].1;
            assert(next == put::<i32, EnvoyListenerView>(made, at, value));
            law_put::<i32, EnvoyListenerView>(made, at, value);
        },
        _ => {},
    }
}

/// There is a listener at a port exactly where a listener of the gateway for HTTP, HTTPS or TCP is at
/// the port.
pub proof fn law_port_is_taken(
    gateway_name: Seq<char>,
    listeners: Seq<ListenerView>,
    matches: Seq<(Seq<char>, Seq<Seq<char>>)>,
    port: i32,
)
    ensures
        table(mapped_listeners(gateway_name, listeners, matches)).contains_key(port) <==> exists|
            j: int,
        |
            0 <= j < listeners.len() && (#[trigger] listeners[j]).made_of().config.port == port && (
            listeners[j] is Http || listeners[j] is Https || listeners[j] is Tcp),
    decreases listeners.len(),
{
    if listeners.len() > 0 {
        let shorter = listeners.drop_last();
        let made = mapped_listeners(gateway_name, shorter, matches);
        let last = listeners.last();
        let at = last.made_of().config.port;
        law_port_is_taken(gateway_name, shorter, matches, port);
        law_one_listener_at_a_port(gateway_name, shorter, matches);
        assert(keys(made).contains(at) == table(made).contains_key(at));
        let next = mapped_listeners(gateway_name, listeners, matches);
        match last.speaks() {
            ProtocolType::Http | ProtocolType::Https | ProtocolType::Tcp => {
                slot_bounds::<i32>(keys(made), at);
                let p = slot::<i32>(keys(made), at);
                let value = next[p].1;
                assert(next == put::<i32, EnvoyListenerView>(made, at, value));
                law_put::<i32, EnvoyListenerView>(made, at, value);
            },
            _ => {},
        }
        if table(made).contains_key(port) {
            let j = choose|j: int|
                0 <= j < shorter.len() && (#[trigger] shorter[j]).made_of().config.port == port && (
                shorter[j] is Http || shorter[j] is Https || shorter[j] is Tcp);
            assert(listeners[j] == shorter[j]);
        }
        if table(next).contains_key(port) && !table(made).contains_key(port) {
            assert(listeners[listeners.len() - 1] == last);
        }
        if exists|j: int|
            0 <= j < listeners.len() && (#[trigger] listeners[j]).made_of().config.port == port && (
            listeners[j] is Http || listeners[j] is Https || listeners[j] is Tcp) {
            let j = choose|j: int|
                0 <= j < listeners.len() && (#[trigger] listeners[j]).made_of().config.port == port
                    && (listeners[j] is Http || listeners[j] is Https || listeners[j] is Tcp);
            if j < shorter.len() {
                assert(shorter[j] == listeners[j]);
            }
        }
    }
}

/// The virtual host for a hostname is named by the listener and the hostname. It is for the hostname
/// with any port and with none, and for all hosts where the hostname is empty or the wildcard.
pub proof fn law_virtual_host_domains(
    listener: ListenerView,
    host: Seq<char>,
    matches: Seq<(Seq<char>, Seq<Seq<char>>)>,
)
    ensures
        listener.virtual_host(host, matches).name == listener.made_of().config.name + "-"@ + host,
        host.len() == 0 || host == "*"@ ==> listener.virtual_host(host, matches).effective_hostnames
            == seq!["*"@],
        host.len() > 0 && host != "*"@ ==> listener.virtual_host(host, matches).effective_hostnames
            == seq![host + ":*"@, host],
        listener.virtual_host(host, matches).resolved_routes == listener.made_of().resolved_routes,
        listener.virtual_host(host, matches).unresolved_routes
            == listener.made_of().unresolved_routes,
{
}

/// A virtual host has a route for every rule of the routes of its listener whose hostnames go with its
/// hostname, and for no other.
pub proof fn law_virtual_host_routes(
    listener: ListenerView,
    host: Seq<char>,
    matches: Seq<(Seq<char>, Seq<Seq<char>>)>,
)
    ensures
        forall|rule: HTTPEffectiveRoutingRuleView| #[trigger]
            listener.http_rules(host, matches).contains(rule) <==> matches.contains(
                (host, rule.hostnames),
            ) && http_rules_of(
                listener.made_of().resolved_routes,
                listener.made_of().unresolved_routes,
            ).contains(rule),
        forall|rule: GRPCEffectiveRoutingRuleView| #[trigger]
            listener.grpc_rules(host, matches).contains(rule) <==> matches.contains(
                (host, rule.hostnames),
            ) && grpc_rules_of(
                listener.made_of().resolved_routes,
                listener.made_of().unresolved_routes,
            ).contains(rule),
        listener.virtual_host(host, matches).http_routes.len() == listener.http_rules(
            host,
            matches,
        ).len(),
        forall|i: int|
            0 <= i < listener.http_rules(host, matches).len() ==> #[trigger] listener.virtual_host(
                host,
                matches,
            ).http_routes[i] == http_route()(listener.http_rules(host, matches)[i]),
        listener.virtual_host(host, matches).grpc_routes.len() == listener.grpc_rules(
            host,
            matches,
        ).len(),
        forall|i: int|
            0 <= i < listener.grpc_rules(host, matches).len() ==> #[trigger] listener.virtual_host(
                host,
                matches,
            ).grpc_routes[i] == grpc_route()(listener.grpc_rules(host, matches)[i]),
{
    let http = http_rules_of(
        listener.made_of().resolved_routes,
        listener.made_of().unresolved_routes,
    );
    assert forall|rule: HTTPEffectiveRoutingRuleView| #[trigger]
        listener.http_rules(host, matches).contains(rule) <==> matches.contains(
            (host, rule.hostnames),
        ) && http.contains(rule) by {
        chosen_contains(http, http_admitted(host, matches), rule);
        if matches.contains((host, rule.hostnames)) && http.contains(rule) {
            let i = choose|i: int| 0 <= i < http.len() && http[i] == rule;
            assert(http_admitted(host, matches)(http[i]) == Some(rule));
        }
    }
    let grpc = grpc_rules_of(
        listener.made_of().resolved_routes,
        listener.made_of().unresolved_routes,
    );
    assert forall|rule: GRPCEffectiveRoutingRuleView| #[trigger]
        listener.grpc_rules(host, matches).contains(rule) <==> matches.contains(
            (host, rule.hostnames),
        ) && grpc.contains(rule) by {
        chosen_contains(grpc, grpc_admitted(host, matches), rule);
        if matches.contains((host, rule.hostnames)) && grpc.contains(rule) {
            let i = choose|i: int| 0 <= i < grpc.len() && grpc[i] == rule;
            assert(grpc_admitted(host, matches)(grpc[i]) == Some(rule));
        }
    }
}

/// The hostnames that a listener may be asked for: its own where that is one; else the wildcard, or,
/// where the listener has none, all hostnames of its routes.
pub proof fn law_hosts_of_listener(listener: ListenerView)
    ensures
        listener.made_of().config.hostname matches Some(hostname) ==> listener.hosts() == seq![
            if hostname.len() == 0 {
                "*"@
            } else {
                hostname
            },
        ],
        listener.made_of().config.hostname is None ==> {
            let routes = listener.made_of().resolved_routes;
            &&& (forall|i: int|
                0 <= i < routes.len() ==> (#[trigger] routes[i]).config.hostnames.len() == 0)
                ==> listener.hosts() == seq!["*"@]
            &&& forall|i: int, host: Seq<char>|
                0 <= i < routes.len() && #[trigger] routes[i].config.hostnames.contains(host)
                    ==> listener.hosts().contains(host)
            &&& forall|host: Seq<char>| #[trigger]
                listener.hosts().contains(host) ==> host == "*"@ || exists|i: int|
                    0 <= i < routes.len() && (#[trigger] routes[i]).config.hostnames.contains(host)
        },
{
    let routes = listener.made_of().resolved_routes;
    let all = joined(routes, hosts_of_route());
    law_set_of::<String>(all);
    let hosts = hosts_of_routes(routes);
    assert forall|host: Seq<char>| hosts.contains(host) <==> all.contains(host) by {
        assert(hosts.to_set().contains(host) == all.to_set().contains(host));
    }
    if forall|i: int| 0 <= i < routes.len() ==> (#[trigger] routes[i]).config.hostnames.len() == 0 {
        if hosts.len() > 0 {
            assert(hosts.contains(hosts[0]));
            joined_contains(routes, hosts_of_route(), hosts[0]);
        }
    }
    if listener.made_of().config.hostname is None {
        assert forall|i: int, host: Seq<char>|
            0 <= i < routes.len() && #[trigger] routes[i].config.hostnames.contains(
                host,
            ) implies listener.hosts().contains(host) by {
            assert(hosts_of_route()(routes[i]).contains(host));
            joined_contains(routes, hosts_of_route(), host);
            assert(hosts.contains(host));
        }
        assert forall|host: Seq<char>| #[trigger] listener.hosts().contains(host) implies host == "*"@
            || exists|i: int|
            0 <= i < routes.len() && (#[trigger] routes[i]).config.hostnames.contains(host) by {
            joined_contains(routes, hosts_of_route(), host);
            if hosts.len() > 0 {
                let i = choose|i: int|
                    0 <= i < routes.len() && #[trigger] hosts_of_route()(routes[i]).contains(host);
                assert(routes[i].config.hostnames.contains(host));
            }
        }
    }
}

/// The virtual hosts of a listener: one for each of its hostnames, under the names of both.
pub proof fn law_virtual_hosts(
    listener: ListenerView,
    hosts: Seq<Seq<char>>,
    matches: Seq<(Seq<char>, Seq<Seq<char>>)>,
)
    ensures
        increasing::<String>(keys(listener.virtual_hosts(hosts, matches))),
        forall|host: Seq<char>| #[trigger]
            hosts.contains(host) ==> {
                let made = table(listener.virtual_hosts(hosts, matches));
                let name = listener.made_of().config.name + "-"@ + host;
                made.contains_key(name) && made[name] == listener.virtual_host(host, matches)
            },
        forall|name: Seq<char>| #[trigger]
            table(listener.virtual_hosts(hosts, matches)).contains_key(name) ==> exists|i: int|
                0 <= i < hosts.len() && name == listener.made_of().config.name + "-"@
                    + #[trigger] hosts[i],
    decreases hosts.len(),
{
    if hosts.len() > 0 {
        let shorter = hosts.drop_last();
        let before = listener.virtual_hosts(shorter, matches);
        let start = listener.made_of().config.name + "-"@;
        let new = listener.virtual_host(hosts.last(), matches);
        law_virtual_hosts(listener, shorter, matches);
        law_put_new::<String, EnvoyVirtualHostView>(before, new.name, new);
        assert forall|host: Seq<char>| #[trigger] hosts.contains(host) implies {
            let made = table(listener.virtual_hosts(hosts, matches));
            let name = start + host;
            made.contains_key(name) && made[name] == listener.virtual_host(host, matches)
        } by {
            let k = choose|k: int| 0 <= k < hosts.len() && hosts[k] == host;
            if k < shorter.len() {
                assert(shorter[k] == host);
                assert(shorter.contains(host));
                if start + host == new.name {
                    assert((start + host).skip(start.len() as int) =~= host);
                    assert((start + hosts.last()).skip(start.len() as int) =~= hosts.last());
                }
            } else if table(before).contains_key(new.name) {
                let j = choose|j: int|
                    0 <= j < shorter.len() && new.name == start + #[trigger] shorter[j];
                assert((start + shorter[j]).skip(start.len() as int) =~= shorter[j]);
                assert((start + host).skip(start.len() as int) =~= host);
                assert(shorter.contains(shorter[j]));
            }
        }
        assert forall|name: Seq<char>| #[trigger]
            table(listener.virtual_hosts(hosts, matches)).contains_key(name) implies exists|i: int|
            0 <= i < hosts.len() && name == start + #[trigger] hosts[i] by {
            if table(before).contains_key(name) {
                let j = choose|j: int| 0 <= j < shorter.len() && name == start + #[trigger] shorter[j];
                assert(hosts[j] == shorter[j]);
            } else {
                assert(hosts[hosts.len() - 1] == hosts.last());
            }
        }
    }
}

/// The virtual hosts at each port are in the order of their names.
proof fn hosts_increase(
    gateway_name: Seq<char>,
    listeners: Seq<ListenerView>,
    matches: Seq<(Seq<char>, Seq<Seq<char>>)>,
)
    ensures
        forall|port: i32| #[trigger]
            table(mapped_listeners(gateway_name, listeners, matches)).contains_key(port)
                ==> increasing::<String>(
                keys(
                    table(
                        mapped_listeners(gateway_name, listeners, matches),
                    )[port].http_listener_map,
                ),
            ),
    decreases listeners.len(),
{
    if listeners.len() > 0 {
        let shorter = listeners.drop_last();
        let made = mapped_listeners(gateway_name, shorter, matches);
        let last = listeners.last();
        let at = last.made_of().config.port;
        hosts_increase(gateway_name, shorter, matches);
        law_one_listener_at_a_port(gateway_name, shorter, matches);
        assert(keys(made).contains(at) == table(made).contains_key(at));
        law_virtual_hosts(last, last.hosts(), matches);
        if table(made).contains_key(at) {
            law_put_each::<String, EnvoyVirtualHostView>(
                table(made)[at].http_listener_map,
                last.virtual_hosts(last.hosts(), matches),
            );
        }
        match last.speaks() {
            ProtocolType::Http | ProtocolType::Https | ProtocolType::Tcp => {
                let next = mapped_listeners(gateway_name, listeners, matches);
                slot_bounds::<i32>(keys(made), at);
                let p = slot::<i32>(keys(made), at);
                let value = next[p].1;
                assert(next == put::<i32, EnvoyListenerView>(made, at, value));
                law_put::<i32, EnvoyListenerView>(made, at, value);
            },
            _ => {},
        }
    }
}

/// At its port each listener has a virtual host for each of its hostnames, whatever other listeners are at
/// the port, unless a later one takes the name.
pub proof fn law_hosts_at_a_port(
    gateway_name: Seq<char>,
    listeners: Seq<ListenerView>,
    matches: Seq<(Seq<char>, Seq<Seq<char>>)>,
    i: int,
    host: Seq<char>,
)
    requires
        0 <= i < listeners.len(),
        listeners[i] is Http || listeners[i] is Https,
        listeners[i].hosts().contains(host),
        forall|j: int, other: Seq<char>|
            i < j < listeners.len() && #[trigger] listeners[j].hosts().contains(other)
                ==> listeners[j].made_of().config.name + "-"@ + other
                != listeners[i].made_of().config.name + "-"@ + host,
    ensures
        ({
            let made = table(mapped_listeners(gateway_name, listeners, matches));
            let config = listeners[i].made_of().config;
            let hosts = table(made[config.port].http_listener_map);
            &&& made.contains_key(config.port)
            &&& hosts.contains_key(config.name + "-"@ + host)
            &&& hosts[config.name + "-"@ + host] == listeners[i].virtual_host(host, matches)
        }),
    decreases listeners.len(),
{
    let shorter = listeners.drop_last();
    let made = mapped_listeners(gateway_name, shorter, matches);
    let last = listeners.last();
    let at = last.made_of().config.port;
    let config = listeners[i].made_of().config;
    let name = config.name + "-"@ + host;
    law_one_listener_at_a_port(gateway_name, shorter, matches);
    hosts_increase(gateway_name, shorter, matches);
    assert(keys(made).contains(at) == table(made).contains_key(at));
    law_virtual_hosts(last, last.hosts(), matches);
    let new = last.virtual_hosts(last.hosts(), matches);
    if table(made).contains_key(at) {
        law_put_each::<String, EnvoyVirtualHostView>(table(made)[at].http_listener_map, new);
    }
    if i < shorter.len() {
        assert forall|j: int, other: Seq<char>|
            i < j < shorter.len() && #[trigger] shorter[j].hosts().contains(other) implies shorter[j].made_of().config.name
            + "-"@ + other != shorter[i].made_of().config.name + "-"@ + host by {
            assert(listeners[j].hosts().contains(other));
        }
        law_hosts_at_a_port(gateway_name, shorter, matches, i, host);
        if table(new).contains_key(name) {
            let k = choose|k: int|
                0 <= k < last.hosts().len() && name == last.made_of().config.name + "-"@
                    + #[trigger] last.hosts()[k];
            assert(listeners[listeners.len() - 1].hosts().contains(last.hosts()[k]));
        }
    }
    match last.speaks() {
        ProtocolType::Http | ProtocolType::Https | ProtocolType::Tcp => {
            let next = mapped_listeners(gateway_name, listeners, matches);
            slot_bounds::<i32>(keys(made), at);
            let p = slot::<i32>(keys(made), at);
            let value = next[p].1;
            assert(next == put::<i32, EnvoyListenerView>(made, at, value));
            law_put::<i32, EnvoyListenerView>(made, at, value);
        },
        _ => {},
    }
}

/// The extensions of a listener are those that its HTTP rules call for, at the hostnames that let them in.
pub proof fn law_listener_extensions(
    listener: ListenerView,
    matches: Seq<(Seq<char>, Seq<Seq<char>>)>,
    host: Seq<char>,
    rule: HTTPEffectiveRoutingRuleView,
)
    ensures
        !(listener is Http) && !(listener is Https) ==> listener_extensions(matches)(listener).len()
            == 0,
        (listener is Http || listener is Https) && listener.hosts().contains(host)
            && matches.contains((host, rule.hostnames)) && http_rules_of(
            listener.made_of().resolved_routes,
            listener.made_of().unresolved_routes,
        ).contains(rule) && rule_extension()(rule) is Some ==> listener_extensions(matches)(
            listener,
        ).contains(rule_extension()(rule)->0),
{
    let give = listener.extensions_at(matches);
    let rules = listener.http_rules(host, matches);
    law_virtual_host_routes(listener, host, matches);
    if listener.hosts().contains(host) && rules.contains(rule) && rule_extension()(rule) is Some {
        let info = rule_extension()(rule)->0;
        let k = choose|k: int| 0 <= k < rules.len() && rules[k] == rule;
        assert(rule_extension()(rules[k]) == Some(info));
        chosen_contains(rules, rule_extension(), info);
        let h = choose|h: int| 0 <= h < listener.hosts().len() && listener.hosts()[h] == host;
        assert(give(listener.hosts()[h]).contains(info));
        joined_contains(listener.hosts(), give, info);
    }
}

/// Two virtual hosts are the same where their names are, and stand to each other as these do.
pub proof fn law_virtual_hosts_told_apart(a: EnvoyVirtualHost, b: EnvoyVirtualHost)
    ensures
        PartialEqSpec::eq_spec(&a, &b) <==> a.name@ == b.name@,
        text_rank(a.name@, b.name@) == Rank::Less
            ==> PartialOrdSpec::partial_cmp_spec(&a, &b) == Some(Ordering::Less),
        text_rank(a.name@, b.name@) == Rank::Equal
            ==> PartialOrdSpec::partial_cmp_spec(&a, &b) == Some(Ordering::Equal),
        text_rank(a.name@, b.name@) == Rank::Greater
            ==> PartialOrdSpec::partial_cmp_spec(&a, &b) == Some(Ordering::Greater),
{
}

} // verus!
