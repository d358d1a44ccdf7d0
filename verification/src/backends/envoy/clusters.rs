//! The clusters that the routes of a gateway send requests to.
use core::cmp::Ordering;
use vstd::prelude::*;
use vstd::std_specs::cmp::{PartialEqSpec, PartialEqSpecImpl, PartialOrdSpec, PartialOrdSpecImpl};
use crate::backends::envoy::converters::{
    DurationConverter,
    SocketAddressFactory,
    one_second,
    quarter_second,
};
use crate::backends::envoy::inference::{InferenceClusterInfo, InferenceClusterInfoView};
use crate::backends::envoy::resource_generator::{
    EnvoyListener,
    EnvoyListenerView,
    EnvoyVirtualHost,
    EnvoyVirtualHostView,
};
use crate::backends::envoy::resources::{
    DiscoveryType,
    Duration,
    DurationView,
    EnvoyCluster,
    EnvoyClusterView,
    HttpProtocolOptions,
    HttpProtocolOptionsView,
    LbEndpoint,
    LbEndpointView,
    LbPolicy,
    OverrideHostPolicy,
    OverrideHostPolicyView,
    TlsProtocol,
    UpstreamTlsContext,
    UpstreamTlsContextView,
};
use crate::common::address::{HostTextView, SocketAddressView};
use crate::common::backend::{
    Backend,
    BackendType,
    BackendTypeConfig,
    BackendTypeView,
    BackendView,
    InferencePoolTypeConfig,
    InferencePoolTypeConfigView,
    ServiceTypeConfig,
    ServiceTypeConfigView,
    cluster_of,
};
use crate::common::route::{
    Route,
    RouteType,
    RouteView,
    list_or_none,
    number_or,
    or_no_items,
    or_number,
};
use crate::lists::{
    all_list,
    append_list,
    choose_list,
    chosen,
    chosen_contains,
    each,
    join_list,
    joined,
    joined_contains,
    map_list,
    no_items,
    one_item,
};
use crate::model::Model;
use crate::order::{Rank, Ranked, text_rank};
use crate::ordered::{
    OrderedMap,
    increasing,
    keys,
    law_stored_keys,
    stored,
    stored_is_of_pairs,
    table,
    values,
};
use crate::text::{cat, cat3};

verus! {

/// The name of the options that tell how HTTP is spoken to a cluster.
pub const HTTP_PROTOCOL_OPTIONS: &'static str =
    "envoy.extensions.upstreams.http.v3.HttpProtocolOptions";

/// A cluster under its name, which alone it is compared by.
#[derive(Debug)]
pub struct ClusterHolder {
    pub name: String,
    pub cluster: EnvoyCluster,
}

/// What a [`ClusterHolder`] holds.
#[verifier::ext_equal]
pub struct ClusterHolderView {
    pub name: Seq<char>,
    pub cluster: EnvoyClusterView,
}

impl DeepView for ClusterHolder {
    type V = ClusterHolderView;

    open spec fn deep_view(&self) -> ClusterHolderView {
        ClusterHolderView {
            name: self.name.deep_view(),
            cluster: self.cluster.deep_view(),
        }
    }
}

impl Model for ClusterHolder {
    fn dup(&self) -> (r: Self) {
        ClusterHolder {
            name: self.name.dup(),
            cluster: self.cluster.dup(),
        }
    }

    fn same(&self, other: &Self) -> (r: bool) {
        self.name.same(&other.name)
            && self.cluster.same(&other.cluster)
    }
}

impl PartialEq for ClusterHolder {
    fn eq(&self, other: &Self) -> (r: bool) {
        self.name.same(&other.name)
    }
}

impl PartialEqSpecImpl for ClusterHolder {
    open spec fn obeys_eq_spec() -> bool {
        true
    }

    open spec fn eq_spec(&self, other: &Self) -> bool {
        self.name@ == other.name@
    }
}

impl Eq for ClusterHolder {

}

impl PartialOrd for ClusterHolder {
    fn partial_cmp(&self, other: &Self) -> (r: Option<Ordering>) {
        Some(self.name.against(&other.name).to_named())
    }
}

impl PartialOrdSpecImpl for ClusterHolder {
    open spec fn obeys_partial_cmp_spec() -> bool {
        true
    }

    open spec fn partial_cmp_spec(&self, other: &Self) -> Option<Ordering> {
        Some(text_rank(self.name@, other.name@).named())
    }
}

impl ClusterHolderView {
    /// A cluster under its own name.
    pub open spec fn of(cluster: EnvoyClusterView) -> ClusterHolderView {
        ClusterHolderView { name: cluster.name, cluster }
    }
}

/// HTTP/2 with at most ten streams at a time.
pub open spec fn http2_options(
    idle_timeout: Option<DurationView>,
    auto_sni: Option<bool>,
) -> Seq<(Seq<char>, HttpProtocolOptionsView)> {
    seq![
        (
            HTTP_PROTOCOL_OPTIONS@,
            HttpProtocolOptionsView { idle_timeout, auto_sni, max_concurrent_streams: 10 },
        ),
    ]
}

/// An endpoint at a host and a port.
pub open spec fn endpoint_at(host: Seq<char>, port: i32, weight: u32) -> LbEndpointView {
    LbEndpointView {
        address: SocketAddressView { address: host, port: port as u32 },
        load_balancing_weight: weight,
    }
}

fn make_endpoint(host: String, port: i32, weight: u32) -> (r: LbEndpoint)
    requires
        port >= 0,
    ensures
        r.deep_view() == endpoint_at(host@, port, weight),
{
    LbEndpoint {
        address: SocketAddressFactory::from_address_port((host, port)),
        load_balancing_weight: weight,
    }
}

fn list_http2_options(idle_timeout: Option<Duration>, auto_sni: Option<bool>) -> (r: Vec<
    (String, HttpProtocolOptions),
>)
    ensures
        r.deep_view() == http2_options(idle_timeout.deep_view(), auto_sni),
{
    one_item(
        (
            HTTP_PROTOCOL_OPTIONS.to_owned(),
            HttpProtocolOptions { idle_timeout, auto_sni, max_concurrent_streams: 10 },
        ),
    )
}

fn wait_to_connect() -> (r: Duration)
    ensures
        r.deep_view() == quarter_second(),
{
    DurationConverter::from((0, 250_000_000))
}

/// The cluster of a service. Over a gRPC route HTTP/2 is spoken to it.
pub open spec fn service_cluster(config: ServiceTypeConfigView, grpc: bool) -> EnvoyClusterView {
    let name = cluster_of(config.resource_key);
    EnvoyClusterView {
        name,
        cluster_discovery_type: Some(DiscoveryType::StrictDns),
        lb_policy: LbPolicy::RoundRobin,
        connect_timeout: quarter_second(),
        assigned_to: name,
        lb_endpoints: seq![
            endpoint_at(config.endpoint, config.effective_port, config.weight as u32),
        ],
        transport_socket: None,
        typed_extension_protocol_options: if grpc {
            http2_options(None, None)
        } else {
            Seq::empty()
        },
        load_balancing_policy: None,
    }
}

/// The cluster of a service that is routed to over a route of a type.
pub fn create_service_cluster(config: &ServiceTypeConfig, route_type: &RouteType) -> (r: ClusterHolder)
    requires
        config.effective_port >= 0,
        config.weight >= 0,
    ensures
        r.deep_view() == ClusterHolderView::of(
            service_cluster(config.deep_view(), route_type is Grpc),
        ),
{
    let weight: i32 = config.weight();
    ClusterHolder {
        name: config.cluster_name(),
        cluster: EnvoyCluster {
            name: config.cluster_name(),
            cluster_discovery_type: Some(DiscoveryType::StrictDns),
            lb_policy: LbPolicy::RoundRobin,
            connect_timeout: wait_to_connect(),
            assigned_to: config.cluster_name(),
            lb_endpoints: one_item(
                LbEndpoint {
                    address: SocketAddressFactory::from_backend(config),
                    load_balancing_weight: weight as u32,
                },
            ),
            transport_socket: None,
            typed_extension_protocol_options: match route_type {
                RouteType::Http(_) => no_items(),
                RouteType::Grpc(_) => list_http2_options(None, None),
            },
            load_balancing_policy: None,
        },
    }
}

/// The host that the extension of a pool is reached at.
pub open spec fn extension_host(config: InferencePoolTypeConfigView) -> Seq<char> {
    config.inference_config->0.extension_ref.name + "."@ + config.resource_key.namespace
}

/// The port that the extension of a pool is reached at: 9002 where none is given.
pub open spec fn extension_port(config: InferencePoolTypeConfigView) -> i32 {
    number_or(config.inference_config->0.extension_ref.port_number, 9002)
}

/// The cluster of an extension, where its pool is configured: HTTP/2 over TLS 1.3.
pub open spec fn extension_service_cluster() -> spec_fn(InferenceClusterInfoView) -> Option<
    EnvoyClusterView,
> {
    |info: InferenceClusterInfoView|
        if info.config.inference_config is None {
            None
        } else {
            Some(
                EnvoyClusterView {
                    name: info.cluster_name,
                    cluster_discovery_type: Some(DiscoveryType::LogicalDns),
                    lb_policy: LbPolicy::RoundRobin,
                    connect_timeout: quarter_second(),
                    assigned_to: info.cluster_name,
                    lb_endpoints: seq![
                        endpoint_at(extension_host(info.config), extension_port(info.config), 1),
                    ],
                    transport_socket: Some(
                        UpstreamTlsContextView {
                            name: info.cluster_name + "_tls"@,
                            minimum_version: TlsProtocol::TlsV13,
                            maximum_version: TlsProtocol::TlsV13,
                            alpn_protocols: seq!["h2"@],
                        },
                    ),
                    typed_extension_protocol_options: http2_options(
                        Some(one_second()),
                        Some(true),
                    ),
                    load_balancing_policy: None,
                },
            )
        }
}

/// Whether the extension of a pool is at a port that can be.
pub open spec fn extension_fits(config: InferencePoolTypeConfigView) -> bool {
    config.inference_config is Some ==> extension_port(config) >= 0
}

/// The cluster of an extension, where its pool is configured.
pub fn generate_ext_service_cluster(config: &InferenceClusterInfo) -> (r: Option<ClusterHolder>)
    requires
        extension_fits(config.deep_view().config),
    ensures
        match extension_service_cluster()(config.deep_view()) {
            Some(cluster) => r matches Some(holder) && holder.deep_view() == ClusterHolderView::of(
                cluster,
            ),
            None => r is None,
        },
{
    let extension_config = match &config.config.inference_config {
        Some(extension_config) => extension_config,
        None => {
            return None;
        },
    };
    let extension = extension_config.extension_ref();
    let host = cat3(
        extension.name.as_str(),
        ".",
        config.config.resource_key.namespace.as_str(),
    );
    let port: i32 = or_number(&extension.port_number, 9002);
    let cluster_name = config.cluster_name().to_owned();
    Some(
        ClusterHolder {
            name: cluster_name.dup(),
            cluster: EnvoyCluster {
                name: cluster_name.dup(),
                cluster_discovery_type: Some(DiscoveryType::LogicalDns),
                lb_policy: LbPolicy::RoundRobin,
                connect_timeout: wait_to_connect(),
                assigned_to: cluster_name.dup(),
                lb_endpoints: one_item(make_endpoint(host, port, 1)),
                transport_socket: Some(
                    UpstreamTlsContext {
                        name: cat(cluster_name.as_str(), "_tls"),
                        minimum_version: TlsProtocol::TlsV13,
                        maximum_version: TlsProtocol::TlsV13,
                        alpn_protocols: one_item("h2".to_owned()),
                    },
                ),
                typed_extension_protocol_options: list_http2_options(
                    Some(DurationConverter::from((1, 0))),
                    Some(true),
                ),
                load_balancing_policy: None,
            },
        },
    )
}

/// The endpoint of a pool at a host.
pub open spec fn pool_endpoint(port: i32) -> spec_fn(HostTextView) -> LbEndpointView {
    |host: HostTextView| endpoint_at(host.text, port, 1)
}

/// The cluster of a pool: the extension names the endpoint of each request in a header.
pub open spec fn pool_cluster(config: InferencePoolTypeConfigView) -> EnvoyClusterView {
    let name = cluster_of(config.resource_key);
    EnvoyClusterView {
        name,
        cluster_discovery_type: None,
        lb_policy: LbPolicy::RoundRobin,
        connect_timeout: quarter_second(),
        assigned_to: name,
        lb_endpoints: list_or_none(config.endpoints).map_values(
            pool_endpoint(config.effective_port),
        ),
        transport_socket: None,
        typed_extension_protocol_options: Seq::empty(),
        load_balancing_policy: Some(
            OverrideHostPolicyView {
                name: "envoy.load_balancing_policies.override_host"@,
                headers: seq!["x-gateway-destination-endpoint"@],
                fallback_policies: seq!["envoy.load_balancing_policies.round_robing"@],
            },
        ),
    }
}

/// Whether the endpoints of a pool are at a port that can be.
pub open spec fn pool_fits(config: InferencePoolTypeConfigView) -> bool {
    list_or_none(config.endpoints).len() > 0 ==> config.effective_port >= 0
}

/// The cluster of a pool.
pub fn create_inference_cluster(config: &InferencePoolTypeConfig) -> (r: ClusterHolder)
    requires
        pool_fits(config.deep_view()),
    ensures
        r.deep_view() == ClusterHolderView::of(pool_cluster(config.deep_view())),
{
    let hosts = or_no_items(&config.endpoints);
    let ghost all = hosts.deep_view();
    let ghost give = pool_endpoint(config.effective_port);
    let mut lb_endpoints: Vec<LbEndpoint> = Vec::new();
    let mut i: usize = 0;
    assert(lb_endpoints.deep_view() =~= all.take(0).map_values(give));
    while i < hosts.len()
        invariant
            i <= hosts.len(),
            hosts.deep_view() == all,
            give == pool_endpoint(config.effective_port),
            all.len() > 0 ==> config.effective_port >= 0,
            lb_endpoints.deep_view() == all.take(i as int).map_values(give),
        decreases hosts.len() - i,
    {
        let ghost before = lb_endpoints.deep_view();
        assert(all[i as int] == hosts[i as int].deep_view());
        lb_endpoints.push(make_endpoint(hosts[i].text.dup(), config.effective_port, 1));
        assert(lb_endpoints.deep_view() =~= before.push(give(all[i as int])));
        i = i + 1;
        assert(lb_endpoints.deep_view() =~= all.take(i as int).map_values(give));
    }
    assert(all.take(i as int) =~= all);
    ClusterHolder {
        name: config.cluster_name(),
        cluster: EnvoyCluster {
            name: config.cluster_name(),
            cluster_discovery_type: None,
            lb_policy: LbPolicy::RoundRobin,
            connect_timeout: wait_to_connect(),
            assigned_to: config.cluster_name(),
            lb_endpoints,
            transport_socket: None,
            typed_extension_protocol_options: no_items(),
            load_balancing_policy: Some(
                OverrideHostPolicy {
                    name: "envoy.load_balancing_policies.override_host".to_owned(),
                    headers: one_item("x-gateway-destination-endpoint".to_owned()),
                    fallback_policies: one_item("envoy.load_balancing_policies.round_robing".to_owned()),
                },
            ),
        },
    }
}

/// The cluster of a resolved backend that is a service and gets requests.
pub open spec fn resolved_service(grpc: bool) -> spec_fn(BackendView) -> Option<ClusterHolderView> {
    |backend: BackendView|
        match backend {
            BackendView::Resolved(BackendTypeView::Service(config)) => if config.weight > 0 {
                Some(ClusterHolderView::of(service_cluster(config, grpc)))
            } else {
                None
            },
            BackendView::Resolved(BackendTypeView::Invalid(config)) => if config.weight > 0 {
                Some(ClusterHolderView::of(service_cluster(config, grpc)))
            } else {
                None
            },
            _ => None,
        }
}

/// The cluster of a resolved backend that is a pool and gets requests.
pub open spec fn resolved_pool() -> spec_fn(BackendView) -> Option<ClusterHolderView> {
    |backend: BackendView|
        match backend {
            BackendView::Resolved(BackendTypeView::InferencePool(config)) => if config.weight > 0 {
                Some(ClusterHolderView::of(pool_cluster(config)))
            } else {
                None
            },
            _ => None,
        }
}

/// Whether a backend that gets a cluster is at a port that can be.
pub open spec fn backend_fits() -> spec_fn(BackendView) -> bool {
    |backend: BackendView|
        match backend {
            BackendView::Resolved(BackendTypeView::Service(config)) => config.weight > 0
                ==> config.effective_port >= 0,
            BackendView::Resolved(BackendTypeView::Invalid(config)) => config.weight > 0
                ==> config.effective_port >= 0,
            BackendView::Resolved(BackendTypeView::InferencePool(config)) => config.weight > 0
                ==> pool_fits(config),
            _ => true,
        }
}

/// Whether the backends of a route that get clusters are at ports that can be.
pub open spec fn route_fits() -> spec_fn(RouteView) -> bool {
    |route: RouteView| each(route.config.all_backends(), backend_fits())
}

/// Whether the backends of a virtual host that get clusters are at ports that can be.
pub open spec fn host_fits() -> spec_fn(EnvoyVirtualHostView) -> bool {
    |host: EnvoyVirtualHostView|
        each(host.resolved_routes, route_fits()) && each(host.unresolved_routes, route_fits())
}

/// Whether the backends of a listener that get clusters are at ports that can be.
pub open spec fn listener_fits() -> spec_fn(EnvoyListenerView) -> bool {
    |listener: EnvoyListenerView| each(values(listener.http_listener_map), host_fits())
}

/// Whether an extension is at a port that can be.
pub open spec fn info_fits() -> spec_fn(InferenceClusterInfoView) -> bool {
    |info: InferenceClusterInfoView| extension_fits(info.config)
}

fn cluster_for_service(backend: &Backend, route_type: &RouteType) -> (r: Option<ClusterHolder>)
    requires
        backend_fits()(backend.deep_view()),
    ensures
        r.deep_view() == resolved_service(route_type is Grpc)(backend.deep_view()),
{
    match backend {
        Backend::Resolved(BackendType::Service(config)) => if config.weight() > 0 {
            Some(create_service_cluster(config, route_type))
        } else {
            None
        },
        Backend::Resolved(BackendType::Invalid(config)) => if config.weight() > 0 {
            Some(create_service_cluster(config, route_type))
        } else {
            None
        },
        _ => None,
    }
}

fn cluster_for_pool(backend: &Backend) -> (r: Option<ClusterHolder>)
    requires
        backend_fits()(backend.deep_view()),
    ensures
        r.deep_view() == resolved_pool()(backend.deep_view()),
{
    match backend {
        Backend::Resolved(BackendType::InferencePool(config)) => if config.weight > 0 {
            Some(create_inference_cluster(config))
        } else {
            None
        },
        _ => None,
    }
}

/// The clusters of a route: those of services, and those of pools where they are asked for.
pub open spec fn route_clusters(pools: bool) -> spec_fn(RouteView) -> Seq<ClusterHolderView> {
    |route: RouteView|
        {
            let backends = route.config.all_backends();
            let services = chosen(backends, resolved_service(route.config.route_type is Grpc));
            if pools {
                services + chosen(backends, resolved_pool())
            } else {
                services
            }
        }
}

/// The clusters of a virtual host, route by route.
pub open spec fn host_clusters(pools: bool) -> spec_fn(EnvoyVirtualHostView) -> Seq<
    ClusterHolderView,
> {
    |host: EnvoyVirtualHostView|
        joined(host.resolved_routes, route_clusters(pools)) + joined(
            host.unresolved_routes,
            route_clusters(pools),
        )
}

/// The clusters of a listener, virtual host by virtual host.
pub open spec fn listener_clusters(pools: bool) -> spec_fn(EnvoyListenerView) -> Seq<
    ClusterHolderView,
> {
    |listener: EnvoyListenerView|
        joined(values(listener.http_listener_map), host_clusters(pools))
}

/// A cluster under its name.
pub open spec fn under_name() -> spec_fn(ClusterHolderView) -> (Seq<char>, EnvoyClusterView) {
    |holder: ClusterHolderView| (holder.name, holder.cluster)
}

/// The clusters of listeners by their names: where a name comes twice, the last one counts.
pub open spec fn clusters_by_name(
    listeners: Seq<EnvoyListenerView>,
    pools: bool,
) -> Seq<(Seq<char>, EnvoyClusterView)> {
    stored::<String, EnvoyClusterView>(
        joined(listeners, listener_clusters(pools)).map_values(under_name()),
    )
}

fn list_route_clusters(route: &Route, pools: bool) -> (r: Vec<ClusterHolder>)
    requires
        route_fits()(route.deep_view()),
    ensures
        r.deep_view() == route_clusters(pools)(route.deep_view()),
{
    let backends = route.backends();
    let route_type = route.route_type();
    let ghost grpc = route.deep_view().config.route_type is Grpc;
    let services = choose_list(
        &backends,
        |backend: &Backend| -> (y: Option<ClusterHolder>)
            requires backend_fits()(backend.deep_view())
            ensures y.deep_view() == resolved_service(grpc)(backend.deep_view())
        { cluster_for_service(backend, route_type) },
        Ghost(resolved_service(grpc)),
    );
    if pools {
        let more = choose_list(&backends, cluster_for_pool, Ghost(resolved_pool()));
        append_list(services, more)
    } else {
        services
    }
}

fn list_host_clusters(host: &EnvoyVirtualHost, pools: bool) -> (r: Vec<ClusterHolder>)
    requires
        host_fits()(host.deep_view()),
    ensures
        r.deep_view() == host_clusters(pools)(host.deep_view()),
{
    let resolved = join_list(
        &host.resolved_routes,
        |route: &Route| -> (y: Vec<ClusterHolder>)
            requires route_fits()(route.deep_view())
            ensures y.deep_view() == route_clusters(pools)(route.deep_view())
        { list_route_clusters(route, pools) },
        Ghost(route_clusters(pools)),
    );
    let unresolved = join_list(
        &host.unresolved_routes,
        |route: &Route| -> (y: Vec<ClusterHolder>)
            requires route_fits()(route.deep_view())
            ensures y.deep_view() == route_clusters(pools)(route.deep_view())
        { list_route_clusters(route, pools) },
        Ghost(route_clusters(pools)),
    );
    append_list(resolved, unresolved)
}

fn list_listener_clusters(listener: &EnvoyListener, pools: bool) -> (r: Vec<ClusterHolder>)
    requires
        listener_fits()(listener.deep_view()),
    ensures
        r.deep_view() == listener_clusters(pools)(listener.deep_view()),
{
    let hosts = listener.http_listener_map.values();
    join_list(
        &hosts,
        |host: &&EnvoyVirtualHost| -> (y: Vec<ClusterHolder>)
            requires host_fits()(host.deep_view())
            ensures y.deep_view() == host_clusters(pools)(host.deep_view())
        { list_host_clusters(*host, pools) },
        Ghost(host_clusters(pools)),
    )
}

fn name_cluster(holder: &ClusterHolder) -> (r: (String, EnvoyCluster))
    ensures
        r.deep_view() == under_name()(holder.deep_view()),
{
    (holder.name.dup(), holder.cluster.dup())
}

fn copy_clusters(clusters: &OrderedMap<String, EnvoyCluster>) -> (r: Vec<EnvoyCluster>)
    ensures
        r.deep_view() == values(clusters.deep_view()),
{
    let list = clusters.values();
    let out = map_list(&list, copy_cluster, Ghost(|x: EnvoyClusterView| x));
    assert(out.deep_view() =~= list.deep_view());
    out
}

fn copy_cluster(cluster: &&EnvoyCluster) -> (r: EnvoyCluster)
    ensures
        r.deep_view() == (|x: EnvoyClusterView| x)(cluster.deep_view()),
{
    cluster.dup()
}

fn collect_clusters(listeners: &Vec<&EnvoyListener>, pools: bool) -> (r: Vec<EnvoyCluster>)
    requires
        each(listeners.deep_view(), listener_fits()),
    ensures
        r.deep_view() == values(clusters_by_name(listeners.deep_view(), pools)),
{
    let holders = join_list(
        listeners,
        |listener: &&EnvoyListener| -> (y: Vec<ClusterHolder>)
            requires listener_fits()(listener.deep_view())
            ensures y.deep_view() == listener_clusters(pools)(listener.deep_view())
        { list_listener_clusters(*listener, pools) },
        Ghost(listener_clusters(pools)),
    );
    let pairs = map_list(&holders, name_cluster, Ghost(under_name()));
    let clusters = OrderedMap::gather(&pairs);
    copy_clusters(&clusters)
}

/// The clusters of the services that the routes of listeners send requests to, in the order of their
/// names.
pub fn generate_clusters(listeners: &Vec<&EnvoyListener>) -> (r: Vec<EnvoyCluster>)
    requires
        each(listeners.deep_view(), listener_fits()),
    ensures
        r.deep_view() == values(clusters_by_name(listeners.deep_view(), false)),
{
    collect_clusters(listeners, false)
}

/// The clusters of the services and the pools that the routes of listeners send requests to, in the
/// order of their names, and then the clusters of the extensions.
pub fn generate_all_clusters(
    listeners: &Vec<&EnvoyListener>,
    extensions: &Vec<InferenceClusterInfo>,
) -> (r: Vec<EnvoyCluster>)
    requires
        each(listeners.deep_view(), listener_fits()),
        each(extensions.deep_view(), info_fits()),
    ensures
        r.deep_view() == values(clusters_by_name(listeners.deep_view(), true)) + chosen(
            extensions.deep_view(),
            extension_service_cluster(),
        ),
{
    let clusters = collect_clusters(listeners, true);
    let more = choose_list(
        extensions,
        |info: &InferenceClusterInfo| -> (y: Option<EnvoyCluster>)
            requires info_fits()(info.deep_view())
            ensures y.deep_view() == extension_service_cluster()(info.deep_view())
        {
            match generate_ext_service_cluster(info) {
                Some(holder) => Some(holder.cluster),
                None => None,
            }
        },
        Ghost(extension_service_cluster()),
    );
    append_list(clusters, more)
}

/// The clusters of listeners come in the order of their names, each name once, and there is one for
/// every backend that calls for one.
pub proof fn law_clusters_by_name(listeners: Seq<EnvoyListenerView>, pools: bool)
    ensures
        increasing::<String>(keys(clusters_by_name(listeners, pools))),
        forall|i: int|
            0 <= i < joined(listeners, listener_clusters(pools)).len() ==> table(
                clusters_by_name(listeners, pools),
            ).contains_key((#[trigger] joined(listeners, listener_clusters(pools))[i]).name),
{
    let holders = joined(listeners, listener_clusters(pools));
    let pairs = holders.map_values(under_name());
    law_stored_keys::<String, EnvoyClusterView>(pairs);
    assert forall|i: int| 0 <= i < holders.len() implies table(
        clusters_by_name(listeners, pools),
    ).contains_key((#[trigger] holders[i]).name) by {
        assert(keys(pairs)[i] == holders[i].name);
        assert(keys(pairs).to_set().contains(holders[i].name));
    }
}

fn check_backend(backend: &Backend) -> (r: bool)
    ensures
        r == backend_fits()(backend.deep_view()),
{
    match backend {
        Backend::Resolved(BackendType::Service(config)) => config.weight <= 0
            || config.effective_port >= 0,
        Backend::Resolved(BackendType::Invalid(config)) => config.weight <= 0
            || config.effective_port >= 0,
        Backend::Resolved(BackendType::InferencePool(config)) => {
            let some = match &config.endpoints {
                Some(endpoints) => {
                    assert(config.deep_view().endpoints == Some(endpoints.deep_view()));
                    endpoints.len() > 0
                },
                None => false,
            };
            config.weight <= 0 || !some || config.effective_port >= 0
        },
        _ => true,
    }
}

fn check_route(route: &Route) -> (r: bool)
    ensures
        r == route_fits()(route.deep_view()),
{
    let backends = route.backends();
    all_list(&backends, check_backend, Ghost(backend_fits()))
}

fn check_host(host: &&EnvoyVirtualHost) -> (r: bool)
    ensures
        r == host_fits()(host.deep_view()),
{
    let resolved = all_list(&host.resolved_routes, check_route, Ghost(route_fits()));
    let unresolved = all_list(&host.unresolved_routes, check_route, Ghost(route_fits()));
    resolved && unresolved
}

fn check_listener(listener: &&EnvoyListener) -> (r: bool)
    ensures
        r == listener_fits()(listener.deep_view()),
{
    let hosts = listener.http_listener_map.values();
    all_list(&hosts, check_host, Ghost(host_fits()))
}

/// Whether the backends of listeners that get clusters are at ports that can be.
pub fn check_listeners(listeners: &Vec<&EnvoyListener>) -> (r: bool)
    ensures
        r == each(listeners.deep_view(), listener_fits()),
{
    all_list(listeners, check_listener, Ghost(listener_fits()))
}

/// Whether the extensions are at ports that can be.
pub fn check_extensions(extensions: &Vec<InferenceClusterInfo>) -> (r: bool)
    ensures
        r == each(extensions.deep_view(), info_fits()),
{
    all_list(
        extensions,
        |info: &InferenceClusterInfo| -> (y: bool)
            ensures y == info_fits()(info.deep_view())
        {
            match &info.config.inference_config {
                Some(config) => or_number(&config.extension_ref().port_number, 9002) >= 0,
                None => true,
            }
        },
        Ghost(info_fits()),
    )
}

/// Each backend that is a resolved service and gets requests has a cluster.
pub proof fn law_services_have_clusters(
    listeners: Seq<EnvoyListenerView>,
    pools: bool,
    listener: EnvoyListenerView,
    host: EnvoyVirtualHostView,
    route: RouteView,
    config: ServiceTypeConfigView,
)
    requires
        listeners.contains(listener),
        values(listener.http_listener_map).contains(host),
        host.resolved_routes.contains(route) || host.unresolved_routes.contains(route),
        route.config.all_backends().contains(
            BackendView::Resolved(BackendTypeView::Service(config)),
        ),
        config.weight > 0,
    ensures
        table(clusters_by_name(listeners, pools)).contains_key(cluster_of(config.resource_key)),
{
    let grpc = route.config.route_type is Grpc;
    let backends = route.config.all_backends();
    let backend = BackendView::Resolved(BackendTypeView::Service(config));
    let holder = ClusterHolderView::of(service_cluster(config, grpc));
    let b = choose|b: int| 0 <= b < backends.len() && backends[b] == backend;
    assert(resolved_service(grpc)(backends[b]) == Some(holder));
    chosen_contains(backends, resolved_service(grpc), holder);
    let services = chosen(backends, resolved_service(grpc));
    let i = choose|i: int| 0 <= i < services.len() && services[i] == holder;
    assert(route_clusters(pools)(route)[i] == holder);
    assert(route_clusters(pools)(route).contains(holder));
    let resolved = joined(host.resolved_routes, route_clusters(pools));
    let unresolved = joined(host.unresolved_routes, route_clusters(pools));
    joined_contains(host.resolved_routes, route_clusters(pools), holder);
    joined_contains(host.unresolved_routes, route_clusters(pools), holder);
    let hosts = values(listener.http_listener_map);
    let h = choose|h: int| 0 <= h < hosts.len() && hosts[h] == host;
    assert(host_clusters(pools)(hosts[h]).contains(holder)) by {
        if host.resolved_routes.contains(route) {
            let r = choose|r: int|
                0 <= r < host.resolved_routes.len() && host.resolved_routes[r] == route;
            assert(route_clusters(pools)(host.resolved_routes[r]).contains(holder));
            let k = choose|k: int| 0 <= k < resolved.len() && resolved[k] == holder;
            assert(host_clusters(pools)(host)[k] == holder);
        } else {
            let r = choose|r: int|
                0 <= r < host.unresolved_routes.len() && host.unresolved_routes[r] == route;
            assert(route_clusters(pools)(host.unresolved_routes[r]).contains(holder));
            let k = choose|k: int| 0 <= k < unresolved.len() && unresolved[k] == holder;
            assert(host_clusters(pools)(host)[resolved.len() + k] == holder);
        }
    }
    joined_contains(hosts, host_clusters(pools), holder);
    let l = choose|l: int| 0 <= l < listeners.len() && listeners[l] == listener;
    assert(listener_clusters(pools)(listeners[l]).contains(holder));
    joined_contains(listeners, listener_clusters(pools), holder);
    let all = joined(listeners, listener_clusters(pools));
    let k = choose|k: int| 0 <= k < all.len() && all[k] == holder;
    law_clusters_by_name(listeners, pools);
    assert(table(clusters_by_name(listeners, pools)).contains_key(all[k].name));
}

/// The cluster of a service is named by the name and the namespace of the service, and finds its one
/// endpoint by DNS: the host of the service at its effective port, with its weight. It speaks HTTP/2
/// for gRPC alone.
pub proof fn law_service_cluster(config: ServiceTypeConfigView, grpc: bool)
    requires
        config.effective_port >= 0,
        config.weight >= 0,
    ensures
        ({
            let cluster = service_cluster(config, grpc);
            &&& cluster.name == config.resource_key.name + "."@ + config.resource_key.namespace
            &&& cluster.assigned_to == cluster.name
            &&& cluster.cluster_discovery_type == Some(DiscoveryType::StrictDns)
            &&& cluster.lb_policy == LbPolicy::RoundRobin
            &&& cluster.connect_timeout.seconds == 0
            &&& cluster.connect_timeout.nanos == 250_000_000
            &&& cluster.lb_endpoints.len() == 1
            &&& cluster.lb_endpoints[0].address.address == config.endpoint
            &&& cluster.lb_endpoints[0].address.port == config.effective_port
            &&& cluster.lb_endpoints[0].load_balancing_weight == config.weight
            &&& cluster.transport_socket is None
            &&& cluster.load_balancing_policy is None
            &&& !grpc ==> cluster.typed_extension_protocol_options.len() == 0
            &&& grpc ==> cluster.typed_extension_protocol_options.len() == 1
            &&& grpc ==> {
                let (name, options) = cluster.typed_extension_protocol_options[0];
                &&& name == "envoy.extensions.upstreams.http.v3.HttpProtocolOptions"@
                &&& options.max_concurrent_streams == 10
                &&& options.idle_timeout is None
                &&& options.auto_sni is None
            }
        }),
{
}

/// The cluster of a pool is named by the name and the namespace of the pool, and has an endpoint for
/// each endpoint of the pool, in its place, at the effective port. A header of a request names the
/// endpoint that it goes to.
pub proof fn law_pool_cluster(config: InferencePoolTypeConfigView)
    requires
        config.effective_port >= 0,
    ensures
        ({
            let cluster = pool_cluster(config);
            &&& cluster.name == config.resource_key.name + "."@ + config.resource_key.namespace
            &&& cluster.assigned_to == cluster.name
            &&& cluster.cluster_discovery_type is None
            &&& cluster.lb_policy == LbPolicy::RoundRobin
            &&& cluster.connect_timeout.seconds == 0
            &&& cluster.connect_timeout.nanos == 250_000_000
            &&& cluster.transport_socket is None
            &&& cluster.typed_extension_protocol_options.len() == 0
            &&& config.endpoints is None ==> cluster.lb_endpoints.len() == 0
            &&& config.endpoints is Some ==> cluster.lb_endpoints.len() == config.endpoints->0.len()
            &&& config.endpoints is Some ==> forall|i: int|
                0 <= i < config.endpoints->0.len() ==> {
                    let endpoint = #[trigger] cluster.lb_endpoints[i];
                    &&& endpoint.address.address == config.endpoints->0[i].text
                    &&& endpoint.address.port == config.effective_port
                    &&& endpoint.load_balancing_weight == 1
                }
            &&& cluster.load_balancing_policy is Some
            &&& cluster.load_balancing_policy->0.name
                == "envoy.load_balancing_policies.override_host"@
            &&& cluster.load_balancing_policy->0.headers == seq!["x-gateway-destination-endpoint"@]
            &&& cluster.load_balancing_policy->0.fallback_policies == seq![
                "envoy.load_balancing_policies.round_robing"@,
            ]
        }),
{
}

/// The cluster of the extension of a pool has the one endpoint at the host that is named by the
/// extension and the namespace of the pool, at the port of the extension, or 9002. It speaks HTTP/2 over
/// TLS 1.3. There is none where the pool is not configured.
pub proof fn law_extension_cluster(info: InferenceClusterInfoView)
    ensures
        info.config.inference_config is None <==> extension_service_cluster()(info) is None,
        info.config.inference_config is Some ==> {
            let cluster = extension_service_cluster()(info)->0;
            let extension = info.config.inference_config->0.extension_ref;
            let port = match extension.port_number {
                Some(port) => port,
                None => 9002,
            };
            &&& cluster.name == info.cluster_name
            &&& cluster.assigned_to == info.cluster_name
            &&& cluster.cluster_discovery_type == Some(DiscoveryType::LogicalDns)
            &&& cluster.lb_policy == LbPolicy::RoundRobin
            &&& cluster.lb_endpoints.len() == 1
            &&& cluster.lb_endpoints[0].address.address == extension.name + "."@
                + info.config.resource_key.namespace
            &&& port >= 0 ==> cluster.lb_endpoints[0].address.port == port
            &&& cluster.lb_endpoints[0].load_balancing_weight == 1
            &&& cluster.transport_socket is Some
            &&& cluster.transport_socket->0.name == info.cluster_name + "_tls"@
            &&& cluster.transport_socket->0.minimum_version == TlsProtocol::TlsV13
            &&& cluster.transport_socket->0.maximum_version == TlsProtocol::TlsV13
            &&& cluster.transport_socket->0.alpn_protocols == seq!["h2"@]
            &&& cluster.typed_extension_protocol_options.len() == 1
            &&& cluster.typed_extension_protocol_options[0].0
                == "envoy.extensions.upstreams.http.v3.HttpProtocolOptions"@
            &&& cluster.typed_extension_protocol_options[0].1.auto_sni == Some(true)
            &&& cluster.typed_extension_protocol_options[0].1.idle_timeout is Some
            &&& cluster.typed_extension_protocol_options[0].1.idle_timeout->0.seconds == 1
            &&& cluster.typed_extension_protocol_options[0].1.idle_timeout->0.nanos == 0
            &&& cluster.connect_timeout.seconds == 0
            &&& cluster.connect_timeout.nanos == 250_000_000
            &&& cluster.typed_extension_protocol_options[0].1.max_concurrent_streams == 10
            &&& cluster.load_balancing_policy is None
        },
{
}

/// A backend calls for the cluster of a service where it is resolved, is a service or of no known type,
/// and gets requests; for that of a pool where it is resolved, is a pool, and gets requests.
pub proof fn law_backend_calls_for_cluster(backend: BackendView, grpc: bool)
    ensures
        !(backend is Resolved) ==> resolved_service(grpc)(backend) is None && resolved_pool()(
            backend,
        ) is None,
        backend matches BackendView::Resolved(BackendTypeView::Service(config)) ==> {
            &&& resolved_pool()(backend) is None
            &&& config.weight > 0 ==> resolved_service(grpc)(backend) is Some
            &&& config.weight <= 0 ==> resolved_service(grpc)(backend) is None
            &&& config.weight > 0 ==> resolved_service(grpc)(backend)->0.cluster == service_cluster(
                config,
                grpc,
            ) && resolved_service(grpc)(backend)->0.name == config.resource_key.name + "."@
                + config.resource_key.namespace
        },
        backend matches BackendView::Resolved(BackendTypeView::Invalid(config)) ==> {
            &&& resolved_pool()(backend) is None
            &&& config.weight > 0 ==> resolved_service(grpc)(backend) is Some
            &&& config.weight <= 0 ==> resolved_service(grpc)(backend) is None
            &&& config.weight > 0 ==> resolved_service(grpc)(backend)->0.cluster == service_cluster(
                config,
                grpc,
            )
        },
        backend matches BackendView::Resolved(BackendTypeView::InferencePool(config)) ==> {
            &&& resolved_service(grpc)(backend) is None
            &&& config.weight > 0 ==> resolved_pool()(backend) is Some
            &&& config.weight <= 0 ==> resolved_pool()(backend) is None
            &&& config.weight > 0 ==> resolved_pool()(backend)->0.cluster == pool_cluster(config)
                && resolved_pool()(backend)->0.name == config.resource_key.name + "."@
                + config.resource_key.namespace
        },
{
}

/// The clusters of a route are those that its backends call for, and those of pools only where they are
/// asked for.
pub proof fn law_clusters_of_route(route: RouteView, pools: bool, holder: ClusterHolderView)
    ensures
        route_clusters(pools)(route).contains(holder) <==> exists|b: int|
            0 <= b < route.config.all_backends().len() && (resolved_service(
                route.config.route_type is Grpc,
            )(#[trigger] route.config.all_backends()[b]) == Some(holder) || (pools
                && resolved_pool()(route.config.all_backends()[b]) == Some(holder))),
{
    let grpc = route.config.route_type is Grpc;
    let backends = route.config.all_backends();
    let services = chosen(backends, resolved_service(grpc));
    let more = chosen(backends, resolved_pool());
    chosen_contains(backends, resolved_service(grpc), holder);
    chosen_contains(backends, resolved_pool(), holder);
    assert((services + more).contains(holder) <==> services.contains(holder) || more.contains(
        holder,
    )) by {
        if services.contains(holder) {
            let k = choose|k: int| 0 <= k < services.len() && services[k] == holder;
            assert((services + more)[k] == holder);
        }
        if more.contains(holder) {
            let k = choose|k: int| 0 <= k < more.len() && more[k] == holder;
            assert((services + more)[services.len() + k] == holder);
        }
    }
    if services.contains(holder) {
        let b = choose|b: int|
            0 <= b < backends.len() && #[trigger] resolved_service(grpc)(backends[b]) == Some(holder);
        assert(backends[b] == route.config.all_backends()[b]);
    }
    if more.contains(holder) {
        let b = choose|b: int|
            0 <= b < backends.len() && #[trigger] resolved_pool()(backends[b]) == Some(holder);
        assert(backends[b] == route.config.all_backends()[b]);
    }
}

/// Each cluster of listeners is one that a route of a virtual host of a listener has.
pub proof fn law_cluster_has_route(listeners: Seq<EnvoyListenerView>, pools: bool, i: int)
    requires
        0 <= i < clusters_by_name(listeners, pools).len(),
    ensures
        exists|l: int, h: int, route: RouteView, holder: ClusterHolderView|
            #![trigger listeners[l].http_listener_map[h], route_clusters(pools)(route).contains(holder)]
            0 <= l < listeners.len() && 0 <= h < listeners[l].http_listener_map.len() && (
            listeners[l].http_listener_map[h].1.resolved_routes.contains(route)
                || listeners[l].http_listener_map[h].1.unresolved_routes.contains(route))
                && route_clusters(pools)(route).contains(holder) && holder.cluster
                == clusters_by_name(listeners, pools)[i].1 && holder.name == clusters_by_name(
                listeners,
                pools,
            )[i].0,
{
    let all = joined(listeners, listener_clusters(pools));
    let pairs = all.map_values(under_name());
    stored_is_of_pairs::<String, EnvoyClusterView>(pairs, i);
    let pair = clusters_by_name(listeners, pools)[i];
    let p = choose|p: int| 0 <= p < pairs.len() && pairs[p] == pair;
    let holder = all[p];
    assert(all.contains(holder));
    joined_contains(listeners, listener_clusters(pools), holder);
    let l = choose|l: int|
        0 <= l < listeners.len() && #[trigger] listener_clusters(pools)(listeners[l]).contains(holder);
    let hosts = values(listeners[l].http_listener_map);
    joined_contains(hosts, host_clusters(pools), holder);
    let h = choose|h: int|
        0 <= h < hosts.len() && #[trigger] host_clusters(pools)(hosts[h]).contains(holder);
    let host = hosts[h];
    assert(listeners[l].http_listener_map[h].1 == host);
    let first = joined(host.resolved_routes, route_clusters(pools));
    let second = joined(host.unresolved_routes, route_clusters(pools));
    let k = choose|k: int| 0 <= k < (first + second).len() && (first + second)[k] == holder;
    if k < first.len() {
        assert(first[k] == holder);
        assert(first.contains(holder));
        joined_contains(host.resolved_routes, route_clusters(pools), holder);
        let r = choose|r: int|
            0 <= r < host.resolved_routes.len() && #[trigger] route_clusters(pools)(
                host.resolved_routes[r],
            ).contains(holder);
        assert(host.resolved_routes.contains(host.resolved_routes[r]));
    } else {
        assert(second[k - first.len()] == holder);
        assert(second.contains(holder));
        joined_contains(host.unresolved_routes, route_clusters(pools), holder);
        let r = choose|r: int|
            0 <= r < host.unresolved_routes.len() && #[trigger] route_clusters(pools)(
                host.unresolved_routes[r],
            ).contains(holder);
        assert(host.unresolved_routes.contains(host.unresolved_routes[r]));
    }
}

/// Every pool that a route of a listener sends requests to has a cluster, where clusters of pools are
/// asked for.
pub proof fn law_pools_have_clusters(
    listeners: Seq<EnvoyListenerView>,
    listener: EnvoyListenerView,
    host: EnvoyVirtualHostView,
    route: RouteView,
    config: InferencePoolTypeConfigView,
)
    requires
        listeners.contains(listener),
        values(listener.http_listener_map).contains(host),
        host.resolved_routes.contains(route) || host.unresolved_routes.contains(route),
        route.config.all_backends().contains(
            BackendView::Resolved(BackendTypeView::InferencePool(config)),
        ),
        config.weight > 0,
    ensures
        table(clusters_by_name(listeners, true)).contains_key(
            config.resource_key.name + "."@ + config.resource_key.namespace,
        ),
{
    let backends = route.config.all_backends();
    let backend = BackendView::Resolved(BackendTypeView::InferencePool(config));
    let holder = ClusterHolderView::of(pool_cluster(config));
    let b = choose|b: int| 0 <= b < backends.len() && backends[b] == backend;
    assert(resolved_pool()(route.config.all_backends()[b]) == Some(holder));
    law_clusters_of_route(route, true, holder);
    joined_contains(host.resolved_routes, route_clusters(true), holder);
    joined_contains(host.unresolved_routes, route_clusters(true), holder);
    let resolved = joined(host.resolved_routes, route_clusters(true));
    let unresolved = joined(host.unresolved_routes, route_clusters(true));
    let hosts = values(listener.http_listener_map);
    let h = choose|h: int| 0 <= h < hosts.len() && hosts[h] == host;
    assert(host_clusters(true)(hosts[h]).contains(holder)) by {
        if host.resolved_routes.contains(route) {
            let r = choose|r: int|
                0 <= r < host.resolved_routes.len() && host.resolved_routes[r] == route;
            assert(route_clusters(true)(host.resolved_routes[r]).contains(holder));
            let k = choose|k: int| 0 <= k < resolved.len() && resolved[k] == holder;
            assert(host_clusters(true)(host)[k] == holder);
        } else {
            let r = choose|r: int|
                0 <= r < host.unresolved_routes.len() && host.unresolved_routes[r] == route;
            assert(route_clusters(true)(host.unresolved_routes[r]).contains(holder));
            let k = choose|k: int| 0 <= k < unresolved.len() && unresolved[k] == holder;
            assert(host_clusters(true)(host)[resolved.len() + k] == holder);
        }
    }
    joined_contains(hosts, host_clusters(true), holder);
    let l = choose|l: int| 0 <= l < listeners.len() && listeners[l] == listener;
    assert(listener_clusters(true)(listeners[l]).contains(holder));
    joined_contains(listeners, listener_clusters(true), holder);
    let all = joined(listeners, listener_clusters(true));
    let k = choose|k: int| 0 <= k < all.len() && all[k] == holder;
    law_clusters_by_name(listeners, true);
    assert(table(clusters_by_name(listeners, true)).contains_key(all[k].name));
}

/// Two clusters are the same where their names are, and stand to each other as these do.
pub proof fn law_clusters_told_apart(a: ClusterHolder, b: ClusterHolder)
    ensures
        PartialEqSpec::eq_spec(&a, &b) <==> a.name@ == b.name@,
        text_rank(a.name@, b.name@) == Rank::Less
            ==> PartialOrdSpec::partial_cmp_spec(&a, &b) == Some(Ordering::Less),
        text_rank(a.name@, b.name@) == Rank::Equal
            ==> PartialOrdSpec::partial_cmp_spec(&a, &b) == Some(Ordering::Equal),
        text_rank(a.name@, b.name@) == Rank::Greater
            ==> PartialOrdSpec::partial_cmp_spec(&a, &b) == Some(Ordering::Greater),
{
}

} // verus!
