//! The resources that a gateway calls for.
use vstd::prelude::*;
use vstd::std_specs::convert::FromSpecImpl;
use crate::backends::agentgateway::resources::{
    Backend,
    BackendKind,
    BackendKindView,
    BackendReference,
    BackendReferenceView,
    BackendView,
    FieldMatch,
    FieldMatchView,
    Listener,
    ListenerView,
    LoadBalancing,
    LoadBalancingView,
    NetworkAddress,
    NetworkAddressView,
    PathMatch,
    PathMatchView,
    Policy,
    PolicyView,
    Port,
    PortView,
    Route,
    RouteBackend,
    RouteBackendView,
    RouteMatch,
    RouteMatchView,
    RouteView,
    Service,
    ServiceView,
    TextMatch,
    TextMatchView,
};
use crate::common;
use crate::common::address::{HostText, HostTextView};
use crate::common::backend::{BackendType, BackendTypeView, InferencePoolTypeConfig, InferencePoolTypeConfigView};
use crate::common::gateway::{Gateway, GatewayView};
use crate::common::kube::{
    HTTPMethodMatch,
    HeaderMatch,
    HeaderMatchView,
    MatchType,
    PathMatchType,
};
use crate::common::listener::ProtocolType;
use crate::common::resource_key::{ResourceKey, ResourceKeyView, id_of, or_text, text_or};
use crate::common::route::{
    HTTPRoutingRule,
    HTTPRoutingRuleView,
    list_or_none,
    number_or,
    or_no_items,
    or_number,
};
use crate::lists::{
    append_list,
    choose_list,
    chosen,
    chosen_contains,
    join_list,
    joined,
    joined_contains,
    map_list,
    no_items,
};
use crate::model::Model;
use crate::ordered::{
    OrderedMap,
    increasing,
    keys,
    law_put,
    put,
    stored,
    stored_has_key,
    stored_is_of_pairs,
    table,
    values,
};
use crate::text::{cat, cat3, decimal, decimal_text};

verus! {

/// The number of a protocol.
pub open spec fn protocol_number(protocol: ProtocolType) -> i32 {
    match protocol {
        ProtocolType::Unknown => 0,
        ProtocolType::Http => 1,
        ProtocolType::Https => 2,
        ProtocolType::Tls => 3,
        ProtocolType::Tcp => 4,
        ProtocolType::Udp => 6,
    }
}

impl From<ProtocolType> for i32 {
    fn from(value: ProtocolType) -> (r: i32) {
        match value {
            ProtocolType::Unknown => 0,
            ProtocolType::Http => 1,
            ProtocolType::Https => 2,
            ProtocolType::Tls => 3,
            ProtocolType::Tcp => 4,
            ProtocolType::Udp => 6,
        }
    }
}

impl FromSpecImpl<ProtocolType> for i32 {
    open spec fn obeys_from_spec() -> bool {
        true
    }

    open spec fn from_spec(value: ProtocolType) -> i32 {
        protocol_number(value)
    }
}

/// The name of a port that is listened at.
pub open spec fn bind_name(port: i32) -> Seq<char> {
    "bind-port-"@ + decimal(port as int)
}

/// The name of a port that is listened at.
pub fn create_bind_name(port: i32) -> (r: String)
    ensures
        r@ == bind_name(port),
{
    let number = decimal_text(port as i64);
    cat("bind-port-", number.as_str())
}

/// A text as JSON.
pub uninterp spec fn json_text(text: Seq<char>) -> Seq<char>;

/// Whether a text is written in JSON as it is: it has no control characters, quotes or backslashes.
pub open spec fn needs_no_escape(text: Seq<char>) -> bool {
    forall|i: int| 0 <= i < text.len() ==> #[trigger] text[i] >= ' ' && text[i] != '"' && text[i] != '\\'
}

/// `serde_json::to_string` of a text: the result is a function of the text, and puts a text that needs
/// no escape between quotes.
#[verifier::external_body]
fn write_json_text(text: &str) -> (r: String)
    ensures
        r@ == json_text(text@),
        needs_no_escape(text@) ==> r@ == seq!['"'] + text@ + seq!['"'],
{
    serde_json::to_string(text).unwrap_or_default()
}

/// The name of a method.
pub open spec fn method_name(method: HTTPMethodMatch) -> Seq<char> {
    match method {
        HTTPMethodMatch::Get => "GET"@,
        HTTPMethodMatch::Head => "HEAD"@,
        HTTPMethodMatch::Post => "POST"@,
        HTTPMethodMatch::Put => "PUT"@,
        HTTPMethodMatch::Delete => "DELETE"@,
        HTTPMethodMatch::Connect => "CONNECT"@,
        HTTPMethodMatch::Options => "OPTIONS"@,
        HTTPMethodMatch::Trace => "TRACE"@,
        HTTPMethodMatch::Patch => "PATCH"@,
    }
}

fn name_method(method: HTTPMethodMatch) -> (r: &'static str)
    ensures
        r@ == method_name(method),
        needs_no_escape(r@),
{
    proof {
        reveal_strlit("GET");
        reveal_strlit("HEAD");
        reveal_strlit("POST");
        reveal_strlit("PUT");
        reveal_strlit("DELETE");
        reveal_strlit("CONNECT");
        reveal_strlit("OPTIONS");
        reveal_strlit("TRACE");
        reveal_strlit("PATCH");
    }
    match method {
        HTTPMethodMatch::Get => "GET",
        HTTPMethodMatch::Head => "HEAD",
        HTTPMethodMatch::Post => "POST",
        HTTPMethodMatch::Put => "PUT",
        HTTPMethodMatch::Delete => "DELETE",
        HTTPMethodMatch::Connect => "CONNECT",
        HTTPMethodMatch::Options => "OPTIONS",
        HTTPMethodMatch::Trace => "TRACE",
        HTTPMethodMatch::Patch => "PATCH",
    }
}

/// The method that a request must have: its name between quotes.
pub open spec fn method_match(method: Option<HTTPMethodMatch>) -> Option<Seq<char>> {
    match method {
        Some(method) => Some(seq!['"'] + method_name(method) + seq!['"']),
        None => None,
    }
}

/// The method that a request must have.
pub fn convert_method_match(method: Option<HTTPMethodMatch>) -> (r: Option<String>)
    ensures
        r.deep_view() == method_match(method),
{
    match method {
        Some(method) => Some(write_json_text(name_method(method))),
        None => None,
    }
}

/// The path that a request must have, where it is told how it is matched.
pub open spec fn path_match(path: Option<common::kube::PathMatchView>) -> Option<PathMatchView> {
    match path {
        Some(path) => {
            let value = text_or(path.value, ""@);
            match path.match_type {
                Some(PathMatchType::Exact) => Some(PathMatchView::Exact(value)),
                Some(PathMatchType::PathPrefix) => Some(PathMatchView::PathPrefix(value)),
                Some(PathMatchType::RegularExpression) => Some(PathMatchView::Regex(value)),
                None => None,
            }
        },
        None => None,
    }
}

/// The path that a request must have.
pub fn convert_path_match(path: &Option<common::kube::PathMatch>) -> (r: Option<PathMatch>)
    ensures
        r.deep_view() == path_match(path.deep_view()),
{
    match path {
        Some(path) => {
            let value = or_text(&path.value, "");
            match path.match_type {
                Some(PathMatchType::Exact) => Some(PathMatch::Exact(value)),
                Some(PathMatchType::PathPrefix) => Some(PathMatch::PathPrefix(value)),
                Some(PathMatchType::RegularExpression) => Some(PathMatch::Regex(value)),
                None => None,
            }
        },
        None => None,
    }
}

/// A header, or a parameter of a query, that a request must have.
pub open spec fn field_match() -> spec_fn(HeaderMatchView) -> FieldMatchView {
    |header: HeaderMatchView|
        FieldMatchView {
            name: header.name,
            value: match header.match_type {
                Some(MatchType::Exact) => Some(TextMatchView::Exact(header.value)),
                Some(MatchType::RegularExpression) => Some(TextMatchView::Regex(header.value)),
                None => None,
            },
        }
}

fn convert_field(header: &HeaderMatch) -> (r: FieldMatch)
    ensures
        r.deep_view() == field_match()(header.deep_view()),
{
    FieldMatch {
        name: header.name.dup(),
        value: match header.match_type {
            Some(MatchType::Exact) => Some(TextMatch::Exact(header.value.dup())),
            Some(MatchType::RegularExpression) => Some(TextMatch::Regex(header.value.dup())),
            None => None,
        },
    }
}

/// The headers that a request must have.
pub fn convert_headers(headers: &Option<Vec<HeaderMatch>>) -> (r: Vec<FieldMatch>)
    ensures
        r.deep_view() == list_or_none(headers.deep_view()).map_values(field_match()),
{
    let list = or_no_items(headers);
    map_list(&list, convert_field, Ghost(field_match()))
}

/// The parameters of the query that a request must have.
pub fn convert_query_params(params: &Option<Vec<HeaderMatch>>) -> (r: Vec<FieldMatch>)
    ensures
        r.deep_view() == list_or_none(params.deep_view()).map_values(field_match()),
{
    let list = or_no_items(params);
    map_list(&list, convert_field, Ghost(field_match()))
}

/// What a request must have to be matched.
pub open spec fn route_match() -> spec_fn(common::kube::RouteMatchView) -> RouteMatchView {
    |matching: common::kube::RouteMatchView|
        RouteMatchView {
            path: path_match(matching.path),
            headers: list_or_none(matching.headers).map_values(field_match()),
            method: method_match(matching.method),
            query_params: list_or_none(matching.query_params).map_values(field_match()),
        }
}

/// What a request must have to be matched.
pub fn convert_route_match(matching: &common::kube::RouteMatch) -> (r: RouteMatch)
    ensures
        r.deep_view() == route_match()(matching.deep_view()),
{
    RouteMatch {
        path: convert_path_match(&matching.path),
        headers: convert_headers(&matching.headers),
        method: convert_method_match(matching.method),
        query_params: convert_query_params(&matching.query_params),
    }
}

/// A name in a namespace.
pub open spec fn path_name(namespace: Seq<char>, name: Seq<char>) -> Seq<char> {
    namespace + "/"@ + name
}

fn write_path_name(namespace: &str, name: &str) -> (r: String)
    ensures
        r@ == path_name(namespace@, name@),
{
    cat3(namespace, "/", name)
}

/// The port of a pool: the first that it leads to, or its own.
pub open spec fn pool_port(config: InferencePoolTypeConfigView) -> i32 {
    if config.target_ports.len() == 0 {
        config.port
    } else {
        config.target_ports[0]
    }
}

/// A resolved backend of a route.
pub open spec fn route_backend() -> spec_fn(common::backend::BackendView) -> Option<
    RouteBackendView,
> {
    |backend: common::backend::BackendView|
        match backend {
            common::backend::BackendView::Resolved(BackendTypeView::Service(config)) => Some(
                RouteBackendView {
                    backend: BackendReferenceView {
                        port: config.port as u32,
                        kind: BackendKindView::Backend(
                            path_name(config.resource_key.namespace, config.resource_key.name),
                        ),
                    },
                    weight: config.weight,
                },
            ),
            common::backend::BackendView::Resolved(BackendTypeView::InferencePool(config)) => Some(
                RouteBackendView {
                    backend: BackendReferenceView {
                        port: pool_port(config) as u32,
                        kind: BackendKindView::Service(
                            path_name(config.resource_key.namespace, config.endpoint),
                        ),
                    },
                    weight: config.weight,
                },
            ),
            _ => None,
        }
}

/// A resolved backend of a route.
pub fn create_route_backend(backend: &common::backend::Backend) -> (r: Option<RouteBackend>)
    ensures
        r.deep_view() == route_backend()(backend.deep_view()),
{
    match backend {
        common::backend::Backend::Resolved(BackendType::Service(config)) => Some(
            RouteBackend {
                backend: BackendReference {
                    port: config.port as u32,
                    kind: BackendKind::Backend(
                        write_path_name(
                            config.resource_key.namespace.as_str(),
                            config.resource_key.name.as_str(),
                        ),
                    ),
                },
                weight: config.weight,
            },
        ),
        common::backend::Backend::Resolved(BackendType::InferencePool(config)) => {
            let port: i32 = if config.target_ports.len() == 0 {
                config.port
            } else {
                assert(config.target_ports.deep_view()[0] == config.target_ports[0]);
                config.target_ports[0]
            };
            Some(
                RouteBackend {
                    backend: BackendReference {
                        port: port as u32,
                        kind: BackendKind::Service(
                            write_path_name(
                                config.resource_key.namespace.as_str(),
                                config.endpoint.as_str(),
                            ),
                        ),
                    },
                    weight: config.weight,
                },
            )
        },
        _ => None,
    }
}

/// A resolved service as a backend, under its name.
pub open spec fn static_backend() -> spec_fn(common::backend::BackendView) -> Option<
    (Seq<char>, BackendView),
> {
    |backend: common::backend::BackendView|
        match backend {
            common::backend::BackendView::Resolved(BackendTypeView::Service(config)) => {
                let name = path_name(config.resource_key.namespace, config.resource_key.name);
                Some((name, BackendView { name, host: config.endpoint, port: config.port }))
            },
            _ => None,
        }
}

/// A resolved service as a backend, under its name.
pub fn create_backends(backend: &common::backend::Backend) -> (r: Option<(String, Backend)>)
    ensures
        r.deep_view() == static_backend()(backend.deep_view()),
{
    match backend {
        common::backend::Backend::Resolved(BackendType::Service(config)) => {
            let name = write_path_name(
                config.resource_key.namespace.as_str(),
                config.resource_key.name.as_str(),
            );
            Some(
                (name.dup(), Backend { name, host: config.endpoint.dup(), port: config.port }),
            )
        },
        _ => None,
    }
}

/// A port that a pool leads to.
pub open spec fn same_port() -> spec_fn(i32) -> PortView {
    |port: i32| PortView { service_port: port as u32, target_port: port as u32, app_protocol: 0 }
}

/// The address that a host spells, where it spells one.
pub open spec fn network_address() -> spec_fn(HostTextView) -> Option<NetworkAddressView> {
    |host: HostTextView|
        match host.octets {
            Some(address) => Some(NetworkAddressView { network: ""@, address }),
            None => None,
        }
}

fn make_port(port: &i32) -> (r: Port)
    ensures
        r.deep_view() == same_port()(port.deep_view()),
{
    Port { service_port: *port as u32, target_port: *port as u32, app_protocol: 0 }
}

fn make_address(host: &HostText) -> (r: Option<NetworkAddress>)
    ensures
        r.deep_view() == network_address()(host.deep_view()),
{
    match &host.octets {
        Some(address) => Some(NetworkAddress { network: "".to_owned(), address: address.dup() }),
        None => None,
    }
}

/// A resolved pool as a service, under its name.
pub open spec fn pool_service() -> spec_fn(common::backend::BackendView) -> Option<
    (Seq<char>, ServiceView),
> {
    |backend: common::backend::BackendView|
        match backend {
            common::backend::BackendView::Resolved(BackendTypeView::InferencePool(config)) => Some(
                (
                    path_name(config.resource_key.namespace, config.endpoint),
                    ServiceView {
                        name: config.resource_key.name,
                        namespace: config.resource_key.namespace,
                        hostname: config.endpoint,
                        ports: config.target_ports.map_values(same_port()),
                        addresses: chosen(list_or_none(config.endpoints), network_address()),
                        load_balancing: Some(LoadBalancingView { mode: 0, health_policy: 1 }),
                    },
                ),
            ),
            _ => None,
        }
}

/// A resolved pool as a service, under its name.
pub fn create_backend_services(backend: &common::backend::Backend) -> (r: Option<(String, Service)>)
    ensures
        r.deep_view() == pool_service()(backend.deep_view()),
{
    match backend {
        common::backend::Backend::Resolved(BackendType::InferencePool(config)) => {
            let endpoints = or_no_items(&config.endpoints);
            Some(
                (
                    write_path_name(
                        config.resource_key.namespace.as_str(),
                        config.endpoint.as_str(),
                    ),
                    Service {
                        name: config.resource_key.name.dup(),
                        namespace: config.resource_key.namespace.dup(),
                        hostname: config.endpoint.dup(),
                        ports: map_list(&config.target_ports, make_port, Ghost(same_port())),
                        addresses: choose_list(&endpoints, make_address, Ghost(network_address())),
                        load_balancing: Some(LoadBalancing { mode: 0, health_policy: 1 }),
                    },
                ),
            )
        },
        _ => None,
    }
}

/// The name of the backend that picks the endpoints for a policy.
pub open spec fn picker_name(policy_name: Seq<char>) -> Seq<char> {
    "epp-backend-"@ + policy_name
}

/// The port of the extension of a pool: 9002 where none is given.
pub open spec fn picker_port(config: InferencePoolTypeConfigView) -> i32 {
    number_or(config.inference_config->0.extension_ref.port_number, 9002)
}

/// The policy of a pool: its extension picks the endpoints, where it is configured.
pub open spec fn pool_policy(
    policy_name: Seq<char>,
    namespace: Seq<char>,
    config: InferencePoolTypeConfigView,
) -> PolicyView {
    PolicyView {
        name: policy_name,
        endpoint_picker: match config.inference_config {
            Some(_) => Some(
                BackendReferenceView {
                    port: picker_port(config) as u32,
                    kind: BackendKindView::Backend(picker_name(policy_name)),
                },
            ),
            None => None,
        },
        failure_mode: 0,
        target_service: path_name(namespace, config.endpoint),
    }
}

/// The backend that picks the endpoints of a pool, under its name, where the pool is configured.
pub open spec fn picker_backend(
    policy_name: Seq<char>,
    config: InferencePoolTypeConfigView,
) -> Option<(Seq<char>, BackendView)> {
    match config.inference_config {
        Some(inference_config) => Some(
            (
                picker_name(policy_name),
                BackendView {
                    name: picker_name(policy_name),
                    host: inference_config.extension_ref.name,
                    port: picker_port(config),
                },
            ),
        ),
        None => None,
    }
}

/// The policy of a pool, and the backend that picks its endpoints, where the pool is configured.
pub fn create_inference_policies(
    policy_name: &str,
    backend: &ResourceKey,
    conf: &InferencePoolTypeConfig,
) -> (r: (Policy, Option<(String, Backend)>))
    ensures
        r.0.deep_view() == pool_policy(policy_name@, backend.namespace@, conf.deep_view()),
        r.1.deep_view() == picker_backend(policy_name@, conf.deep_view()),
{
    let picker = cat("epp-backend-", policy_name);
    let (reference, made) = match &conf.inference_config {
        Some(config) => {
            let extension = config.extension_ref();
            let port: i32 = or_number(&extension.port_number, 9002);
            (
                Some(
                    BackendReference {
                        port: port as u32,
                        kind: BackendKind::Backend(picker.dup()),
                    },
                ),
                Some(
                    (picker.dup(), Backend { name: picker, host: extension.name.dup(), port }),
                ),
            )
        },
        None => (None, None),
    };
    (
        Policy {
            name: policy_name.to_owned(),
            endpoint_picker: reference,
            failure_mode: 0,
            target_service: write_path_name(backend.namespace.as_str(), conf.endpoint.as_str()),
        },
        made,
    )
}

/// The listener at its port.
pub open spec fn told_listener(
    gateway_name: Seq<char>,
    listener: common::listener::ListenerView,
) -> ListenerView {
    let config = listener.made_of().config;
    ListenerView {
        key: config.name,
        name: config.name,
        bind_key: bind_name(config.port),
        gateway_name,
        hostname: text_or(config.hostname, ""@),
        protocol: protocol_number(listener.speaks()),
    }
}

/// The key and the number of the port that a listener is at.
pub open spec fn bind_of(listener: common::listener::ListenerView) -> (Seq<char>, u32) {
    (bind_name(listener.made_of().config.port), listener.made_of().config.port as u32)
}

/// The listeners by their ports after one more.
pub open spec fn with_bound(
    made: Seq<((Seq<char>, u32), Seq<ListenerView>)>,
    gateway_name: Seq<char>,
    listener: common::listener::ListenerView,
) -> Seq<((Seq<char>, u32), Seq<ListenerView>)> {
    let bind = bind_of(listener);
    let before = if keys(made).contains(bind) {
        table(made)[bind]
    } else {
        Seq::empty()
    };
    put::<(String, u32), Seq<ListenerView>>(
        made,
        bind,
        before.push(told_listener(gateway_name, listener)),
    )
}

/// The listeners by their ports.
pub open spec fn bound(
    gateway_name: Seq<char>,
    listeners: Seq<common::listener::ListenerView>,
) -> Seq<((Seq<char>, u32), Seq<ListenerView>)>
    decreases listeners.len(),
{
    if listeners.len() == 0 {
        Seq::empty()
    } else {
        with_bound(bound(gateway_name, listeners.drop_last()), gateway_name, listeners.last())
    }
}

/// The pools among the backends of a rule.
pub open spec fn pools_of_rule() -> spec_fn(HTTPRoutingRuleView) -> Seq<
    (ResourceKeyView, InferencePoolTypeConfigView),
> {
    |rule: HTTPRoutingRuleView| chosen(rule.backends, pool_of())
}

/// The pool that a backend is, with its key, if it is one.
pub open spec fn pool_of() -> spec_fn(common::backend::BackendView) -> Option<
    (ResourceKeyView, InferencePoolTypeConfigView),
> {
    |backend: common::backend::BackendView|
        match backend.typed() {
            BackendTypeView::InferencePool(config) => Some((config.resource_key, config)),
            _ => None,
        }
}

/// The pools of a route, rule by rule.
pub open spec fn pools_of_route(route: common::route::RouteView) -> Seq<
    (ResourceKeyView, InferencePoolTypeConfigView),
> {
    joined(route.http_rules(), pools_of_rule())
}

/// The name of the policy of a rule for a pool.
pub open spec fn policy_name(rule: Seq<char>, pool: ResourceKeyView) -> Seq<char> {
    "Policy-"@ + rule + "-"@ + id_of(pool.name, pool.namespace)
}

/// The policy of a rule for a pool, under its name.
pub open spec fn named_policy(rule: Seq<char>) -> spec_fn(
    (ResourceKeyView, InferencePoolTypeConfigView),
) -> (Seq<char>, PolicyView) {
    |pool: (ResourceKeyView, InferencePoolTypeConfigView)|
        (
            policy_name(rule, pool.0),
            pool_policy(policy_name(rule, pool.0), pool.0.namespace, pool.1),
        )
}

/// The backend that picks the endpoints of a pool for a rule, under its name.
pub open spec fn named_picker(rule: Seq<char>) -> spec_fn(
    (ResourceKeyView, InferencePoolTypeConfigView),
) -> Option<(Seq<char>, BackendView)> {
    |pool: (ResourceKeyView, InferencePoolTypeConfigView)|
        picker_backend(policy_name(rule, pool.0), pool.1)
}

/// The policies of a rule of a route: one for each pool of the route.
pub open spec fn rule_policies(route: common::route::RouteView) -> spec_fn(
    HTTPRoutingRuleView,
) -> Seq<(Seq<char>, PolicyView)> {
    |rule: HTTPRoutingRuleView| pools_of_route(route).map_values(named_policy(rule.name))
}

/// The backends of a rule of a route: its services, then what picks the endpoints of the pools of the
/// route.
pub open spec fn rule_backends(route: common::route::RouteView) -> spec_fn(
    HTTPRoutingRuleView,
) -> Seq<(Seq<char>, BackendView)> {
    |rule: HTTPRoutingRuleView|
        chosen(rule.backends, static_backend()) + chosen(
            pools_of_route(route),
            named_picker(rule.name),
        )
}

/// The services of a rule: its pools.
pub open spec fn rule_services() -> spec_fn(HTTPRoutingRuleView) -> Seq<(Seq<char>, ServiceView)> {
    |rule: HTTPRoutingRuleView| chosen(rule.backends, pool_service())
}

/// A rule of a route at a listener.
pub open spec fn told_rule(listener: Seq<char>, route: common::route::RouteView) -> spec_fn(
    HTTPRoutingRuleView,
) -> RouteView {
    |rule: HTTPRoutingRuleView|
        RouteView {
            key: route.config.resource_key.name,
            listener_key: listener,
            rule_name: rule.name,
            route_name: route.config.resource_key.name,
            hostnames: route.config.hostnames,
            matches: rule.matching_rules.map_values(route_match()),
            backends: chosen(rule.backends, route_backend()),
        }
}

/// The policies of a route, rule by rule.
pub open spec fn route_policies() -> spec_fn(common::route::RouteView) -> Seq<
    (Seq<char>, PolicyView),
> {
    |route: common::route::RouteView| joined(route.http_rules(), rule_policies(route))
}

/// The backends of a route, rule by rule.
pub open spec fn route_backends() -> spec_fn(common::route::RouteView) -> Seq<
    (Seq<char>, BackendView),
> {
    |route: common::route::RouteView| joined(route.http_rules(), rule_backends(route))
}

/// The services of a route, rule by rule.
pub open spec fn route_services() -> spec_fn(common::route::RouteView) -> Seq<
    (Seq<char>, ServiceView),
> {
    |route: common::route::RouteView| joined(route.http_rules(), rule_services())
}

/// The rules of a route at a listener.
pub open spec fn route_rules(listener: Seq<char>) -> spec_fn(common::route::RouteView) -> Seq<
    RouteView,
> {
    |route: common::route::RouteView| route.http_rules().map_values(told_rule(listener, route))
}

/// The policies of a listener, route by route.
pub open spec fn listener_policies() -> spec_fn(common::listener::ListenerView) -> Seq<
    (Seq<char>, PolicyView),
> {
    |listener: common::listener::ListenerView|
        joined(listener.made_of().resolved_routes, route_policies())
}

/// The backends of a listener, route by route.
pub open spec fn listener_backends() -> spec_fn(common::listener::ListenerView) -> Seq<
    (Seq<char>, BackendView),
> {
    |listener: common::listener::ListenerView|
        joined(listener.made_of().resolved_routes, route_backends())
}

/// The services of a listener, route by route.
pub open spec fn listener_services() -> spec_fn(common::listener::ListenerView) -> Seq<
    (Seq<char>, ServiceView),
> {
    |listener: common::listener::ListenerView|
        joined(listener.made_of().resolved_routes, route_services())
}

/// The rules of the routes of a listener.
pub open spec fn listener_rules() -> spec_fn(common::listener::ListenerView) -> Seq<RouteView> {
    |listener: common::listener::ListenerView|
        joined(listener.made_of().resolved_routes, route_rules(listener.made_of().config.name))
}

impl GatewayView {
    /// The rules of the resolved HTTP routes of all listeners.
    pub open spec fn agent_routes(self) -> Seq<RouteView> {
        joined(values(self.listeners), listener_rules())
    }

    /// The backends, in the order of their names: where a name comes twice, the last one counts.
    pub open spec fn agent_backends(self) -> Seq<BackendView> {
        values(stored::<String, BackendView>(joined(values(self.listeners), listener_backends())))
    }

    /// The policies, in the order of their names: where a name comes twice, the last one counts.
    pub open spec fn agent_policies(self) -> Seq<PolicyView> {
        values(stored::<String, PolicyView>(joined(values(self.listeners), listener_policies())))
    }

    /// The services, in the order of their names: where a name comes twice, the last one counts.
    pub open spec fn agent_services(self) -> Seq<ServiceView> {
        values(stored::<String, ServiceView>(joined(values(self.listeners), listener_services())))
    }
}

fn give_pool(backend: &common::backend::Backend) -> (r: Option<
    (ResourceKey, InferencePoolTypeConfig),
>)
    ensures
        r.deep_view() == pool_of()(backend.deep_view()),
{
    match backend.backend_type() {
        BackendType::InferencePool(config) => Some((config.resource_key.dup(), config.dup())),
        _ => None,
    }
}

fn list_pools(rule: &HTTPRoutingRule) -> (r: Vec<(ResourceKey, InferencePoolTypeConfig)>)
    ensures
        r.deep_view() == pools_of_rule()(rule.deep_view()),
{
    choose_list(&rule.backends, give_pool, Ghost(pool_of()))
}

fn write_policy_name(rule: &str, pool: &ResourceKey) -> (r: String)
    ensures
        r@ == policy_name(rule@, pool.deep_view()),
{
    let id = pool.to_text();
    let start = cat3("Policy-", rule, "-");
    cat(start.as_str(), id.as_str())
}

fn list_rule_policies(
    rule: &HTTPRoutingRule,
    pools: &Vec<(ResourceKey, InferencePoolTypeConfig)>,
) -> (r: Vec<(String, Policy)>)
    ensures
        r.deep_view() == pools.deep_view().map_values(named_policy(rule.name@)),
{
    map_list(
        pools,
        |pool: &(ResourceKey, InferencePoolTypeConfig)| -> (y: (String, Policy))
            ensures y.deep_view() == named_policy(rule.name@)(pool.deep_view())
        {
            let name = write_policy_name(rule.name.as_str(), &pool.0);
            let (policy, _) = create_inference_policies(name.as_str(), &pool.0, &pool.1);
            (name, policy)
        },
        Ghost(named_policy(rule.name@)),
    )
}

fn list_rule_backends(
    rule: &HTTPRoutingRule,
    pools: &Vec<(ResourceKey, InferencePoolTypeConfig)>,
) -> (r: Vec<(String, Backend)>)
    ensures
        r.deep_view() == chosen(rule.deep_view().backends, static_backend()) + chosen(
            pools.deep_view(),
            named_picker(rule.name@),
        ),
{
    let services = choose_list(&rule.backends, create_backends, Ghost(static_backend()));
    let pickers = choose_list(
        pools,
        |pool: &(ResourceKey, InferencePoolTypeConfig)| -> (y: Option<(String, Backend)>)
            ensures y.deep_view() == named_picker(rule.name@)(pool.deep_view())
        {
            let name = write_policy_name(rule.name.as_str(), &pool.0);
            let (_, picker) = create_inference_policies(name.as_str(), &pool.0, &pool.1);
            picker
        },
        Ghost(named_picker(rule.name@)),
    );
    append_list(services, pickers)
}

fn list_rule_services(rule: &HTTPRoutingRule) -> (r: Vec<(String, Service)>)
    ensures
        r.deep_view() == rule_services()(rule.deep_view()),
{
    choose_list(&rule.backends, create_backend_services, Ghost(pool_service()))
}

fn tell_rule(listener: &str, route: &common::route::Route, rule: &HTTPRoutingRule) -> (r: Route)
    ensures
        r.deep_view() == told_rule(listener@, route.deep_view())(rule.deep_view()),
{
    Route {
        key: route.name().to_owned(),
        listener_key: listener.to_owned(),
        rule_name: rule.name.dup(),
        route_name: route.name().to_owned(),
        hostnames: route.hostnames().dup(),
        matches: map_list(&rule.matching_rules, convert_route_match, Ghost(route_match())),
        backends: choose_list(&rule.backends, create_route_backend, Ghost(route_backend())),
    }
}

fn list_route_policies(route: &&common::route::Route) -> (r: Vec<(String, Policy)>)
    ensures
        r.deep_view() == route_policies()(route.deep_view()),
{
    let rules = route.routing_rules();
    let pools = join_list(&rules, list_pools, Ghost(pools_of_rule()));
    let ghost view = route.deep_view();
    join_list(
        &rules,
        |rule: &HTTPRoutingRule| -> (y: Vec<(String, Policy)>)
            ensures y.deep_view() == rule_policies(view)(rule.deep_view())
        { list_rule_policies(rule, &pools) },
        Ghost(rule_policies(view)),
    )
}

fn list_route_backends(route: &&common::route::Route) -> (r: Vec<(String, Backend)>)
    ensures
        r.deep_view() == route_backends()(route.deep_view()),
{
    let rules = route.routing_rules();
    let pools = join_list(&rules, list_pools, Ghost(pools_of_rule()));
    let ghost view = route.deep_view();
    join_list(
        &rules,
        |rule: &HTTPRoutingRule| -> (y: Vec<(String, Backend)>)
            ensures y.deep_view() == rule_backends(view)(rule.deep_view())
        { list_rule_backends(rule, &pools) },
        Ghost(rule_backends(view)),
    )
}

fn list_route_services(route: &&common::route::Route) -> (r: Vec<(String, Service)>)
    ensures
        r.deep_view() == route_services()(route.deep_view()),
{
    let rules = route.routing_rules();
    join_list(&rules, list_rule_services, Ghost(rule_services()))
}

fn list_route_rules(listener: &str, route: &common::route::Route) -> (r: Vec<Route>)
    ensures
        r.deep_view() == route_rules(listener@)(route.deep_view()),
{
    let rules = route.routing_rules();
    let ghost view = route.deep_view();
    map_list(
        &rules,
        |rule: &HTTPRoutingRule| -> (y: Route)
            ensures y.deep_view() == told_rule(listener@, view)(rule.deep_view())
        { tell_rule(listener, route, rule) },
        Ghost(told_rule(listener@, view)),
    )
}

fn list_listener_policies(listener: &&common::listener::Listener) -> (r: Vec<(String, Policy)>)
    ensures
        r.deep_view() == listener_policies()(listener.deep_view()),
{
    let (resolved, _) = listener.routes();
    join_list(&resolved, list_route_policies, Ghost(route_policies()))
}

fn list_listener_backends(listener: &&common::listener::Listener) -> (r: Vec<(String, Backend)>)
    ensures
        r.deep_view() == listener_backends()(listener.deep_view()),
{
    let (resolved, _) = listener.routes();
    join_list(&resolved, list_route_backends, Ghost(route_backends()))
}

fn list_listener_services(listener: &&common::listener::Listener) -> (r: Vec<(String, Service)>)
    ensures
        r.deep_view() == listener_services()(listener.deep_view()),
{
    let (resolved, _) = listener.routes();
    join_list(&resolved, list_route_services, Ghost(route_services()))
}

fn list_listener_rules(listener: &&common::listener::Listener) -> (r: Vec<Route>)
    ensures
        r.deep_view() == listener_rules()(listener.deep_view()),
{
    let (resolved, _) = listener.routes();
    let ghost name = listener.deep_view().made_of().config.name;
    join_list(
        &resolved,
        |route: &&common::route::Route| -> (y: Vec<Route>)
            ensures y.deep_view() == route_rules(name)(route.deep_view())
        { list_route_rules(listener.name(), *route) },
        Ghost(route_rules(name)),
    )
}

fn copy_values<T: Model>(map: &OrderedMap<String, T>) -> (r: Vec<T>)
    ensures
        r.deep_view() == values(map.deep_view()),
{
    let list = map.values();
    let out = map_list(
        &list,
        |item: &&T| -> (y: T)
            ensures y.deep_view() == (|x: T::V| x)(item.deep_view())
        { item.dup() },
        Ghost(|x: T::V| x),
    );
    assert(out.deep_view() =~= values(map.deep_view()));
    out
}

/// Makes a gateway into resources.
pub struct ResourceGenerator<'a> {
    effective_gateway: &'a Gateway,
}

impl<'a> ResourceGenerator<'a> {
    /// The gateway.
    pub closed spec fn gateway(&self) -> GatewayView {
        self.effective_gateway.deep_view()
    }

    /// A generator for a gateway.
    pub fn new(effective_gateway: &'a Gateway) -> (r: Self)
        ensures
            r.gateway() == effective_gateway.deep_view(),
    {
        ResourceGenerator { effective_gateway }
    }

    /// The listeners by the keys and the numbers of their ports.
    pub fn generate_bindings_and_listeners(&self) -> (r: OrderedMap<(String, u32), Vec<Listener>>)
        ensures
            r.deep_view() == bound(
                self.gateway().resource_key.name,
                values(self.gateway().listeners),
            ),
    {
        let listeners = self.effective_gateway.listeners();
        let ghost all = listeners.deep_view();
        let ghost name = self.gateway().resource_key.name;
        let mut made: OrderedMap<(String, u32), Vec<Listener>> = OrderedMap::new();
        let mut i: usize = 0;
        assert(all.take(0) =~= Seq::<common::listener::ListenerView>::empty());
        while i < listeners.len()
            invariant
                i <= listeners.len(),
                listeners.deep_view() == all,
                name == self.effective_gateway.deep_view().resource_key.name,
                made.deep_view() == bound(name, all.take(i as int)),
            decreases listeners.len() - i,
        {
            let listener = listeners[i];
            let port: i32 = listener.port();
            let bind = (create_bind_name(port), port as u32);
            let mut list = match made.get(&bind) {
                Some(list) => list.dup(),
                None => no_items(),
            };
            let ghost before = list.deep_view();
            let hostname = match listener.hostname() {
                Some(hostname) => hostname.dup(),
                None => "".to_owned(),
            };
            let entry = Listener {
                key: listener.name().to_owned(),
                name: listener.name().to_owned(),
                bind_key: create_bind_name(port),
                gateway_name: self.effective_gateway.name().to_owned(),
                hostname,
                protocol: i32::from(listener.protocol()),
            };
            assert(all[i as int] == listeners[i as int].deep_view());
            assert(all.take(i + 1).drop_last() =~= all.take(i as int));
            assert(entry.deep_view() == told_listener(name, all[i as int]));
            list.push(entry);
            assert(list.deep_view() =~= before.push(entry.deep_view()));
            made.insert(bind, list);
            i = i + 1;
        }
        assert(all.take(i as int) =~= all);
        made
    }

    /// The rules of the resolved HTTP routes of all listeners.
    pub fn generate_routes(&self) -> (r: Vec<Route>)
        ensures
            r.deep_view() == self.gateway().agent_routes(),
    {
        let listeners = self.effective_gateway.listeners();
        join_list(&listeners, list_listener_rules, Ghost(listener_rules()))
    }

    /// The rules of the resolved HTTP routes of all listeners, and the backends, the policies and the
    /// services that they call for, in the order of their names.
    pub fn generate_routes_and_backends_and_policies(&self) -> (r: (
        Vec<Route>,
        Vec<Backend>,
        Vec<Policy>,
        Vec<Service>,
    ))
        ensures
            r.0.deep_view() == self.gateway().agent_routes(),
            r.1.deep_view() == self.gateway().agent_backends(),
            r.2.deep_view() == self.gateway().agent_policies(),
            r.3.deep_view() == self.gateway().agent_services(),
    {
        let listeners = self.effective_gateway.listeners();
        let backends = join_list(&listeners, list_listener_backends, Ghost(listener_backends()));
        let policies = join_list(&listeners, list_listener_policies, Ghost(listener_policies()));
        let services = join_list(&listeners, list_listener_services, Ghost(listener_services()));
        let backend_map = OrderedMap::gather(&backends);
        let policy_map = OrderedMap::gather(&policies);
        let service_map = OrderedMap::gather(&services);
        (
            self.generate_routes(),
            copy_values(&backend_map),
            copy_values(&policy_map),
            copy_values(&service_map),
        )
    }
}

/// Each listener of a gateway is told of under its port.
pub proof fn law_listeners_are_bound(
    gateway_name: Seq<char>,
    listeners: Seq<common::listener::ListenerView>,
    i: int,
)
    requires
        0 <= i < listeners.len(),
    ensures
        increasing::<(String, u32)>(keys(bound(gateway_name, listeners))),
        table(bound(gateway_name, listeners)).contains_key(bind_of(listeners[i])),
        table(bound(gateway_name, listeners))[bind_of(listeners[i])].contains(
            told_listener(gateway_name, listeners[i]),
        ),
    decreases listeners.len(),
{
    let shorter = listeners.drop_last();
    let made = bound(gateway_name, shorter);
    let last = listeners.last();
    let bind = bind_of(last);
    bound_increases(gateway_name, shorter);
    let before = if keys(made).contains(bind) {
        table(made)[bind]
    } else {
        Seq::empty()
    };
    let next = before.push(told_listener(gateway_name, last));
    law_put::<(String, u32), Seq<ListenerView>>(made, bind, next);
    if i < shorter.len() {
        law_listeners_are_bound(gateway_name, shorter, i);
        if bind_of(listeners[i]) == bind {
            let told = told_listener(gateway_name, listeners[i]);
            let k = choose|k: int| 0 <= k < before.len() && before[k] == told;
            assert(next[k] == told);
        }
    } else {
        assert(next[before.len() as int] == told_listener(gateway_name, last));
    }
}

proof fn bound_increases(
    gateway_name: Seq<char>,
    listeners: Seq<common::listener::ListenerView>,
)
    ensures
        increasing::<(String, u32)>(keys(bound(gateway_name, listeners))),
    decreases listeners.len(),
{
    if listeners.len() > 0 {
        let made = bound(gateway_name, listeners.drop_last());
        let bind = bind_of(listeners.last());
        bound_increases(gateway_name, listeners.drop_last());
        let before = if keys(made).contains(bind) {
            table(made)[bind]
        } else {
            Seq::empty()
        };
        law_put::<(String, u32), Seq<ListenerView>>(
            made,
            bind,
            before.push(told_listener(gateway_name, listeners.last())),
        );
    }
}

proof fn rule_backend_is_named(
    route: common::route::RouteView,
    rule: HTTPRoutingRuleView,
    pair: (Seq<char>, BackendView),
)
    requires
        rule_backends(route)(rule).contains(pair),
    ensures
        pair.1.name == pair.0,
{
    let services = chosen(rule.backends, static_backend());
    let pickers = chosen(pools_of_route(route), named_picker(rule.name));
    let k = choose|k: int| 0 <= k < (services + pickers).len() && (services + pickers)[k] == pair;
    if k < services.len() {
        assert(services[k] == pair);
        chosen_contains(rule.backends, static_backend(), pair);
    } else {
        assert(pickers[k - services.len()] == pair);
        chosen_contains(pools_of_route(route), named_picker(rule.name), pair);
    }
}

proof fn backend_is_named(gateway: GatewayView, pair: (Seq<char>, BackendView))
    requires
        joined(values(gateway.listeners), listener_backends()).contains(pair),
    ensures
        pair.1.name == pair.0,
{
    let listeners = values(gateway.listeners);
    joined_contains(listeners, listener_backends(), pair);
    let l = choose|l: int|
        0 <= l < listeners.len() && #[trigger] listener_backends()(listeners[l]).contains(pair);
    let routes = listeners[l].made_of().resolved_routes;
    joined_contains(routes, route_backends(), pair);
    let r = choose|r: int|
        0 <= r < routes.len() && #[trigger] route_backends()(routes[r]).contains(pair);
    let rules = routes[r].http_rules();
    joined_contains(rules, rule_backends(routes[r]), pair);
    let k = choose|k: int|
        0 <= k < rules.len() && #[trigger] rule_backends(routes[r])(rules[k]).contains(pair);
    rule_backend_is_named(routes[r], rules[k], pair);
}

proof fn backend_is_told(
    gateway: GatewayView,
    l: int,
    r: int,
    k: int,
    pair: (Seq<char>, BackendView),
)
    requires
        0 <= l < values(gateway.listeners).len(),
        0 <= r < values(gateway.listeners)[l].made_of().resolved_routes.len(),
        ({
            let route = values(gateway.listeners)[l].made_of().resolved_routes[r];
            0 <= k < route.http_rules().len() && rule_backends(route)(
                route.http_rules()[k],
            ).contains(pair)
        }),
    ensures
        exists|backend: BackendView|
            #[trigger] gateway.agent_backends().contains(backend) && backend.name == pair.0,
{
    let listeners = values(gateway.listeners);
    let routes = listeners[l].made_of().resolved_routes;
    let rules = routes[r].http_rules();
    joined_contains(rules, rule_backends(routes[r]), pair);
    assert(route_backends()(routes[r]).contains(pair));
    joined_contains(routes, route_backends(), pair);
    assert(listener_backends()(listeners[l]).contains(pair));
    joined_contains(listeners, listener_backends(), pair);
    let pairs = joined(listeners, listener_backends());
    let i = choose|i: int| 0 <= i < pairs.len() && pairs[i] == pair;
    assert(keys(pairs)[i] == pair.0);
    stored_has_key::<String, BackendView>(pairs, pair.0);
    let backend = choose|backend: BackendView|
        #[trigger] values(stored::<String, BackendView>(pairs)).contains(backend) && pairs.contains(
            (pair.0, backend),
        );
    backend_is_named(gateway, (pair.0, backend));
    assert(gateway.agent_backends().contains(backend));
}

/// Each backend that a route refers to is among the backends.
pub proof fn law_routes_refer_to_backends(
    gateway: GatewayView,
    route: RouteView,
    backend: RouteBackendView,
    name: Seq<char>,
)
    requires
        gateway.agent_routes().contains(route),
        route.backends.contains(backend),
        backend.backend.kind == BackendKindView::Backend(name),
    ensures
        exists|told: BackendView|
            #[trigger] gateway.agent_backends().contains(told) && told.name == name,
{
    let listeners = values(gateway.listeners);
    joined_contains(listeners, listener_rules(), route);
    let l = choose|l: int|
        0 <= l < listeners.len() && #[trigger] listener_rules()(listeners[l]).contains(route);
    let key = listeners[l].made_of().config.name;
    let routes = listeners[l].made_of().resolved_routes;
    joined_contains(routes, route_rules(key), route);
    let r = choose|r: int|
        0 <= r < routes.len() && #[trigger] route_rules(key)(routes[r]).contains(route);
    let rules = routes[r].http_rules();
    let told = route_rules(key)(routes[r]);
    let k = choose|k: int| 0 <= k < told.len() && told[k] == route;
    let backends = rules[k].backends;
    assert(route.backends == chosen(backends, route_backend()));
    chosen_contains(backends, route_backend(), backend);
    let b = choose|b: int|
        0 <= b < backends.len() && #[trigger] route_backend()(backends[b]) == Some(backend);
    let pair = static_backend()(backends[b])->0;
    assert(static_backend()(backends[b]) == Some(pair));
    assert(pair.0 == name);
    chosen_contains(backends, static_backend(), pair);
    let services = chosen(backends, static_backend());
    let i = choose|i: int| 0 <= i < services.len() && services[i] == pair;
    assert(rule_backends(routes[r])(rules[k])[i] == pair);
    backend_is_told(gateway, l, r, k, pair);
}

/// The backend that picks the endpoints for a policy is among the backends.
pub proof fn law_policies_have_pickers(gateway: GatewayView, policy: PolicyView, name: Seq<char>)
    requires
        gateway.agent_policies().contains(policy),
        policy.endpoint_picker matches Some(reference) && reference.kind == BackendKindView::Backend(
            name,
        ),
    ensures
        exists|told: BackendView|
            #[trigger] gateway.agent_backends().contains(told) && told.name == name,
{
    let listeners = values(gateway.listeners);
    let pairs = joined(listeners, listener_policies());
    let all = stored::<String, PolicyView>(pairs);
    let i = choose|i: int| 0 <= i < values(all).len() && values(all)[i] == policy;
    stored_is_of_pairs::<String, PolicyView>(pairs, i);
    let pair = all[i];
    assert(pair.1 == policy);
    joined_contains(listeners, listener_policies(), pair);
    let l = choose|l: int|
        0 <= l < listeners.len() && #[trigger] listener_policies()(listeners[l]).contains(pair);
    let routes = listeners[l].made_of().resolved_routes;
    joined_contains(routes, route_policies(), pair);
    let r = choose|r: int|
        0 <= r < routes.len() && #[trigger] route_policies()(routes[r]).contains(pair);
    let rules = routes[r].http_rules();
    joined_contains(rules, rule_policies(routes[r]), pair);
    let k = choose|k: int|
        0 <= k < rules.len() && #[trigger] rule_policies(routes[r])(rules[k]).contains(pair);
    let pools = pools_of_route(routes[r]);
    let policies = rule_policies(routes[r])(rules[k]);
    let p = choose|p: int| 0 <= p < policies.len() && policies[p] == pair;
    assert(named_policy(rules[k].name)(pools[p]) == pair);
    let made = named_picker(rules[k].name)(pools[p])->0;
    assert(named_picker(rules[k].name)(pools[p]) == Some(made));
    chosen_contains(pools, named_picker(rules[k].name), made);
    let services = chosen(rules[k].backends, static_backend());
    let pickers = chosen(pools, named_picker(rules[k].name));
    let j = choose|j: int| 0 <= j < pickers.len() && pickers[j] == made;
    assert(rule_backends(routes[r])(rules[k])[services.len() + j] == made);
    backend_is_told(gateway, l, r, k, made);
}

/// A path is matched in the way that is asked for, with the value that is asked for, or an empty one;
/// where no way is asked for, it is not matched.
pub proof fn law_path_is_matched_as_asked(path: common::kube::PathMatchView)
    ensures
        ({
            let value = match path.value {
                Some(value) => value,
                None => ""@,
            };
            let told = path_match(Some(path));
            &&& path.match_type == Some(PathMatchType::Exact) ==> told == Some(
                PathMatchView::Exact(value),
            )
            &&& path.match_type == Some(PathMatchType::PathPrefix) ==> told == Some(
                PathMatchView::PathPrefix(value),
            )
            &&& path.match_type == Some(PathMatchType::RegularExpression) ==> told == Some(
                PathMatchView::Regex(value),
            )
            &&& path.match_type is None ==> told is None
        }),
        path_match(None) is None,
{
}

/// A match asks for the headers and the parameters that are asked for, each under its name and in its
/// place, with its value: as it is, or as a regular expression.
pub proof fn law_fields_are_matched_as_asked(matching: common::kube::RouteMatchView)
    ensures
        matching.headers is None ==> route_match()(matching).headers.len() == 0,
        matching.query_params is None ==> route_match()(matching).query_params.len() == 0,
        matching.headers is Some ==> route_match()(matching).headers.len()
            == matching.headers->0.len(),
        matching.query_params is Some ==> route_match()(matching).query_params.len()
            == matching.query_params->0.len(),
        matching.headers is Some ==> forall|i: int|
            0 <= i < matching.headers->0.len() ==> {
                let asked = #[trigger] matching.headers->0[i];
                let told = route_match()(matching).headers[i];
                &&& told.name == asked.name
                &&& asked.match_type == Some(MatchType::Exact) ==> told.value == Some(
                    TextMatchView::Exact(asked.value),
                )
                &&& asked.match_type == Some(MatchType::RegularExpression) ==> told.value == Some(
                    TextMatchView::Regex(asked.value),
                )
                &&& asked.match_type is None ==> told.value is None
            },
        matching.query_params is Some ==> forall|i: int|
            0 <= i < matching.query_params->0.len() ==> {
                let asked = #[trigger] matching.query_params->0[i];
                let told = route_match()(matching).query_params[i];
                &&& told.name == asked.name
                &&& asked.match_type == Some(MatchType::Exact) ==> told.value == Some(
                    TextMatchView::Exact(asked.value),
                )
                &&& asked.match_type == Some(MatchType::RegularExpression) ==> told.value == Some(
                    TextMatchView::Regex(asked.value),
                )
                &&& asked.match_type is None ==> told.value is None
            },
        matching.path is Some ==> route_match()(matching).path == path_match(matching.path),
        matching.path is None ==> route_match()(matching).path is None,
{
}

/// A method is asked for by its name in quotes.
pub proof fn law_method_is_named(matching: common::kube::RouteMatchView)
    ensures
        matching.method is None ==> route_match()(matching).method is None,
        matching.method == Some(HTTPMethodMatch::Get) ==> route_match()(matching).method == Some(
            seq!['"'] + "GET"@ + seq!['"'],
        ),
        matching.method == Some(HTTPMethodMatch::Head) ==> route_match()(matching).method == Some(
            seq!['"'] + "HEAD"@ + seq!['"'],
        ),
        matching.method == Some(HTTPMethodMatch::Post) ==> route_match()(matching).method == Some(
            seq!['"'] + "POST"@ + seq!['"'],
        ),
        matching.method == Some(HTTPMethodMatch::Put) ==> route_match()(matching).method == Some(
            seq!['"'] + "PUT"@ + seq!['"'],
        ),
        matching.method == Some(HTTPMethodMatch::Delete) ==> route_match()(matching).method == Some(
            seq!['"'] + "DELETE"@ + seq!['"'],
        ),
        matching.method == Some(HTTPMethodMatch::Connect) ==> route_match()(matching).method == Some(
            seq!['"'] + "CONNECT"@ + seq!['"'],
        ),
        matching.method == Some(HTTPMethodMatch::Options) ==> route_match()(matching).method == Some(
            seq!['"'] + "OPTIONS"@ + seq!['"'],
        ),
        matching.method == Some(HTTPMethodMatch::Trace) ==> route_match()(matching).method == Some(
            seq!['"'] + "TRACE"@ + seq!['"'],
        ),
        matching.method == Some(HTTPMethodMatch::Patch) ==> route_match()(matching).method == Some(
            seq!['"'] + "PATCH"@ + seq!['"'],
        ),
{
}

/// A resolved service is referred to by its namespace and its name, at its port and with its weight; a
/// resolved pool by its namespace and its endpoint, at the first port that it leads to, or its own. A
/// backend that is not resolved, or of no known type, is not referred to.
pub proof fn law_backend_is_referred_to(backend: common::backend::BackendView)
    ensures
        !(backend is Resolved) ==> route_backend()(backend) is None,
        backend matches common::backend::BackendView::Resolved(BackendTypeView::Invalid(_))
            ==> route_backend()(backend) is None,
        backend matches common::backend::BackendView::Resolved(BackendTypeView::Service(config)) ==> {
            let told = route_backend()(backend);
            &&& told is Some
            &&& told->0.weight == config.weight
            &&& config.port >= 0 ==> told->0.backend.port == config.port
            &&& told->0.backend.kind == BackendKindView::Backend(
                config.resource_key.namespace + "/"@ + config.resource_key.name,
            )
        },
        backend matches common::backend::BackendView::Resolved(BackendTypeView::InferencePool(config))
            ==> {
            let told = route_backend()(backend);
            &&& told is Some
            &&& told->0.weight == config.weight
            &&& config.target_ports.len() == 0 && config.port >= 0 ==> told->0.backend.port
                == config.port
            &&& config.target_ports.len() > 0 && config.target_ports[0] >= 0
                ==> told->0.backend.port == config.target_ports[0]
            &&& told->0.backend.kind == BackendKindView::Service(
                config.resource_key.namespace + "/"@ + config.endpoint,
            )
        },
{
}

/// A resolved service is a backend under its namespace and its name, at its endpoint and its port.
/// Nothing else is.
pub proof fn law_service_is_a_backend(backend: common::backend::BackendView)
    ensures
        static_backend()(backend) is Some <==> backend is Resolved && backend->Resolved_0 is Service,
        backend matches common::backend::BackendView::Resolved(BackendTypeView::Service(config)) ==> {
            let told = static_backend()(backend)->0;
            &&& told.0 == config.resource_key.namespace + "/"@ + config.resource_key.name
            &&& told.1.name == told.0
            &&& told.1.host == config.endpoint
            &&& told.1.port == config.port
        },
{
}

/// A resolved pool is a service under its namespace and its endpoint, with its name and namespace, its
/// ports, and the addresses that its endpoints spell. Nothing else is.
pub proof fn law_pool_is_a_service(backend: common::backend::BackendView)
    ensures
        pool_service()(backend) is Some <==> backend is Resolved
            && backend->Resolved_0 is InferencePool,
        backend matches common::backend::BackendView::Resolved(BackendTypeView::InferencePool(config))
            ==> {
            let told = pool_service()(backend)->0;
            &&& told.0 == config.resource_key.namespace + "/"@ + config.endpoint
            &&& told.1.name == config.resource_key.name
            &&& told.1.namespace == config.resource_key.namespace
            &&& told.1.hostname == config.endpoint
            &&& told.1.ports.len() == config.target_ports.len()
            &&& forall|i: int|
                0 <= i < config.target_ports.len() && config.target_ports[i] >= 0 ==> {
                    &&& (#[trigger] told.1.ports[i]).service_port == config.target_ports[i]
                    &&& told.1.ports[i].target_port == config.target_ports[i]
                    &&& told.1.ports[i].app_protocol == 0
                }
            &&& config.endpoints is None ==> told.1.addresses.len() == 0
            &&& told.1.load_balancing is Some
            &&& told.1.load_balancing->0.mode == 0
            &&& told.1.load_balancing->0.health_policy == 1
        },
{
}

/// The addresses of the service of a pool are those that the endpoints of the pool spell.
pub proof fn law_endpoints_are_addresses(
    config: InferencePoolTypeConfigView,
    endpoints: Seq<HostTextView>,
    octets: Seq<u8>,
)
    requires
        config.endpoints == Some(endpoints),
    ensures
        ({
            let pool = common::backend::BackendView::Resolved(BackendTypeView::InferencePool(config));
            (pool_service()(pool)->0).1.addresses.contains(
                NetworkAddressView { network: ""@, address: octets },
            ) <==> exists|i: int|
                0 <= i < endpoints.len() && (#[trigger] endpoints[i]).octets == Some(octets)
        }),
{
    let address = NetworkAddressView { network: ""@, address: octets };
    chosen_contains(endpoints, network_address(), address);
    if exists|i: int| 0 <= i < endpoints.len() && (#[trigger] endpoints[i]).octets == Some(octets) {
        let i = choose|i: int|
            0 <= i < endpoints.len() && (#[trigger] endpoints[i]).octets == Some(octets);
        assert(network_address()(endpoints[i]) == Some(address));
    }
    if chosen(endpoints, network_address()).contains(address) {
        let i = choose|i: int|
            0 <= i < endpoints.len() && #[trigger] network_address()(endpoints[i]) == Some(address);
        assert(endpoints[i].octets == Some(octets));
    }
}

/// The policy of a pool that is configured names the backend that picks its endpoints, at the port of
/// its extension, or 9002; the extension is that backend. A pool that is not configured has neither.
pub proof fn law_policy_of_pool(
    name: Seq<char>,
    namespace: Seq<char>,
    config: InferencePoolTypeConfigView,
)
    ensures
        pool_policy(name, namespace, config).name == name,
        pool_policy(name, namespace, config).target_service == namespace + "/"@ + config.endpoint,
        pool_policy(name, namespace, config).failure_mode == 0,
        config.inference_config is None ==> pool_policy(name, namespace, config).endpoint_picker is None
            && picker_backend(name, config) is None,
        config.inference_config is Some ==> {
            let extension = config.inference_config->0.extension_ref;
            let port = match extension.port_number {
                Some(port) => port,
                None => 9002,
            };
            let picker = pool_policy(name, namespace, config).endpoint_picker;
            let told = picker_backend(name, config);
            &&& picker is Some
            &&& picker->0.kind == BackendKindView::Backend("epp-backend-"@ + name)
            &&& port >= 0 ==> picker->0.port == port
            &&& told is Some
            &&& (told->0).0 == "epp-backend-"@ + name
            &&& (told->0).1.name == "epp-backend-"@ + name
            &&& (told->0).1.host == extension.name
            &&& (told->0).1.port == port
        },
{
}

/// A listener is told of under its name, at the bind of its port, for its gateway, with its hostname, or
/// none, and with the number of its protocol.
pub proof fn law_listener_is_told_of(
    gateway_name: Seq<char>,
    listener: common::listener::ListenerView,
)
    ensures
        ({
            let told = told_listener(gateway_name, listener);
            let config = listener.made_of().config;
            &&& told.key == config.name
            &&& told.name == config.name
            &&& told.bind_key == "bind-port-"@ + decimal(config.port as int)
            &&& told.gateway_name == gateway_name
            &&& config.hostname is Some ==> told.hostname == config.hostname->0
            &&& config.hostname is None ==> told.hostname == ""@
            &&& listener is Http ==> told.protocol == 1
            &&& listener is Https ==> told.protocol == 2
            &&& listener is Tls ==> told.protocol == 3
            &&& listener is Tcp ==> told.protocol == 4
            &&& listener is Udp ==> told.protocol == 6
            &&& bind_of(listener).0 == told.bind_key
            &&& config.port >= 0 ==> bind_of(listener).1 == config.port
        }),
        protocol_number(ProtocolType::Unknown) == 0,
{
}

/// There is a route for each rule of each resolved HTTP route of each listener: under the name of the
/// route, at the listener, for the hostnames of the route, with all matches of the rule in their order
/// and with its resolved backends.
pub proof fn law_rule_is_told_of(gateway: GatewayView, l: int, r: int, k: int)
    requires
        0 <= l < gateway.listeners.len(),
        0 <= r < gateway.listeners[l].1.made_of().resolved_routes.len(),
        0 <= k < gateway.listeners[l].1.made_of().resolved_routes[r].http_rules().len(),
    ensures
        ({
            let data = gateway.listeners[l].1.made_of();
            let route = data.resolved_routes[r];
            let rule = route.http_rules()[k];
            gateway.agent_routes().contains(
                RouteView {
                    key: route.config.resource_key.name,
                    listener_key: data.config.name,
                    rule_name: rule.name,
                    route_name: route.config.resource_key.name,
                    hostnames: route.config.hostnames,
                    matches: rule.matching_rules.map_values(route_match()),
                    backends: chosen(rule.backends, route_backend()),
                },
            )
        }),
{
    let data = gateway.listeners[l].1.made_of();
    let route = data.resolved_routes[r];
    let rule = route.http_rules()[k];
    let told = told_rule(data.config.name, route)(rule);
    let listeners = values(gateway.listeners);
    assert(listeners[l] == gateway.listeners[l].1);
    assert(route_rules(data.config.name)(route)[k] == told);
    assert(route_rules(data.config.name)(data.resolved_routes[r]).contains(told));
    joined_contains(data.resolved_routes, route_rules(data.config.name), told);
    assert(listener_rules()(listeners[l]).contains(told));
    joined_contains(listeners, listener_rules(), told);
}

/// Each route that is told of is that of a rule of a resolved HTTP route of a listener.
pub proof fn law_told_rule_is_there(gateway: GatewayView, told: RouteView)
    requires
        gateway.agent_routes().contains(told),
    ensures
        exists|l: int, r: int, k: int|
            0 <= l < gateway.listeners.len() && 0 <= r
                < gateway.listeners[l].1.made_of().resolved_routes.len() && 0 <= k
                < gateway.listeners[l].1.made_of().resolved_routes[r].http_rules().len()
                && told.listener_key == gateway.listeners[l].1.made_of().config.name && told.key
                == gateway.listeners[l].1.made_of().resolved_routes[r].config.resource_key.name
                && told.rule_name
                == (#[trigger] gateway.listeners[l].1.made_of().resolved_routes[r].http_rules()[k]).name,
{
    let listeners = values(gateway.listeners);
    joined_contains(listeners, listener_rules(), told);
    let l = choose|l: int|
        0 <= l < listeners.len() && #[trigger] listener_rules()(listeners[l]).contains(told);
    let key = listeners[l].made_of().config.name;
    let routes = listeners[l].made_of().resolved_routes;
    joined_contains(routes, route_rules(key), told);
    let r = choose|r: int|
        0 <= r < routes.len() && #[trigger] route_rules(key)(routes[r]).contains(told);
    let all = route_rules(key)(routes[r]);
    let k = choose|k: int| 0 <= k < all.len() && all[k] == told;
    assert(listeners[l] == gateway.listeners[l].1);
    assert(told.rule_name
        == gateway.listeners[l].1.made_of().resolved_routes[r].http_rules()[k].name);
}

/// Each resolved pool of a rule of a resolved route of a listener is among the services, by its
/// namespace and its endpoint: where another has the same, the last of them.
pub proof fn law_pool_is_among_services(
    gateway: GatewayView,
    l: int,
    r: int,
    k: int,
    b: int,
    config: InferencePoolTypeConfigView,
)
    requires
        0 <= l < gateway.listeners.len(),
        0 <= r < gateway.listeners[l].1.made_of().resolved_routes.len(),
        0 <= k < gateway.listeners[l].1.made_of().resolved_routes[r].http_rules().len(),
        0 <= b
            < gateway.listeners[l].1.made_of().resolved_routes[r].http_rules()[k].backends.len(),
        gateway.listeners[l].1.made_of().resolved_routes[r].http_rules()[k].backends[b]
            == common::backend::BackendView::Resolved(BackendTypeView::InferencePool(config)),
    ensures
        exists|told: ServiceView| #[trigger]
            gateway.agent_services().contains(told) && told.namespace + "/"@ + told.hostname
                == config.resource_key.namespace + "/"@ + config.endpoint,
{
    let listeners = values(gateway.listeners);
    let routes = listeners[l].made_of().resolved_routes;
    let rules = routes[r].http_rules();
    let backends = rules[k].backends;
    assert(listeners[l] == gateway.listeners[l].1);
    let pair = pool_service()(backends[b])->0;
    chosen_contains(backends, pool_service(), pair);
    assert(pool_service()(backends[b]) == Some(pair));
    assert(rule_services()(rules[k]).contains(pair));
    joined_contains(rules, rule_services(), pair);
    assert(route_services()(routes[r]).contains(pair));
    joined_contains(routes, route_services(), pair);
    assert(listener_services()(listeners[l]).contains(pair));
    joined_contains(listeners, listener_services(), pair);
    let pairs = joined(listeners, listener_services());
    let i = choose|i: int| 0 <= i < pairs.len() && pairs[i] == pair;
    assert(keys(pairs)[i] == pair.0);
    assert(keys(pairs).contains(pair.0));
    stored_has_key::<String, ServiceView>(pairs, pair.0);
    let told = choose|told: ServiceView| #[trigger]
        values(stored::<String, ServiceView>(pairs)).contains(told) && pairs.contains((pair.0, told));
    assert(gateway.agent_services().contains(told));
    let other = (pair.0, told);
    joined_contains(listeners, listener_services(), other);
    let l2 = choose|x: int|
        0 <= x < listeners.len() && #[trigger] listener_services()(listeners[x]).contains(other);
    let routes2 = listeners[l2].made_of().resolved_routes;
    joined_contains(routes2, route_services(), other);
    let r2 = choose|x: int|
        0 <= x < routes2.len() && #[trigger] route_services()(routes2[x]).contains(other);
    let rules2 = routes2[r2].http_rules();
    joined_contains(rules2, rule_services(), other);
    let k2 = choose|x: int|
        0 <= x < rules2.len() && #[trigger] rule_services()(rules2[x]).contains(other);
    chosen_contains(rules2[k2].backends, pool_service(), other);
    let b2 = choose|x: int|
        0 <= x < rules2[k2].backends.len() && #[trigger] pool_service()(rules2[k2].backends[x])
            == Some(other);
    law_pool_is_a_service(rules2[k2].backends[b2]);
}

/// There is a policy for each pool of a resolved route of a listener and each rule of the route, named
/// by both.
pub proof fn law_pool_has_policy(
    gateway: GatewayView,
    l: int,
    r: int,
    k: int,
    pool: (ResourceKeyView, InferencePoolTypeConfigView),
)
    requires
        0 <= l < gateway.listeners.len(),
        0 <= r < gateway.listeners[l].1.made_of().resolved_routes.len(),
        0 <= k < gateway.listeners[l].1.made_of().resolved_routes[r].http_rules().len(),
        pools_of_route(gateway.listeners[l].1.made_of().resolved_routes[r]).contains(pool),
    ensures
        exists|told: PolicyView| #[trigger]
            gateway.agent_policies().contains(told) && told.name == "Policy-"@
                + gateway.listeners[l].1.made_of().resolved_routes[r].http_rules()[k].name + "-"@ + (
            pool.0.namespace + "."@ + pool.0.name),
{
    let listeners = values(gateway.listeners);
    let routes = listeners[l].made_of().resolved_routes;
    let route = routes[r];
    let rules = route.http_rules();
    assert(listeners[l] == gateway.listeners[l].1);
    let pools = pools_of_route(route);
    let p = choose|p: int| 0 <= p < pools.len() && pools[p] == pool;
    let pair = named_policy(rules[k].name)(pool);
    assert(rule_policies(route)(rules[k])[p] == pair);
    assert(rule_policies(route)(rules[k]).contains(pair));
    joined_contains(rules, rule_policies(route), pair);
    assert(route_policies()(routes[r]).contains(pair));
    joined_contains(routes, route_policies(), pair);
    assert(listener_policies()(listeners[l]).contains(pair));
    joined_contains(listeners, listener_policies(), pair);
    let pairs = joined(listeners, listener_policies());
    let i = choose|i: int| 0 <= i < pairs.len() && pairs[i] == pair;
    assert(keys(pairs)[i] == pair.0);
    assert(keys(pairs).contains(pair.0));
    stored_has_key::<String, PolicyView>(pairs, pair.0);
    let told = choose|told: PolicyView| #[trigger]
        values(stored::<String, PolicyView>(pairs)).contains(told) && pairs.contains((pair.0, told));
    assert(gateway.agent_policies().contains(told));
    let other = (pair.0, told);
    joined_contains(listeners, listener_policies(), other);
    let l2 = choose|x: int|
        0 <= x < listeners.len() && #[trigger] listener_policies()(listeners[x]).contains(other);
    let routes2 = listeners[l2].made_of().resolved_routes;
    joined_contains(routes2, route_policies(), other);
    let r2 = choose|x: int|
        0 <= x < routes2.len() && #[trigger] route_policies()(routes2[x]).contains(other);
    let rules2 = routes2[r2].http_rules();
    joined_contains(rules2, rule_policies(routes2[r2]), other);
    let k2 = choose|x: int|
        0 <= x < rules2.len() && #[trigger] rule_policies(routes2[r2])(rules2[x]).contains(other);
    let all = rule_policies(routes2[r2])(rules2[k2]);
    let q = choose|q: int| 0 <= q < all.len() && all[q] == other;
    assert(told.name == pair.0);
}

/// The pools of a route are the backends of its rules that are pools, whether they are resolved or not.
pub proof fn law_pools_of_route(
    route: common::route::RouteView,
    config: InferencePoolTypeConfigView,
)
    ensures
        pools_of_route(route).contains((config.resource_key, config)) <==> exists|k: int, b: int|
            0 <= k < route.http_rules().len() && 0 <= b < route.http_rules()[k].backends.len() && (
            #[trigger] route.http_rules()[k].backends[b]).typed() == BackendTypeView::InferencePool(
                config,
            ),
{
    let rules = route.http_rules();
    let pair = (config.resource_key, config);
    joined_contains(rules, pools_of_rule(), pair);
    if pools_of_route(route).contains(pair) {
        let k = choose|k: int|
            0 <= k < rules.len() && #[trigger] pools_of_rule()(rules[k]).contains(pair);
        chosen_contains(rules[k].backends, pool_of(), pair);
        let b = choose|b: int|
            0 <= b < rules[k].backends.len() && #[trigger] pool_of()(rules[k].backends[b]) == Some(
                pair,
            );
        assert(route.http_rules()[k].backends[b].typed() == BackendTypeView::InferencePool(config));
    }
    if exists|k: int, b: int|
        0 <= k < route.http_rules().len() && 0 <= b < route.http_rules()[k].backends.len() && (
        #[trigger] route.http_rules()[k].backends[b]).typed() == BackendTypeView::InferencePool(
            config,
        ) {
        let (k, b) = choose|k: int, b: int|
            0 <= k < route.http_rules().len() && 0 <= b < route.http_rules()[k].backends.len() && (
            #[trigger] route.http_rules()[k].backends[b]).typed() == BackendTypeView::InferencePool(
                config,
            );
        assert(pool_of()(rules[k].backends[b]) == Some(pair));
        chosen_contains(rules[k].backends, pool_of(), pair);
        assert(pools_of_rule()(rules[k]).contains(pair));
    }
}

/// A text needs no escape where it holds no quotation mark, no backslash and no control character.
pub proof fn law_needs_no_escape(text: Seq<char>)
    ensures
        text.contains('"') ==> !needs_no_escape(text),
        text.contains('\\') ==> !needs_no_escape(text),
        text.contains('\n') ==> !needs_no_escape(text),
        text.contains('\t') ==> !needs_no_escape(text),
        (forall|i: int|
            0 <= i < text.len() ==> ' ' <= #[trigger] text[i] <= '~' && text[i] != '"' && text[i]
                != '\\') ==> needs_no_escape(text),
{
}

} // verus!
