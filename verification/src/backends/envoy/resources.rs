//! The resources that Envoy is told of.
use vstd::prelude::*;
use crate::backends::envoy::model::TypeUrl;
use crate::common::address::{SocketAddress, SocketAddressView};
use crate::model::Model;

verus! {

/// A span of time.
#[derive(Debug, PartialEq, Eq)]
pub struct Duration {
    pub seconds: i64,
    pub nanos: i32,
}

/// What a [`Duration`] holds.
#[verifier::ext_equal]
pub struct DurationView {
    pub seconds: i64,
    pub nanos: i32,
}

impl DeepView for Duration {
    type V = DurationView;

    open spec fn deep_view(&self) -> DurationView {
        DurationView {
            seconds: self.seconds.deep_view(),
            nanos: self.nanos.deep_view(),
        }
    }
}

impl Model for Duration {
    fn dup(&self) -> (r: Self) {
        Duration {
            seconds: self.seconds.dup(),
            nanos: self.nanos.dup(),
        }
    }

    fn same(&self, other: &Self) -> (r: bool) {
        self.seconds.same(&other.seconds)
            && self.nanos.same(&other.nanos)
    }
}

/// A header that a request must have, with exactly this value.
#[derive(Debug, PartialEq, Eq)]
pub struct HeaderMatcher {
    pub name: String,
    pub exact: String,
}

/// What a [`HeaderMatcher`] holds.
#[verifier::ext_equal]
pub struct HeaderMatcherView {
    pub name: Seq<char>,
    pub exact: Seq<char>,
}

impl DeepView for HeaderMatcher {
    type V = HeaderMatcherView;

    open spec fn deep_view(&self) -> HeaderMatcherView {
        HeaderMatcherView {
            name: self.name.deep_view(),
            exact: self.exact.deep_view(),
        }
    }
}

impl Model for HeaderMatcher {
    fn dup(&self) -> (r: Self) {
        HeaderMatcher {
            name: self.name.dup(),
            exact: self.exact.dup(),
        }
    }

    fn same(&self, other: &Self) -> (r: bool) {
        self.name.same(&other.name)
            && self.exact.same(&other.exact)
    }
}

/// What is done with a header that is there already.
#[derive(Clone, Copy, Debug, PartialEq, Eq, Structural)]
pub enum HeaderAppendAction {
    AppendIfExistsOrAdd,
    OverwriteIfExistsOrAdd,
}

impl DeepView for HeaderAppendAction {
    type V = HeaderAppendAction;

    open spec fn deep_view(&self) -> HeaderAppendAction {
        *self
    }
}

impl Model for HeaderAppendAction {
    fn dup(&self) -> (r: Self) {
        *self
    }

    fn same(&self, other: &Self) -> (r: bool) {
        *self == *other
    }
}

/// A header that a request is given.
#[derive(Debug, PartialEq, Eq)]
pub struct HeaderValueOption {
    pub key: String,
    pub value: String,
    pub append_action: HeaderAppendAction,
}

/// What a [`HeaderValueOption`] holds.
#[verifier::ext_equal]
pub struct HeaderValueOptionView {
    pub key: Seq<char>,
    pub value: Seq<char>,
    pub append_action: HeaderAppendAction,
}

impl DeepView for HeaderValueOption {
    type V = HeaderValueOptionView;

    open spec fn deep_view(&self) -> HeaderValueOptionView {
        HeaderValueOptionView {
            key: self.key.deep_view(),
            value: self.value.deep_view(),
            append_action: self.append_action.deep_view(),
        }
    }
}

impl Model for HeaderValueOption {
    fn dup(&self) -> (r: Self) {
        HeaderValueOption {
            key: self.key.dup(),
            value: self.value.dup(),
            append_action: self.append_action.dup(),
        }
    }

    fn same(&self, other: &Self) -> (r: bool) {
        self.key.same(&other.key)
            && self.value.same(&other.value)
            && self.append_action.same(&other.append_action)
    }
}

/// The path that a request must have.
#[derive(Debug, PartialEq, Eq)]
pub enum PathSpecifier {
    Path(String),
    Prefix(String),
    PathSeparatedPrefix(String),
    SafeRegex(String),
}

/// What a [`PathSpecifier`] holds.
#[verifier::ext_equal]
pub enum PathSpecifierView {
    Path(Seq<char>),
    Prefix(Seq<char>),
    PathSeparatedPrefix(Seq<char>),
    SafeRegex(Seq<char>),
}

impl DeepView for PathSpecifier {
    type V = PathSpecifierView;

    open spec fn deep_view(&self) -> PathSpecifierView {
        match self {
            PathSpecifier::Path(x0) => PathSpecifierView::Path(x0.deep_view()),
            PathSpecifier::Prefix(x0) => PathSpecifierView::Prefix(x0.deep_view()),
            PathSpecifier::PathSeparatedPrefix(x0) => PathSpecifierView::PathSeparatedPrefix(x0.deep_view()),
            PathSpecifier::SafeRegex(x0) => PathSpecifierView::SafeRegex(x0.deep_view()),
        }
    }
}

impl Model for PathSpecifier {
    fn dup(&self) -> (r: Self) {
        match self {
            PathSpecifier::Path(x0) => PathSpecifier::Path(x0.dup()),
            PathSpecifier::Prefix(x0) => PathSpecifier::Prefix(x0.dup()),
            PathSpecifier::PathSeparatedPrefix(x0) => PathSpecifier::PathSeparatedPrefix(x0.dup()),
            PathSpecifier::SafeRegex(x0) => PathSpecifier::SafeRegex(x0.dup()),
        }
    }

    fn same(&self, other: &Self) -> (r: bool) {
        match (self, other) {
            (PathSpecifier::Path(x0), PathSpecifier::Path(x0_)) => x0.same(x0_),
            (PathSpecifier::Prefix(x0), PathSpecifier::Prefix(x0_)) => x0.same(x0_),
            (PathSpecifier::PathSeparatedPrefix(x0), PathSpecifier::PathSeparatedPrefix(x0_)) => x0.same(x0_),
            (PathSpecifier::SafeRegex(x0), PathSpecifier::SafeRegex(x0_)) => x0.same(x0_),
            _ => false,
        }
    }
}

/// A cluster with its share of the requests.
#[derive(Debug, PartialEq, Eq)]
pub struct ClusterWeight {
    pub name: String,
    pub weight: u32,
}

/// What a [`ClusterWeight`] holds.
#[verifier::ext_equal]
pub struct ClusterWeightView {
    pub name: Seq<char>,
    pub weight: u32,
}

impl DeepView for ClusterWeight {
    type V = ClusterWeightView;

    open spec fn deep_view(&self) -> ClusterWeightView {
        ClusterWeightView {
            name: self.name.deep_view(),
            weight: self.weight.deep_view(),
        }
    }
}

impl Model for ClusterWeight {
    fn dup(&self) -> (r: Self) {
        ClusterWeight {
            name: self.name.dup(),
            weight: self.weight.dup(),
        }
    }

    fn same(&self, other: &Self) -> (r: bool) {
        self.name.same(&other.name)
            && self.weight.same(&other.weight)
    }
}

/// What a request is answered where its cluster is not known.
#[derive(Clone, Copy, Debug, PartialEq, Eq, Structural)]
pub enum ClusterNotFoundResponseCode {
    NotFound,
    InternalServerError,
}

impl DeepView for ClusterNotFoundResponseCode {
    type V = ClusterNotFoundResponseCode;

    open spec fn deep_view(&self) -> ClusterNotFoundResponseCode {
        *self
    }
}

impl Model for ClusterNotFoundResponseCode {
    fn dup(&self) -> (r: Self) {
        *self
    }

    fn same(&self, other: &Self) -> (r: bool) {
        *self == *other
    }
}

/// How requests are shared out among clusters.
#[derive(Debug, PartialEq, Eq)]
pub struct RouteAction {
    pub cluster_not_found_response_code: ClusterNotFoundResponseCode,
    pub clusters: Vec<ClusterWeight>,
}

/// What a [`RouteAction`] holds.
#[verifier::ext_equal]
pub struct RouteActionView {
    pub cluster_not_found_response_code: ClusterNotFoundResponseCode,
    pub clusters: Seq<ClusterWeightView>,
}

impl DeepView for RouteAction {
    type V = RouteActionView;

    open spec fn deep_view(&self) -> RouteActionView {
        RouteActionView {
            cluster_not_found_response_code: self.cluster_not_found_response_code.deep_view(),
            clusters: self.clusters.deep_view(),
        }
    }
}

impl Model for RouteAction {
    fn dup(&self) -> (r: Self) {
        RouteAction {
            cluster_not_found_response_code: self.cluster_not_found_response_code.dup(),
            clusters: self.clusters.dup(),
        }
    }

    fn same(&self, other: &Self) -> (r: bool) {
        self.cluster_not_found_response_code.same(&other.cluster_not_found_response_code)
            && self.clusters.same(&other.clusters)
    }
}

/// The status of a redirection.
#[derive(Clone, Copy, Debug, PartialEq, Eq, Structural)]
pub enum RedirectResponseCode {
    MovedPermanently,
    Found,
    SeeOther,
    TemporaryRedirect,
    PermanentRedirect,
}

impl DeepView for RedirectResponseCode {
    type V = RedirectResponseCode;

    open spec fn deep_view(&self) -> RedirectResponseCode {
        *self
    }
}

impl Model for RedirectResponseCode {
    fn dup(&self) -> (r: Self) {
        *self
    }

    fn same(&self, other: &Self) -> (r: bool) {
        *self == *other
    }
}

/// How a request is redirected.
#[derive(Debug, PartialEq, Eq)]
pub struct RedirectAction {
    pub host_redirect: String,
    pub response_code: RedirectResponseCode,
}

/// What a [`RedirectAction`] holds.
#[verifier::ext_equal]
pub struct RedirectActionView {
    pub host_redirect: Seq<char>,
    pub response_code: RedirectResponseCode,
}

impl DeepView for RedirectAction {
    type V = RedirectActionView;

    open spec fn deep_view(&self) -> RedirectActionView {
        RedirectActionView {
            host_redirect: self.host_redirect.deep_view(),
            response_code: self.response_code.deep_view(),
        }
    }
}

impl Model for RedirectAction {
    fn dup(&self) -> (r: Self) {
        RedirectAction {
            host_redirect: self.host_redirect.dup(),
            response_code: self.response_code.dup(),
        }
    }

    fn same(&self, other: &Self) -> (r: bool) {
        self.host_redirect.same(&other.host_redirect)
            && self.response_code.same(&other.response_code)
    }
}

/// What is done with a request.
#[derive(Debug, PartialEq, Eq)]
pub enum Action {
    Route(RouteAction),
    Redirect(RedirectAction),
}

/// What a [`Action`] holds.
#[verifier::ext_equal]
pub enum ActionView {
    Route(RouteActionView),
    Redirect(RedirectActionView),
}

impl DeepView for Action {
    type V = ActionView;

    open spec fn deep_view(&self) -> ActionView {
        match self {
            Action::Route(x0) => ActionView::Route(x0.deep_view()),
            Action::Redirect(x0) => ActionView::Redirect(x0.deep_view()),
        }
    }
}

impl Model for Action {
    fn dup(&self) -> (r: Self) {
        match self {
            Action::Route(x0) => Action::Route(x0.dup()),
            Action::Redirect(x0) => Action::Redirect(x0.dup()),
        }
    }

    fn same(&self, other: &Self) -> (r: bool) {
        match (self, other) {
            (Action::Route(x0), Action::Route(x0_)) => x0.same(x0_),
            (Action::Redirect(x0), Action::Redirect(x0_)) => x0.same(x0_),
            _ => false,
        }
    }
}

/// Whether the headers of a request are sent to an extension.
#[derive(Clone, Copy, Debug, PartialEq, Eq, Structural)]
pub enum HeaderSendMode {
    Send,
    Skip,
}

impl DeepView for HeaderSendMode {
    type V = HeaderSendMode;

    open spec fn deep_view(&self) -> HeaderSendMode {
        *self
    }
}

impl Model for HeaderSendMode {
    fn dup(&self) -> (r: Self) {
        *self
    }

    fn same(&self, other: &Self) -> (r: bool) {
        *self == *other
    }
}

/// How the body of a request is sent to an extension.
#[derive(Clone, Copy, Debug, PartialEq, Eq, Structural)]
pub enum BodySendMode {
    Buffered,
    FullDuplexStreamed,
}

impl DeepView for BodySendMode {
    type V = BodySendMode;

    open spec fn deep_view(&self) -> BodySendMode {
        *self
    }
}

impl Model for BodySendMode {
    fn dup(&self) -> (r: Self) {
        *self
    }

    fn same(&self, other: &Self) -> (r: bool) {
        *self == *other
    }
}

/// The extension that processes the requests of a route.
#[derive(Debug, PartialEq, Eq)]
pub struct ExtProcPerRoute {
    pub request_header_mode: HeaderSendMode,
    pub request_body_mode: BodySendMode,
    pub cluster_name: String,
    pub failure_mode_allow: bool,
}

/// What a [`ExtProcPerRoute`] holds.
#[verifier::ext_equal]
pub struct ExtProcPerRouteView {
    pub request_header_mode: HeaderSendMode,
    pub request_body_mode: BodySendMode,
    pub cluster_name: Seq<char>,
    pub failure_mode_allow: bool,
}

impl DeepView for ExtProcPerRoute {
    type V = ExtProcPerRouteView;

    open spec fn deep_view(&self) -> ExtProcPerRouteView {
        ExtProcPerRouteView {
            request_header_mode: self.request_header_mode.deep_view(),
            request_body_mode: self.request_body_mode.deep_view(),
            cluster_name: self.cluster_name.deep_view(),
            failure_mode_allow: self.failure_mode_allow.deep_view(),
        }
    }
}

impl Model for ExtProcPerRoute {
    fn dup(&self) -> (r: Self) {
        ExtProcPerRoute {
            request_header_mode: self.request_header_mode.dup(),
            request_body_mode: self.request_body_mode.dup(),
            cluster_name: self.cluster_name.dup(),
            failure_mode_allow: self.failure_mode_allow.dup(),
        }
    }

    fn same(&self, other: &Self) -> (r: bool) {
        self.request_header_mode.same(&other.request_header_mode)
            && self.request_body_mode.same(&other.request_body_mode)
            && self.cluster_name.same(&other.cluster_name)
            && self.failure_mode_allow.same(&other.failure_mode_allow)
    }
}

/// A route: which requests it takes and what is done with them.
#[derive(Debug, PartialEq, Eq)]
pub struct EnvoyRoute {
    pub name: String,
    pub path_specifier: PathSpecifier,
    pub headers: Vec<HeaderMatcher>,
    pub request_headers_to_add: Vec<HeaderValueOption>,
    pub request_headers_to_remove: Vec<String>,
    pub action: Action,
    pub typed_per_filter_config: Vec<(String, ExtProcPerRoute)>,
}

/// What a [`EnvoyRoute`] holds.
#[verifier::ext_equal]
pub struct EnvoyRouteView {
    pub name: Seq<char>,
    pub path_specifier: PathSpecifierView,
    pub headers: Seq<HeaderMatcherView>,
    pub request_headers_to_add: Seq<HeaderValueOptionView>,
    pub request_headers_to_remove: Seq<Seq<char>>,
    pub action: ActionView,
    pub typed_per_filter_config: Seq<(Seq<char>, ExtProcPerRouteView)>,
}

impl DeepView for EnvoyRoute {
    type V = EnvoyRouteView;

    open spec fn deep_view(&self) -> EnvoyRouteView {
        EnvoyRouteView {
            name: self.name.deep_view(),
            path_specifier: self.path_specifier.deep_view(),
            headers: self.headers.deep_view(),
            request_headers_to_add: self.request_headers_to_add.deep_view(),
            request_headers_to_remove: self.request_headers_to_remove.deep_view(),
            action: self.action.deep_view(),
            typed_per_filter_config: self.typed_per_filter_config.deep_view(),
        }
    }
}

impl Model for EnvoyRoute {
    fn dup(&self) -> (r: Self) {
        EnvoyRoute {
            name: self.name.dup(),
            path_specifier: self.path_specifier.dup(),
            headers: self.headers.dup(),
            request_headers_to_add: self.request_headers_to_add.dup(),
            request_headers_to_remove: self.request_headers_to_remove.dup(),
            action: self.action.dup(),
            typed_per_filter_config: self.typed_per_filter_config.dup(),
        }
    }

    fn same(&self, other: &Self) -> (r: bool) {
        self.name.same(&other.name)
            && self.path_specifier.same(&other.path_specifier)
            && self.headers.same(&other.headers)
            && self.request_headers_to_add.same(&other.request_headers_to_add)
            && self.request_headers_to_remove.same(&other.request_headers_to_remove)
            && self.action.same(&other.action)
            && self.typed_per_filter_config.same(&other.typed_per_filter_config)
    }
}

/// How the endpoints of a cluster are found.
#[derive(Clone, Copy, Debug, PartialEq, Eq, Structural)]
pub enum DiscoveryType {
    StrictDns,
    LogicalDns,
}

impl DeepView for DiscoveryType {
    type V = DiscoveryType;

    open spec fn deep_view(&self) -> DiscoveryType {
        *self
    }
}

impl Model for DiscoveryType {
    fn dup(&self) -> (r: Self) {
        *self
    }

    fn same(&self, other: &Self) -> (r: bool) {
        *self == *other
    }
}

/// How requests are shared out among the endpoints of a cluster.
#[derive(Clone, Copy, Debug, PartialEq, Eq, Structural)]
pub enum LbPolicy {
    RoundRobin,
    Random,
}

impl DeepView for LbPolicy {
    type V = LbPolicy;

    open spec fn deep_view(&self) -> LbPolicy {
        *self
    }
}

impl Model for LbPolicy {
    fn dup(&self) -> (r: Self) {
        *self
    }

    fn same(&self, other: &Self) -> (r: bool) {
        *self == *other
    }
}

/// An endpoint of a cluster, with its share of the requests.
#[derive(Debug, PartialEq, Eq)]
pub struct LbEndpoint {
    pub address: SocketAddress,
    pub load_balancing_weight: u32,
}

/// What a [`LbEndpoint`] holds.
#[verifier::ext_equal]
pub struct LbEndpointView {
    pub address: SocketAddressView,
    pub load_balancing_weight: u32,
}

impl DeepView for LbEndpoint {
    type V = LbEndpointView;

    open spec fn deep_view(&self) -> LbEndpointView {
        LbEndpointView {
            address: self.address.deep_view(),
            load_balancing_weight: self.load_balancing_weight.deep_view(),
        }
    }
}

impl Model for LbEndpoint {
    fn dup(&self) -> (r: Self) {
        LbEndpoint {
            address: self.address.dup(),
            load_balancing_weight: self.load_balancing_weight.dup(),
        }
    }

    fn same(&self, other: &Self) -> (r: bool) {
        self.address.same(&other.address)
            && self.load_balancing_weight.same(&other.load_balancing_weight)
    }
}

/// How HTTP/2 is spoken to a cluster.
#[derive(Debug, PartialEq, Eq)]
pub struct HttpProtocolOptions {
    pub idle_timeout: Option<Duration>,
    pub auto_sni: Option<bool>,
    pub max_concurrent_streams: u32,
}

/// What a [`HttpProtocolOptions`] holds.
#[verifier::ext_equal]
pub struct HttpProtocolOptionsView {
    pub idle_timeout: Option<DurationView>,
    pub auto_sni: Option<bool>,
    pub max_concurrent_streams: u32,
}

impl DeepView for HttpProtocolOptions {
    type V = HttpProtocolOptionsView;

    open spec fn deep_view(&self) -> HttpProtocolOptionsView {
        HttpProtocolOptionsView {
            idle_timeout: self.idle_timeout.deep_view(),
            auto_sni: self.auto_sni.deep_view(),
            max_concurrent_streams: self.max_concurrent_streams.deep_view(),
        }
    }
}

impl Model for HttpProtocolOptions {
    fn dup(&self) -> (r: Self) {
        HttpProtocolOptions {
            idle_timeout: self.idle_timeout.dup(),
            auto_sni: self.auto_sni.dup(),
            max_concurrent_streams: self.max_concurrent_streams.dup(),
        }
    }

    fn same(&self, other: &Self) -> (r: bool) {
        self.idle_timeout.same(&other.idle_timeout)
            && self.auto_sni.same(&other.auto_sni)
            && self.max_concurrent_streams.same(&other.max_concurrent_streams)
    }
}

/// A version of TLS.
#[derive(Clone, Copy, Debug, PartialEq, Eq, Structural)]
pub enum TlsProtocol {
    TlsV12,
    TlsV13,
}

impl DeepView for TlsProtocol {
    type V = TlsProtocol;

    open spec fn deep_view(&self) -> TlsProtocol {
        *self
    }
}

impl Model for TlsProtocol {
    fn dup(&self) -> (r: Self) {
        *self
    }

    fn same(&self, other: &Self) -> (r: bool) {
        *self == *other
    }
}

/// How TLS is spoken to a cluster.
#[derive(Debug, PartialEq, Eq)]
pub struct UpstreamTlsContext {
    pub name: String,
    pub minimum_version: TlsProtocol,
    pub maximum_version: TlsProtocol,
    pub alpn_protocols: Vec<String>,
}

/// What a [`UpstreamTlsContext`] holds.
#[verifier::ext_equal]
pub struct UpstreamTlsContextView {
    pub name: Seq<char>,
    pub minimum_version: TlsProtocol,
    pub maximum_version: TlsProtocol,
    pub alpn_protocols: Seq<Seq<char>>,
}

impl DeepView for UpstreamTlsContext {
    type V = UpstreamTlsContextView;

    open spec fn deep_view(&self) -> UpstreamTlsContextView {
        UpstreamTlsContextView {
            name: self.name.deep_view(),
            minimum_version: self.minimum_version.deep_view(),
            maximum_version: self.maximum_version.deep_view(),
            alpn_protocols: self.alpn_protocols.deep_view(),
        }
    }
}

impl Model for UpstreamTlsContext {
    fn dup(&self) -> (r: Self) {
        UpstreamTlsContext {
            name: self.name.dup(),
            minimum_version: self.minimum_version.dup(),
            maximum_version: self.maximum_version.dup(),
            alpn_protocols: self.alpn_protocols.dup(),
        }
    }

    fn same(&self, other: &Self) -> (r: bool) {
        self.name.same(&other.name)
            && self.minimum_version.same(&other.minimum_version)
            && self.maximum_version.same(&other.maximum_version)
            && self.alpn_protocols.same(&other.alpn_protocols)
    }
}

/// An extension that shares out requests by headers, with the policies to fall back to.
#[derive(Debug, PartialEq, Eq)]
pub struct OverrideHostPolicy {
    pub name: String,
    pub headers: Vec<String>,
    pub fallback_policies: Vec<String>,
}

/// What a [`OverrideHostPolicy`] holds.
#[verifier::ext_equal]
pub struct OverrideHostPolicyView {
    pub name: Seq<char>,
    pub headers: Seq<Seq<char>>,
    pub fallback_policies: Seq<Seq<char>>,
}

impl DeepView for OverrideHostPolicy {
    type V = OverrideHostPolicyView;

    open spec fn deep_view(&self) -> OverrideHostPolicyView {
        OverrideHostPolicyView {
            name: self.name.deep_view(),
            headers: self.headers.deep_view(),
            fallback_policies: self.fallback_policies.deep_view(),
        }
    }
}

impl Model for OverrideHostPolicy {
    fn dup(&self) -> (r: Self) {
        OverrideHostPolicy {
            name: self.name.dup(),
            headers: self.headers.dup(),
            fallback_policies: self.fallback_policies.dup(),
        }
    }

    fn same(&self, other: &Self) -> (r: bool) {
        self.name.same(&other.name)
            && self.headers.same(&other.headers)
            && self.fallback_policies.same(&other.fallback_policies)
    }
}

/// A cluster: a set of endpoints under one name.
#[derive(Debug, PartialEq, Eq)]
pub struct EnvoyCluster {
    pub name: String,
    pub cluster_discovery_type: Option<DiscoveryType>,
    pub lb_policy: LbPolicy,
    pub connect_timeout: Duration,
    pub assigned_to: String,
    pub lb_endpoints: Vec<LbEndpoint>,
    pub transport_socket: Option<UpstreamTlsContext>,
    pub typed_extension_protocol_options: Vec<(String, HttpProtocolOptions)>,
    pub load_balancing_policy: Option<OverrideHostPolicy>,
}

/// What a [`EnvoyCluster`] holds.
#[verifier::ext_equal]
pub struct EnvoyClusterView {
    pub name: Seq<char>,
    pub cluster_discovery_type: Option<DiscoveryType>,
    pub lb_policy: LbPolicy,
    pub connect_timeout: DurationView,
    pub assigned_to: Seq<char>,
    pub lb_endpoints: Seq<LbEndpointView>,
    pub transport_socket: Option<UpstreamTlsContextView>,
    pub typed_extension_protocol_options: Seq<(Seq<char>, HttpProtocolOptionsView)>,
    pub load_balancing_policy: Option<OverrideHostPolicyView>,
}

impl DeepView for EnvoyCluster {
    type V = EnvoyClusterView;

    open spec fn deep_view(&self) -> EnvoyClusterView {
        EnvoyClusterView {
            name: self.name.deep_view(),
            cluster_discovery_type: self.cluster_discovery_type.deep_view(),
            lb_policy: self.lb_policy.deep_view(),
            connect_timeout: self.connect_timeout.deep_view(),
            assigned_to: self.assigned_to.deep_view(),
            lb_endpoints: self.lb_endpoints.deep_view(),
            transport_socket: self.transport_socket.deep_view(),
            typed_extension_protocol_options: self.typed_extension_protocol_options.deep_view(),
            load_balancing_policy: self.load_balancing_policy.deep_view(),
        }
    }
}

impl Model for EnvoyCluster {
    fn dup(&self) -> (r: Self) {
        EnvoyCluster {
            name: self.name.dup(),
            cluster_discovery_type: self.cluster_discovery_type.dup(),
            lb_policy: self.lb_policy.dup(),
            connect_timeout: self.connect_timeout.dup(),
            assigned_to: self.assigned_to.dup(),
            lb_endpoints: self.lb_endpoints.dup(),
            transport_socket: self.transport_socket.dup(),
            typed_extension_protocol_options: self.typed_extension_protocol_options.dup(),
            load_balancing_policy: self.load_balancing_policy.dup(),
        }
    }

    fn same(&self, other: &Self) -> (r: bool) {
        self.name.same(&other.name)
            && self.cluster_discovery_type.same(&other.cluster_discovery_type)
            && self.lb_policy.same(&other.lb_policy)
            && self.connect_timeout.same(&other.connect_timeout)
            && self.assigned_to.same(&other.assigned_to)
            && self.lb_endpoints.same(&other.lb_endpoints)
            && self.transport_socket.same(&other.transport_socket)
            && self.typed_extension_protocol_options.same(&other.typed_extension_protocol_options)
            && self.load_balancing_policy.same(&other.load_balancing_policy)
    }
}

/// The routes for some domains.
#[derive(Debug, PartialEq, Eq)]
pub struct VirtualHost {
    pub name: String,
    pub domains: Vec<String>,
    pub routes: Vec<EnvoyRoute>,
}

/// What a [`VirtualHost`] holds.
#[verifier::ext_equal]
pub struct VirtualHostView {
    pub name: Seq<char>,
    pub domains: Seq<Seq<char>>,
    pub routes: Seq<EnvoyRouteView>,
}

impl DeepView for VirtualHost {
    type V = VirtualHostView;

    open spec fn deep_view(&self) -> VirtualHostView {
        VirtualHostView {
            name: self.name.deep_view(),
            domains: self.domains.deep_view(),
            routes: self.routes.deep_view(),
        }
    }
}

impl Model for VirtualHost {
    fn dup(&self) -> (r: Self) {
        VirtualHost {
            name: self.name.dup(),
            domains: self.domains.dup(),
            routes: self.routes.dup(),
        }
    }

    fn same(&self, other: &Self) -> (r: bool) {
        self.name.same(&other.name)
            && self.domains.same(&other.domains)
            && self.routes.same(&other.routes)
    }
}

/// How a listener handles HTTP.
#[derive(Debug, PartialEq, Eq)]
pub struct HttpConnectionManager {
    pub stat_prefix: String,
    pub http_filters: Vec<String>,
    pub route_config_name: String,
    pub virtual_hosts: Vec<VirtualHost>,
    pub validate_clusters: bool,
}

/// What a [`HttpConnectionManager`] holds.
#[verifier::ext_equal]
pub struct HttpConnectionManagerView {
    pub stat_prefix: Seq<char>,
    pub http_filters: Seq<Seq<char>>,
    pub route_config_name: Seq<char>,
    pub virtual_hosts: Seq<VirtualHostView>,
    pub validate_clusters: bool,
}

impl DeepView for HttpConnectionManager {
    type V = HttpConnectionManagerView;

    open spec fn deep_view(&self) -> HttpConnectionManagerView {
        HttpConnectionManagerView {
            stat_prefix: self.stat_prefix.deep_view(),
            http_filters: self.http_filters.deep_view(),
            route_config_name: self.route_config_name.deep_view(),
            virtual_hosts: self.virtual_hosts.deep_view(),
            validate_clusters: self.validate_clusters.deep_view(),
        }
    }
}

impl Model for HttpConnectionManager {
    fn dup(&self) -> (r: Self) {
        HttpConnectionManager {
            stat_prefix: self.stat_prefix.dup(),
            http_filters: self.http_filters.dup(),
            route_config_name: self.route_config_name.dup(),
            virtual_hosts: self.virtual_hosts.dup(),
            validate_clusters: self.validate_clusters.dup(),
        }
    }

    fn same(&self, other: &Self) -> (r: bool) {
        self.stat_prefix.same(&other.stat_prefix)
            && self.http_filters.same(&other.http_filters)
            && self.route_config_name.same(&other.route_config_name)
            && self.virtual_hosts.same(&other.virtual_hosts)
            && self.validate_clusters.same(&other.validate_clusters)
    }
}

/// How a listener speaks TLS.
#[derive(Debug, PartialEq, Eq)]
pub struct DownstreamTlsContext {
    pub name: String,
    pub require_client_certificate: bool,
    pub full_scan_certs_on_sni_mismatch: bool,
    pub secrets: Vec<String>,
}

/// What a [`DownstreamTlsContext`] holds.
#[verifier::ext_equal]
pub struct DownstreamTlsContextView {
    pub name: Seq<char>,
    pub require_client_certificate: bool,
    pub full_scan_certs_on_sni_mismatch: bool,
    pub secrets: Seq<Seq<char>>,
}

impl DeepView for DownstreamTlsContext {
    type V = DownstreamTlsContextView;

    open spec fn deep_view(&self) -> DownstreamTlsContextView {
        DownstreamTlsContextView {
            name: self.name.deep_view(),
            require_client_certificate: self.require_client_certificate.deep_view(),
            full_scan_certs_on_sni_mismatch: self.full_scan_certs_on_sni_mismatch.deep_view(),
            secrets: self.secrets.deep_view(),
        }
    }
}

impl Model for DownstreamTlsContext {
    fn dup(&self) -> (r: Self) {
        DownstreamTlsContext {
            name: self.name.dup(),
            require_client_certificate: self.require_client_certificate.dup(),
            full_scan_certs_on_sni_mismatch: self.full_scan_certs_on_sni_mismatch.dup(),
            secrets: self.secrets.dup(),
        }
    }

    fn same(&self, other: &Self) -> (r: bool) {
        self.name.same(&other.name)
            && self.require_client_certificate.same(&other.require_client_certificate)
            && self.full_scan_certs_on_sni_mismatch.same(&other.full_scan_certs_on_sni_mismatch)
            && self.secrets.same(&other.secrets)
    }
}

/// A listener, as Envoy is told of it.
#[derive(Debug, PartialEq, Eq)]
pub struct ListenerResource {
    pub name: String,
    pub address: SocketAddress,
    pub listener_filters: Vec<String>,
    pub filter_name: String,
    pub connection_manager: HttpConnectionManager,
    pub transport_socket: Option<DownstreamTlsContext>,
}

/// What a [`ListenerResource`] holds.
#[verifier::ext_equal]
pub struct ListenerResourceView {
    pub name: Seq<char>,
    pub address: SocketAddressView,
    pub listener_filters: Seq<Seq<char>>,
    pub filter_name: Seq<char>,
    pub connection_manager: HttpConnectionManagerView,
    pub transport_socket: Option<DownstreamTlsContextView>,
}

impl DeepView for ListenerResource {
    type V = ListenerResourceView;

    open spec fn deep_view(&self) -> ListenerResourceView {
        ListenerResourceView {
            name: self.name.deep_view(),
            address: self.address.deep_view(),
            listener_filters: self.listener_filters.deep_view(),
            filter_name: self.filter_name.deep_view(),
            connection_manager: self.connection_manager.deep_view(),
            transport_socket: self.transport_socket.deep_view(),
        }
    }
}

impl Model for ListenerResource {
    fn dup(&self) -> (r: Self) {
        ListenerResource {
            name: self.name.dup(),
            address: self.address.dup(),
            listener_filters: self.listener_filters.dup(),
            filter_name: self.filter_name.dup(),
            connection_manager: self.connection_manager.dup(),
            transport_socket: self.transport_socket.dup(),
        }
    }

    fn same(&self, other: &Self) -> (r: bool) {
        self.name.same(&other.name)
            && self.address.same(&other.address)
            && self.listener_filters.same(&other.listener_filters)
            && self.filter_name.same(&other.filter_name)
            && self.connection_manager.same(&other.connection_manager)
            && self.transport_socket.same(&other.transport_socket)
    }
}

/// An encoded message with the URL of its type.
#[derive(Debug, PartialEq, Eq)]
pub struct AnyResource {
    pub type_url: String,
    pub value: Vec<u8>,
}

/// What a [`AnyResource`] holds.
#[verifier::ext_equal]
pub struct AnyResourceView {
    pub type_url: Seq<char>,
    pub value: Seq<u8>,
}

impl DeepView for AnyResource {
    type V = AnyResourceView;

    open spec fn deep_view(&self) -> AnyResourceView {
        AnyResourceView {
            type_url: self.type_url.deep_view(),
            value: self.value.deep_view(),
        }
    }
}

impl Model for AnyResource {
    fn dup(&self) -> (r: Self) {
        AnyResource {
            type_url: self.type_url.dup(),
            value: self.value.dup(),
        }
    }

    fn same(&self, other: &Self) -> (r: bool) {
        self.type_url.same(&other.type_url)
            && self.value.same(&other.value)
    }
}

/// A resource as it is sent.
#[derive(Debug, PartialEq, Eq)]
pub struct Resource {
    pub name: String,
    pub resource: AnyResource,
}

/// What a [`Resource`] holds.
#[verifier::ext_equal]
pub struct ResourceView {
    pub name: Seq<char>,
    pub resource: AnyResourceView,
}

impl DeepView for Resource {
    type V = ResourceView;

    open spec fn deep_view(&self) -> ResourceView {
        ResourceView {
            name: self.name.deep_view(),
            resource: self.resource.deep_view(),
        }
    }
}

impl Model for Resource {
    fn dup(&self) -> (r: Self) {
        Resource {
            name: self.name.dup(),
            resource: self.resource.dup(),
        }
    }

    fn same(&self, other: &Self) -> (r: bool) {
        self.name.same(&other.name)
            && self.resource.same(&other.resource)
    }
}

impl ResourceView {
    /// A message of a type under a name.
    pub open spec fn encoded(name: Seq<char>, kind: TypeUrl, value: Seq<u8>) -> ResourceView {
        ResourceView { name, resource: AnyResourceView { type_url: kind.url(), value } }
    }
}

/// The resource of a cluster, which `value` encodes.
pub fn create_cluster_resource(cluster: &EnvoyCluster, value: Vec<u8>) -> (r: Resource)
    ensures
        r.deep_view() == ResourceView::encoded(
            cluster.name@,
            TypeUrl::Cluster,
            value.deep_view(),
        ),
{
    Resource {
        name: cluster.name.dup(),
        resource: AnyResource { type_url: TypeUrl::Cluster.to_text().to_owned(), value },
    }
}

/// The resource of a listener, which `value` encodes.
pub fn create_listener_resource(listener: &ListenerResource, value: Vec<u8>) -> (r: Resource)
    ensures
        r.deep_view() == ResourceView::encoded(
            listener.name@,
            TypeUrl::Listener,
            value.deep_view(),
        ),
{
    Resource {
        name: listener.name.dup(),
        resource: AnyResource { type_url: TypeUrl::Listener.to_text().to_owned(), value },
    }
}

/// A resource of a type has the name and the value that it was made of, and the address of its type.
pub proof fn law_encoded(name: Seq<char>, value: Seq<u8>)
    ensures
        ResourceView::encoded(name, TypeUrl::Cluster, value).name == name,
        ResourceView::encoded(name, TypeUrl::Cluster, value).resource.value == value,
        ResourceView::encoded(name, TypeUrl::Cluster, value).resource.type_url
            == "type.googleapis.com/envoy.config.cluster.v3.Cluster"@,
        ResourceView::encoded(name, TypeUrl::Listener, value).name == name,
        ResourceView::encoded(name, TypeUrl::Listener, value).resource.value == value,
        ResourceView::encoded(name, TypeUrl::Listener, value).resource.type_url
            == "type.googleapis.com/envoy.config.listener.v3.Listener"@,
{
}

} // verus!
