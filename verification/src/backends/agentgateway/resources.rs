//! The resources that Agentgateway is told of.
use vstd::prelude::*;
use crate::model::Model;

verus! {

/// A port that is listened at.
#[derive(Debug, PartialEq, Eq)]
pub struct Bind {
    pub key: String,
    pub port: u32,
}

/// What a [`Bind`] holds.
#[verifier::ext_equal]
pub struct BindView {
    pub key: Seq<char>,
    pub port: u32,
}

impl DeepView for Bind {
    type V = BindView;

    open spec fn deep_view(&self) -> BindView {
        BindView {
            key: self.key.deep_view(),
            port: self.port.deep_view(),
        }
    }
}

impl Model for Bind {
    fn dup(&self) -> (r: Self) {
        Bind {
            key: self.key.dup(),
            port: self.port.dup(),
        }
    }

    fn same(&self, other: &Self) -> (r: bool) {
        self.key.same(&other.key)
            && self.port.same(&other.port)
    }
}

/// A listener at a port.
#[derive(Debug, PartialEq, Eq)]
pub struct Listener {
    pub key: String,
    pub name: String,
    pub bind_key: String,
    pub gateway_name: String,
    pub hostname: String,
    pub protocol: i32,
}

/// What a [`Listener`] holds.
#[verifier::ext_equal]
pub struct ListenerView {
    pub key: Seq<char>,
    pub name: Seq<char>,
    pub bind_key: Seq<char>,
    pub gateway_name: Seq<char>,
    pub hostname: Seq<char>,
    pub protocol: i32,
}

impl DeepView for Listener {
    type V = ListenerView;

    open spec fn deep_view(&self) -> ListenerView {
        ListenerView {
            key: self.key.deep_view(),
            name: self.name.deep_view(),
            bind_key: self.bind_key.deep_view(),
            gateway_name: self.gateway_name.deep_view(),
            hostname: self.hostname.deep_view(),
            protocol: self.protocol.deep_view(),
        }
    }
}

impl Model for Listener {
    fn dup(&self) -> (r: Self) {
        Listener {
            key: self.key.dup(),
            name: self.name.dup(),
            bind_key: self.bind_key.dup(),
            gateway_name: self.gateway_name.dup(),
            hostname: self.hostname.dup(),
            protocol: self.protocol.dup(),
        }
    }

    fn same(&self, other: &Self) -> (r: bool) {
        self.key.same(&other.key)
            && self.name.same(&other.name)
            && self.bind_key.same(&other.bind_key)
            && self.gateway_name.same(&other.gateway_name)
            && self.hostname.same(&other.hostname)
            && self.protocol.same(&other.protocol)
    }
}

/// The text that a header or a parameter must have.
#[derive(Debug, PartialEq, Eq)]
pub enum TextMatch {
    Exact(String),
    Regex(String),
}

/// What a [`TextMatch`] holds.
#[verifier::ext_equal]
pub enum TextMatchView {
    Exact(Seq<char>),
    Regex(Seq<char>),
}

impl DeepView for TextMatch {
    type V = TextMatchView;

    open spec fn deep_view(&self) -> TextMatchView {
        match self {
            TextMatch::Exact(x0) => TextMatchView::Exact(x0.deep_view()),
            TextMatch::Regex(x0) => TextMatchView::Regex(x0.deep_view()),
        }
    }
}

impl Model for TextMatch {
    fn dup(&self) -> (r: Self) {
        match self {
            TextMatch::Exact(x0) => TextMatch::Exact(x0.dup()),
            TextMatch::Regex(x0) => TextMatch::Regex(x0.dup()),
        }
    }

    fn same(&self, other: &Self) -> (r: bool) {
        match (self, other) {
            (TextMatch::Exact(x0), TextMatch::Exact(x0_)) => x0.same(x0_),
            (TextMatch::Regex(x0), TextMatch::Regex(x0_)) => x0.same(x0_),
            _ => false,
        }
    }
}

/// The path that a request must have.
#[derive(Debug, PartialEq, Eq)]
pub enum PathMatch {
    Exact(String),
    PathPrefix(String),
    Regex(String),
}

/// What a [`PathMatch`] holds.
#[verifier::ext_equal]
pub enum PathMatchView {
    Exact(Seq<char>),
    PathPrefix(Seq<char>),
    Regex(Seq<char>),
}

impl DeepView for PathMatch {
    type V = PathMatchView;

    open spec fn deep_view(&self) -> PathMatchView {
        match self {
            PathMatch::Exact(x0) => PathMatchView::Exact(x0.deep_view()),
            PathMatch::PathPrefix(x0) => PathMatchView::PathPrefix(x0.deep_view()),
            PathMatch::Regex(x0) => PathMatchView::Regex(x0.deep_view()),
        }
    }
}

impl Model for PathMatch {
    fn dup(&self) -> (r: Self) {
        match self {
            PathMatch::Exact(x0) => PathMatch::Exact(x0.dup()),
            PathMatch::PathPrefix(x0) => PathMatch::PathPrefix(x0.dup()),
            PathMatch::Regex(x0) => PathMatch::Regex(x0.dup()),
        }
    }

    fn same(&self, other: &Self) -> (r: bool) {
        match (self, other) {
            (PathMatch::Exact(x0), PathMatch::Exact(x0_)) => x0.same(x0_),
            (PathMatch::PathPrefix(x0), PathMatch::PathPrefix(x0_)) => x0.same(x0_),
            (PathMatch::Regex(x0), PathMatch::Regex(x0_)) => x0.same(x0_),
            _ => false,
        }
    }
}

/// A header, or a parameter of a query, that a request must have.
#[derive(Debug, PartialEq, Eq)]
pub struct FieldMatch {
    pub name: String,
    pub value: Option<TextMatch>,
}

/// What a [`FieldMatch`] holds.
#[verifier::ext_equal]
pub struct FieldMatchView {
    pub name: Seq<char>,
    pub value: Option<TextMatchView>,
}

impl DeepView for FieldMatch {
    type V = FieldMatchView;

    open spec fn deep_view(&self) -> FieldMatchView {
        FieldMatchView {
            name: self.name.deep_view(),
            value: self.value.deep_view(),
        }
    }
}

impl Model for FieldMatch {
    fn dup(&self) -> (r: Self) {
        FieldMatch {
            name: self.name.dup(),
            value: self.value.dup(),
        }
    }

    fn same(&self, other: &Self) -> (r: bool) {
        self.name.same(&other.name)
            && self.value.same(&other.value)
    }
}

/// What a request must have to be matched.
#[derive(Debug, PartialEq, Eq)]
pub struct RouteMatch {
    pub path: Option<PathMatch>,
    pub headers: Vec<FieldMatch>,
    pub method: Option<String>,
    pub query_params: Vec<FieldMatch>,
}

/// What a [`RouteMatch`] holds.
#[verifier::ext_equal]
pub struct RouteMatchView {
    pub path: Option<PathMatchView>,
    pub headers: Seq<FieldMatchView>,
    pub method: Option<Seq<char>>,
    pub query_params: Seq<FieldMatchView>,
}

impl DeepView for RouteMatch {
    type V = RouteMatchView;

    open spec fn deep_view(&self) -> RouteMatchView {
        RouteMatchView {
            path: self.path.deep_view(),
            headers: self.headers.deep_view(),
            method: self.method.deep_view(),
            query_params: self.query_params.deep_view(),
        }
    }
}

impl Model for RouteMatch {
    fn dup(&self) -> (r: Self) {
        RouteMatch {
            path: self.path.dup(),
            headers: self.headers.dup(),
            method: self.method.dup(),
            query_params: self.query_params.dup(),
        }
    }

    fn same(&self, other: &Self) -> (r: bool) {
        self.path.same(&other.path)
            && self.headers.same(&other.headers)
            && self.method.same(&other.method)
            && self.query_params.same(&other.query_params)
    }
}

/// What a backend is referred to by.
#[derive(Debug, PartialEq, Eq)]
pub enum BackendKind {
    Backend(String),
    Service(String),
}

/// What a [`BackendKind`] holds.
#[verifier::ext_equal]
pub enum BackendKindView {
    Backend(Seq<char>),
    Service(Seq<char>),
}

impl DeepView for BackendKind {
    type V = BackendKindView;

    open spec fn deep_view(&self) -> BackendKindView {
        match self {
            BackendKind::Backend(x0) => BackendKindView::Backend(x0.deep_view()),
            BackendKind::Service(x0) => BackendKindView::Service(x0.deep_view()),
        }
    }
}

impl Model for BackendKind {
    fn dup(&self) -> (r: Self) {
        match self {
            BackendKind::Backend(x0) => BackendKind::Backend(x0.dup()),
            BackendKind::Service(x0) => BackendKind::Service(x0.dup()),
        }
    }

    fn same(&self, other: &Self) -> (r: bool) {
        match (self, other) {
            (BackendKind::Backend(x0), BackendKind::Backend(x0_)) => x0.same(x0_),
            (BackendKind::Service(x0), BackendKind::Service(x0_)) => x0.same(x0_),
            _ => false,
        }
    }
}

/// A reference to a backend.
#[derive(Debug, PartialEq, Eq)]
pub struct BackendReference {
    pub port: u32,
    pub kind: BackendKind,
}

/// What a [`BackendReference`] holds.
#[verifier::ext_equal]
pub struct BackendReferenceView {
    pub port: u32,
    pub kind: BackendKindView,
}

impl DeepView for BackendReference {
    type V = BackendReferenceView;

    open spec fn deep_view(&self) -> BackendReferenceView {
        BackendReferenceView {
            port: self.port.deep_view(),
            kind: self.kind.deep_view(),
        }
    }
}

impl Model for BackendReference {
    fn dup(&self) -> (r: Self) {
        BackendReference {
            port: self.port.dup(),
            kind: self.kind.dup(),
        }
    }

    fn same(&self, other: &Self) -> (r: bool) {
        self.port.same(&other.port)
            && self.kind.same(&other.kind)
    }
}

/// A backend of a route, with its share of the requests.
#[derive(Debug, PartialEq, Eq)]
pub struct RouteBackend {
    pub backend: BackendReference,
    pub weight: i32,
}

/// What a [`RouteBackend`] holds.
#[verifier::ext_equal]
pub struct RouteBackendView {
    pub backend: BackendReferenceView,
    pub weight: i32,
}

impl DeepView for RouteBackend {
    type V = RouteBackendView;

    open spec fn deep_view(&self) -> RouteBackendView {
        RouteBackendView {
            backend: self.backend.deep_view(),
            weight: self.weight.deep_view(),
        }
    }
}

impl Model for RouteBackend {
    fn dup(&self) -> (r: Self) {
        RouteBackend {
            backend: self.backend.dup(),
            weight: self.weight.dup(),
        }
    }

    fn same(&self, other: &Self) -> (r: bool) {
        self.backend.same(&other.backend)
            && self.weight.same(&other.weight)
    }
}

/// A route of a listener.
#[derive(Debug, PartialEq, Eq)]
pub struct Route {
    pub key: String,
    pub listener_key: String,
    pub rule_name: String,
    pub route_name: String,
    pub hostnames: Vec<String>,
    pub matches: Vec<RouteMatch>,
    pub backends: Vec<RouteBackend>,
}

/// What a [`Route`] holds.
#[verifier::ext_equal]
pub struct RouteView {
    pub key: Seq<char>,
    pub listener_key: Seq<char>,
    pub rule_name: Seq<char>,
    pub route_name: Seq<char>,
    pub hostnames: Seq<Seq<char>>,
    pub matches: Seq<RouteMatchView>,
    pub backends: Seq<RouteBackendView>,
}

impl DeepView for Route {
    type V = RouteView;

    open spec fn deep_view(&self) -> RouteView {
        RouteView {
            key: self.key.deep_view(),
            listener_key: self.listener_key.deep_view(),
            rule_name: self.rule_name.deep_view(),
            route_name: self.route_name.deep_view(),
            hostnames: self.hostnames.deep_view(),
            matches: self.matches.deep_view(),
            backends: self.backends.deep_view(),
        }
    }
}

impl Model for Route {
    fn dup(&self) -> (r: Self) {
        Route {
            key: self.key.dup(),
            listener_key: self.listener_key.dup(),
            rule_name: self.rule_name.dup(),
            route_name: self.route_name.dup(),
            hostnames: self.hostnames.dup(),
            matches: self.matches.dup(),
            backends: self.backends.dup(),
        }
    }

    fn same(&self, other: &Self) -> (r: bool) {
        self.key.same(&other.key)
            && self.listener_key.same(&other.listener_key)
            && self.rule_name.same(&other.rule_name)
            && self.route_name.same(&other.route_name)
            && self.hostnames.same(&other.hostnames)
            && self.matches.same(&other.matches)
            && self.backends.same(&other.backends)
    }
}

/// A backend at a host and a port.
#[derive(Debug, PartialEq, Eq)]
pub struct Backend {
    pub name: String,
    pub host: String,
    pub port: i32,
}

/// What a [`Backend`] holds.
#[verifier::ext_equal]
pub struct BackendView {
    pub name: Seq<char>,
    pub host: Seq<char>,
    pub port: i32,
}

impl DeepView for Backend {
    type V = BackendView;

    open spec fn deep_view(&self) -> BackendView {
        BackendView {
            name: self.name.deep_view(),
            host: self.host.deep_view(),
            port: self.port.deep_view(),
        }
    }
}

impl Model for Backend {
    fn dup(&self) -> (r: Self) {
        Backend {
            name: self.name.dup(),
            host: self.host.dup(),
            port: self.port.dup(),
        }
    }

    fn same(&self, other: &Self) -> (r: bool) {
        self.name.same(&other.name)
            && self.host.same(&other.host)
            && self.port.same(&other.port)
    }
}

/// A policy: which backend picks the endpoints of a service.
#[derive(Debug, PartialEq, Eq)]
pub struct Policy {
    pub name: String,
    pub endpoint_picker: Option<BackendReference>,
    pub failure_mode: i32,
    pub target_service: String,
}

/// What a [`Policy`] holds.
#[verifier::ext_equal]
pub struct PolicyView {
    pub name: Seq<char>,
    pub endpoint_picker: Option<BackendReferenceView>,
    pub failure_mode: i32,
    pub target_service: Seq<char>,
}

impl DeepView for Policy {
    type V = PolicyView;

    open spec fn deep_view(&self) -> PolicyView {
        PolicyView {
            name: self.name.deep_view(),
            endpoint_picker: self.endpoint_picker.deep_view(),
            failure_mode: self.failure_mode.deep_view(),
            target_service: self.target_service.deep_view(),
        }
    }
}

impl Model for Policy {
    fn dup(&self) -> (r: Self) {
        Policy {
            name: self.name.dup(),
            endpoint_picker: self.endpoint_picker.dup(),
            failure_mode: self.failure_mode.dup(),
            target_service: self.target_service.dup(),
        }
    }

    fn same(&self, other: &Self) -> (r: bool) {
        self.name.same(&other.name)
            && self.endpoint_picker.same(&other.endpoint_picker)
            && self.failure_mode.same(&other.failure_mode)
            && self.target_service.same(&other.target_service)
    }
}

/// A TCP route of a listener.
#[derive(Debug, PartialEq, Eq)]
pub struct TcpRoute {
    pub key: String,
    pub listener_key: String,
}

/// What a [`TcpRoute`] holds.
#[verifier::ext_equal]
pub struct TcpRouteView {
    pub key: Seq<char>,
    pub listener_key: Seq<char>,
}

impl DeepView for TcpRoute {
    type V = TcpRouteView;

    open spec fn deep_view(&self) -> TcpRouteView {
        TcpRouteView {
            key: self.key.deep_view(),
            listener_key: self.listener_key.deep_view(),
        }
    }
}

impl Model for TcpRoute {
    fn dup(&self) -> (r: Self) {
        TcpRoute {
            key: self.key.dup(),
            listener_key: self.listener_key.dup(),
        }
    }

    fn same(&self, other: &Self) -> (r: bool) {
        self.key.same(&other.key)
            && self.listener_key.same(&other.listener_key)
    }
}

/// A resource, by its kind.
#[derive(Debug, PartialEq, Eq)]
pub enum Kind {
    Bind(Bind),
    Listener(Listener),
    Route(Route),
    Backend(Backend),
    Policy(Policy),
    TcpRoute(TcpRoute),
}

/// What a [`Kind`] holds.
#[verifier::ext_equal]
pub enum KindView {
    Bind(BindView),
    Listener(ListenerView),
    Route(RouteView),
    Backend(BackendView),
    Policy(PolicyView),
    TcpRoute(TcpRouteView),
}

impl DeepView for Kind {
    type V = KindView;

    open spec fn deep_view(&self) -> KindView {
        match self {
            Kind::Bind(x0) => KindView::Bind(x0.deep_view()),
            Kind::Listener(x0) => KindView::Listener(x0.deep_view()),
            Kind::Route(x0) => KindView::Route(x0.deep_view()),
            Kind::Backend(x0) => KindView::Backend(x0.deep_view()),
            Kind::Policy(x0) => KindView::Policy(x0.deep_view()),
            Kind::TcpRoute(x0) => KindView::TcpRoute(x0.deep_view()),
        }
    }
}

impl Model for Kind {
    fn dup(&self) -> (r: Self) {
        match self {
            Kind::Bind(x0) => Kind::Bind(x0.dup()),
            Kind::Listener(x0) => Kind::Listener(x0.dup()),
            Kind::Route(x0) => Kind::Route(x0.dup()),
            Kind::Backend(x0) => Kind::Backend(x0.dup()),
            Kind::Policy(x0) => Kind::Policy(x0.dup()),
            Kind::TcpRoute(x0) => Kind::TcpRoute(x0.dup()),
        }
    }

    fn same(&self, other: &Self) -> (r: bool) {
        match (self, other) {
            (Kind::Bind(x0), Kind::Bind(x0_)) => x0.same(x0_),
            (Kind::Listener(x0), Kind::Listener(x0_)) => x0.same(x0_),
            (Kind::Route(x0), Kind::Route(x0_)) => x0.same(x0_),
            (Kind::Backend(x0), Kind::Backend(x0_)) => x0.same(x0_),
            (Kind::Policy(x0), Kind::Policy(x0_)) => x0.same(x0_),
            (Kind::TcpRoute(x0), Kind::TcpRoute(x0_)) => x0.same(x0_),
            _ => false,
        }
    }
}

/// A resource, which may have no kind.
#[derive(Debug, PartialEq, Eq)]
pub struct Resource {
    pub kind: Option<Kind>,
}

/// What a [`Resource`] holds.
#[verifier::ext_equal]
pub struct ResourceView {
    pub kind: Option<KindView>,
}

impl DeepView for Resource {
    type V = ResourceView;

    open spec fn deep_view(&self) -> ResourceView {
        ResourceView {
            kind: self.kind.deep_view(),
        }
    }
}

impl Model for Resource {
    fn dup(&self) -> (r: Self) {
        Resource {
            kind: self.kind.dup(),
        }
    }

    fn same(&self, other: &Self) -> (r: bool) {
        self.kind.same(&other.kind)
    }
}

/// A port of a service.
#[derive(Debug, PartialEq, Eq)]
pub struct Port {
    pub service_port: u32,
    pub target_port: u32,
    pub app_protocol: i32,
}

/// What a [`Port`] holds.
#[verifier::ext_equal]
pub struct PortView {
    pub service_port: u32,
    pub target_port: u32,
    pub app_protocol: i32,
}

impl DeepView for Port {
    type V = PortView;

    open spec fn deep_view(&self) -> PortView {
        PortView {
            service_port: self.service_port.deep_view(),
            target_port: self.target_port.deep_view(),
            app_protocol: self.app_protocol.deep_view(),
        }
    }
}

impl Model for Port {
    fn dup(&self) -> (r: Self) {
        Port {
            service_port: self.service_port.dup(),
            target_port: self.target_port.dup(),
            app_protocol: self.app_protocol.dup(),
        }
    }

    fn same(&self, other: &Self) -> (r: bool) {
        self.service_port.same(&other.service_port)
            && self.target_port.same(&other.target_port)
            && self.app_protocol.same(&other.app_protocol)
    }
}

/// An address in a network.
#[derive(Debug, PartialEq, Eq)]
pub struct NetworkAddress {
    pub network: String,
    pub address: Vec<u8>,
}

/// What a [`NetworkAddress`] holds.
#[verifier::ext_equal]
pub struct NetworkAddressView {
    pub network: Seq<char>,
    pub address: Seq<u8>,
}

impl DeepView for NetworkAddress {
    type V = NetworkAddressView;

    open spec fn deep_view(&self) -> NetworkAddressView {
        NetworkAddressView {
            network: self.network.deep_view(),
            address: self.address.deep_view(),
        }
    }
}

impl Model for NetworkAddress {
    fn dup(&self) -> (r: Self) {
        NetworkAddress {
            network: self.network.dup(),
            address: self.address.dup(),
        }
    }

    fn same(&self, other: &Self) -> (r: bool) {
        self.network.same(&other.network)
            && self.address.same(&other.address)
    }
}

/// How requests are shared out among the endpoints of a service.
#[derive(Debug, PartialEq, Eq)]
pub struct LoadBalancing {
    pub mode: i32,
    pub health_policy: i32,
}

/// What a [`LoadBalancing`] holds.
#[verifier::ext_equal]
pub struct LoadBalancingView {
    pub mode: i32,
    pub health_policy: i32,
}

impl DeepView for LoadBalancing {
    type V = LoadBalancingView;

    open spec fn deep_view(&self) -> LoadBalancingView {
        LoadBalancingView {
            mode: self.mode.deep_view(),
            health_policy: self.health_policy.deep_view(),
        }
    }
}

impl Model for LoadBalancing {
    fn dup(&self) -> (r: Self) {
        LoadBalancing {
            mode: self.mode.dup(),
            health_policy: self.health_policy.dup(),
        }
    }

    fn same(&self, other: &Self) -> (r: bool) {
        self.mode.same(&other.mode)
            && self.health_policy.same(&other.health_policy)
    }
}

/// A service.
#[derive(Debug, PartialEq, Eq)]
pub struct Service {
    pub name: String,
    pub namespace: String,
    pub hostname: String,
    pub ports: Vec<Port>,
    pub addresses: Vec<NetworkAddress>,
    pub load_balancing: Option<LoadBalancing>,
}

/// What a [`Service`] holds.
#[verifier::ext_equal]
pub struct ServiceView {
    pub name: Seq<char>,
    pub namespace: Seq<char>,
    pub hostname: Seq<char>,
    pub ports: Seq<PortView>,
    pub addresses: Seq<NetworkAddressView>,
    pub load_balancing: Option<LoadBalancingView>,
}

impl DeepView for Service {
    type V = ServiceView;

    open spec fn deep_view(&self) -> ServiceView {
        ServiceView {
            name: self.name.deep_view(),
            namespace: self.namespace.deep_view(),
            hostname: self.hostname.deep_view(),
            ports: self.ports.deep_view(),
            addresses: self.addresses.deep_view(),
            load_balancing: self.load_balancing.deep_view(),
        }
    }
}

impl Model for Service {
    fn dup(&self) -> (r: Self) {
        Service {
            name: self.name.dup(),
            namespace: self.namespace.dup(),
            hostname: self.hostname.dup(),
            ports: self.ports.dup(),
            addresses: self.addresses.dup(),
            load_balancing: self.load_balancing.dup(),
        }
    }

    fn same(&self, other: &Self) -> (r: bool) {
        self.name.same(&other.name)
            && self.namespace.same(&other.namespace)
            && self.hostname.same(&other.hostname)
            && self.ports.same(&other.ports)
            && self.addresses.same(&other.addresses)
            && self.load_balancing.same(&other.load_balancing)
    }
}

/// A workload.
#[derive(Debug, PartialEq, Eq)]
pub struct Workload {
    pub uid: String,
}

/// What a [`Workload`] holds.
#[verifier::ext_equal]
pub struct WorkloadView {
    pub uid: Seq<char>,
}

impl DeepView for Workload {
    type V = WorkloadView;

    open spec fn deep_view(&self) -> WorkloadView {
        WorkloadView {
            uid: self.uid.deep_view(),
        }
    }
}

impl Model for Workload {
    fn dup(&self) -> (r: Self) {
        Workload {
            uid: self.uid.dup(),
        }
    }

    fn same(&self, other: &Self) -> (r: bool) {
        self.uid.same(&other.uid)
    }
}

/// What an address leads to.
#[derive(Debug, PartialEq, Eq)]
pub enum AddressType {
    Workload(Workload),
    Service(Service),
}

/// What a [`AddressType`] holds.
#[verifier::ext_equal]
pub enum AddressTypeView {
    Workload(WorkloadView),
    Service(ServiceView),
}

impl DeepView for AddressType {
    type V = AddressTypeView;

    open spec fn deep_view(&self) -> AddressTypeView {
        match self {
            AddressType::Workload(x0) => AddressTypeView::Workload(x0.deep_view()),
            AddressType::Service(x0) => AddressTypeView::Service(x0.deep_view()),
        }
    }
}

impl Model for AddressType {
    fn dup(&self) -> (r: Self) {
        match self {
            AddressType::Workload(x0) => AddressType::Workload(x0.dup()),
            AddressType::Service(x0) => AddressType::Service(x0.dup()),
        }
    }

    fn same(&self, other: &Self) -> (r: bool) {
        match (self, other) {
            (AddressType::Workload(x0), AddressType::Workload(x0_)) => x0.same(x0_),
            (AddressType::Service(x0), AddressType::Service(x0_)) => x0.same(x0_),
            _ => false,
        }
    }
}

/// An address, which may lead nowhere.
#[derive(Debug, PartialEq, Eq)]
pub struct Address {
    pub address_type: Option<AddressType>,
}

/// What a [`Address`] holds.
#[verifier::ext_equal]
pub struct AddressView {
    pub address_type: Option<AddressTypeView>,
}

impl DeepView for Address {
    type V = AddressView;

    open spec fn deep_view(&self) -> AddressView {
        AddressView {
            address_type: self.address_type.deep_view(),
        }
    }
}

impl Model for Address {
    fn dup(&self) -> (r: Self) {
        Address {
            address_type: self.address_type.dup(),
        }
    }

    fn same(&self, other: &Self) -> (r: bool) {
        self.address_type.same(&other.address_type)
    }
}

} // verus!
