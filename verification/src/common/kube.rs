//! Objects of the cluster, with what the manager reads of them.
use vstd::prelude::*;
use crate::common::address::{HostText, HostTextView};
use crate::model::Model;

verus! {

/// How an object of the cluster is named.
#[derive(Debug, PartialEq, Eq, PartialOrd, Ord, Hash)]
pub struct ObjectMeta {
    pub name: Option<String>,
    pub generate_name: Option<String>,
    pub namespace: Option<String>,
    pub uid: Option<String>,
}

/// What a [`ObjectMeta`] holds.
#[verifier::ext_equal]
pub struct ObjectMetaView {
    pub name: Option<Seq<char>>,
    pub generate_name: Option<Seq<char>>,
    pub namespace: Option<Seq<char>>,
    pub uid: Option<Seq<char>>,
}

impl DeepView for ObjectMeta {
    type V = ObjectMetaView;

    open spec fn deep_view(&self) -> ObjectMetaView {
        ObjectMetaView {
            name: self.name.deep_view(),
            generate_name: self.generate_name.deep_view(),
            namespace: self.namespace.deep_view(),
            uid: self.uid.deep_view(),
        }
    }
}

impl Model for ObjectMeta {
    fn dup(&self) -> (r: Self) {
        ObjectMeta {
            name: self.name.dup(),
            generate_name: self.generate_name.dup(),
            namespace: self.namespace.dup(),
            uid: self.uid.dup(),
        }
    }

    fn same(&self, other: &Self) -> (r: bool) {
        self.name.same(&other.name)
            && self.generate_name.same(&other.generate_name)
            && self.namespace.same(&other.namespace)
            && self.uid.same(&other.uid)
    }
}

impl ObjectMetaView {
    /// The name, else the prefix that a name is generated from, else nothing.
    pub open spec fn any_name(self) -> Seq<char> {
        match (self.name, self.generate_name) {
            (Some(name), _) => name,
            (None, Some(name)) => name,
            (None, None) => Seq::empty(),
        }
    }
}

impl ObjectMeta {
    /// The name, else the prefix that a name is generated from, else nothing.
    pub fn name_any(&self) -> (r: String)
        ensures
            r@ == self.deep_view().any_name(),
    {
        match (&self.name, &self.generate_name) {
            (Some(name), _) => name.dup(),
            (None, Some(name)) => name.dup(),
            (None, None) => String::new(),
        }
    }
}

/// The parent that a route asks to be attached to.
#[derive(Debug, PartialEq, Eq, PartialOrd, Ord, Hash)]
pub struct RouteParentRefs {
    pub group: Option<String>,
    pub kind: Option<String>,
    pub name: String,
    pub namespace: Option<String>,
    pub port: Option<i32>,
    pub section_name: Option<String>,
}

/// What a [`RouteParentRefs`] holds.
#[verifier::ext_equal]
pub struct RouteParentRefsView {
    pub group: Option<Seq<char>>,
    pub kind: Option<Seq<char>>,
    pub name: Seq<char>,
    pub namespace: Option<Seq<char>>,
    pub port: Option<i32>,
    pub section_name: Option<Seq<char>>,
}

impl DeepView for RouteParentRefs {
    type V = RouteParentRefsView;

    open spec fn deep_view(&self) -> RouteParentRefsView {
        RouteParentRefsView {
            group: self.group.deep_view(),
            kind: self.kind.deep_view(),
            name: self.name.deep_view(),
            namespace: self.namespace.deep_view(),
            port: self.port.deep_view(),
            section_name: self.section_name.deep_view(),
        }
    }
}

impl Model for RouteParentRefs {
    fn dup(&self) -> (r: Self) {
        RouteParentRefs {
            group: self.group.dup(),
            kind: self.kind.dup(),
            name: self.name.dup(),
            namespace: self.namespace.dup(),
            port: self.port.dup(),
            section_name: self.section_name.dup(),
        }
    }

    fn same(&self, other: &Self) -> (r: bool) {
        self.group.same(&other.group)
            && self.kind.same(&other.kind)
            && self.name.same(&other.name)
            && self.namespace.same(&other.namespace)
            && self.port.same(&other.port)
            && self.section_name.same(&other.section_name)
    }
}

/// The backend that a rule of a route sends requests to.
#[derive(Debug, PartialEq, Eq, PartialOrd, Ord, Hash)]
pub struct BackendReference {
    pub kind: Option<String>,
    pub name: String,
    pub namespace: Option<String>,
    pub port: Option<i32>,
    pub weight: Option<i32>,
}

/// What a [`BackendReference`] holds.
#[verifier::ext_equal]
pub struct BackendReferenceView {
    pub kind: Option<Seq<char>>,
    pub name: Seq<char>,
    pub namespace: Option<Seq<char>>,
    pub port: Option<i32>,
    pub weight: Option<i32>,
}

impl DeepView for BackendReference {
    type V = BackendReferenceView;

    open spec fn deep_view(&self) -> BackendReferenceView {
        BackendReferenceView {
            kind: self.kind.deep_view(),
            name: self.name.deep_view(),
            namespace: self.namespace.deep_view(),
            port: self.port.deep_view(),
            weight: self.weight.deep_view(),
        }
    }
}

impl Model for BackendReference {
    fn dup(&self) -> (r: Self) {
        BackendReference {
            kind: self.kind.dup(),
            name: self.name.dup(),
            namespace: self.namespace.dup(),
            port: self.port.dup(),
            weight: self.weight.dup(),
        }
    }

    fn same(&self, other: &Self) -> (r: bool) {
        self.kind.same(&other.kind)
            && self.name.same(&other.name)
            && self.namespace.same(&other.namespace)
            && self.port.same(&other.port)
            && self.weight.same(&other.weight)
    }
}

/// How a text is matched.
#[derive(Clone, Copy, Debug, PartialEq, Eq, Structural)]
pub enum MatchType {
    Exact,
    RegularExpression,
}

impl DeepView for MatchType {
    type V = MatchType;

    open spec fn deep_view(&self) -> MatchType {
        *self
    }
}

impl Model for MatchType {
    fn dup(&self) -> (r: Self) {
        *self
    }

    fn same(&self, other: &Self) -> (r: bool) {
        *self == *other
    }
}

/// A header, or a parameter of a query, that a request must have.
#[derive(Debug, PartialEq, Eq)]
pub struct HeaderMatch {
    pub name: String,
    pub match_type: Option<MatchType>,
    pub value: String,
}

/// What a [`HeaderMatch`] holds.
#[verifier::ext_equal]
pub struct HeaderMatchView {
    pub name: Seq<char>,
    pub match_type: Option<MatchType>,
    pub value: Seq<char>,
}

impl DeepView for HeaderMatch {
    type V = HeaderMatchView;

    open spec fn deep_view(&self) -> HeaderMatchView {
        HeaderMatchView {
            name: self.name.deep_view(),
            match_type: self.match_type.deep_view(),
            value: self.value.deep_view(),
        }
    }
}

impl Model for HeaderMatch {
    fn dup(&self) -> (r: Self) {
        HeaderMatch {
            name: self.name.dup(),
            match_type: self.match_type.dup(),
            value: self.value.dup(),
        }
    }

    fn same(&self, other: &Self) -> (r: bool) {
        self.name.same(&other.name)
            && self.match_type.same(&other.match_type)
            && self.value.same(&other.value)
    }
}

/// How a path is matched.
#[derive(Clone, Copy, Debug, PartialEq, Eq, Structural)]
pub enum PathMatchType {
    Exact,
    PathPrefix,
    RegularExpression,
}

impl DeepView for PathMatchType {
    type V = PathMatchType;

    open spec fn deep_view(&self) -> PathMatchType {
        *self
    }
}

impl Model for PathMatchType {
    fn dup(&self) -> (r: Self) {
        *self
    }

    fn same(&self, other: &Self) -> (r: bool) {
        *self == *other
    }
}

/// A path that a request must have.
#[derive(Debug, PartialEq, Eq)]
pub struct PathMatch {
    pub match_type: Option<PathMatchType>,
    pub value: Option<String>,
}

/// What a [`PathMatch`] holds.
#[verifier::ext_equal]
pub struct PathMatchView {
    pub match_type: Option<PathMatchType>,
    pub value: Option<Seq<char>>,
}

impl DeepView for PathMatch {
    type V = PathMatchView;

    open spec fn deep_view(&self) -> PathMatchView {
        PathMatchView {
            match_type: self.match_type.deep_view(),
            value: self.value.deep_view(),
        }
    }
}

impl Model for PathMatch {
    fn dup(&self) -> (r: Self) {
        PathMatch {
            match_type: self.match_type.dup(),
            value: self.value.dup(),
        }
    }

    fn same(&self, other: &Self) -> (r: bool) {
        self.match_type.same(&other.match_type)
            && self.value.same(&other.value)
    }
}

/// The method that a request must have.
#[derive(Clone, Copy, Debug, PartialEq, Eq, Structural)]
pub enum HTTPMethodMatch {
    Get,
    Head,
    Post,
    Put,
    Delete,
    Connect,
    Options,
    Trace,
    Patch,
}

impl DeepView for HTTPMethodMatch {
    type V = HTTPMethodMatch;

    open spec fn deep_view(&self) -> HTTPMethodMatch {
        *self
    }
}

impl Model for HTTPMethodMatch {
    fn dup(&self) -> (r: Self) {
        *self
    }

    fn same(&self, other: &Self) -> (r: bool) {
        *self == *other
    }
}

/// What an HTTP request must have to be matched.
#[derive(Debug, PartialEq, Eq)]
pub struct RouteMatch {
    pub headers: Option<Vec<HeaderMatch>>,
    pub method: Option<HTTPMethodMatch>,
    pub path: Option<PathMatch>,
    pub query_params: Option<Vec<HeaderMatch>>,
}

/// What a [`RouteMatch`] holds.
#[verifier::ext_equal]
pub struct RouteMatchView {
    pub headers: Option<Seq<HeaderMatchView>>,
    pub method: Option<HTTPMethodMatch>,
    pub path: Option<PathMatchView>,
    pub query_params: Option<Seq<HeaderMatchView>>,
}

impl DeepView for RouteMatch {
    type V = RouteMatchView;

    open spec fn deep_view(&self) -> RouteMatchView {
        RouteMatchView {
            headers: self.headers.deep_view(),
            method: self.method.deep_view(),
            path: self.path.deep_view(),
            query_params: self.query_params.deep_view(),
        }
    }
}

impl Model for RouteMatch {
    fn dup(&self) -> (r: Self) {
        RouteMatch {
            headers: self.headers.dup(),
            method: self.method.dup(),
            path: self.path.dup(),
            query_params: self.query_params.dup(),
        }
    }

    fn same(&self, other: &Self) -> (r: bool) {
        self.headers.same(&other.headers)
            && self.method.same(&other.method)
            && self.path.same(&other.path)
            && self.query_params.same(&other.query_params)
    }
}

/// The gRPC method that a request must call.
#[derive(Debug, PartialEq, Eq)]
pub struct GRPCMethodMatch {
    pub method: Option<String>,
    pub service: Option<String>,
    pub match_type: Option<MatchType>,
}

/// What a [`GRPCMethodMatch`] holds.
#[verifier::ext_equal]
pub struct GRPCMethodMatchView {
    pub method: Option<Seq<char>>,
    pub service: Option<Seq<char>>,
    pub match_type: Option<MatchType>,
}

impl DeepView for GRPCMethodMatch {
    type V = GRPCMethodMatchView;

    open spec fn deep_view(&self) -> GRPCMethodMatchView {
        GRPCMethodMatchView {
            method: self.method.deep_view(),
            service: self.service.deep_view(),
            match_type: self.match_type.deep_view(),
        }
    }
}

impl Model for GRPCMethodMatch {
    fn dup(&self) -> (r: Self) {
        GRPCMethodMatch {
            method: self.method.dup(),
            service: self.service.dup(),
            match_type: self.match_type.dup(),
        }
    }

    fn same(&self, other: &Self) -> (r: bool) {
        self.method.same(&other.method)
            && self.service.same(&other.service)
            && self.match_type.same(&other.match_type)
    }
}

/// What a gRPC request must have to be matched.
#[derive(Debug, PartialEq, Eq)]
pub struct GRPCRouteMatch {
    pub headers: Option<Vec<HeaderMatch>>,
    pub method: Option<GRPCMethodMatch>,
}

/// What a [`GRPCRouteMatch`] holds.
#[verifier::ext_equal]
pub struct GRPCRouteMatchView {
    pub headers: Option<Seq<HeaderMatchView>>,
    pub method: Option<GRPCMethodMatchView>,
}

impl DeepView for GRPCRouteMatch {
    type V = GRPCRouteMatchView;

    open spec fn deep_view(&self) -> GRPCRouteMatchView {
        GRPCRouteMatchView {
            headers: self.headers.deep_view(),
            method: self.method.deep_view(),
        }
    }
}

impl Model for GRPCRouteMatch {
    fn dup(&self) -> (r: Self) {
        GRPCRouteMatch {
            headers: self.headers.dup(),
            method: self.method.dup(),
        }
    }

    fn same(&self, other: &Self) -> (r: bool) {
        self.headers.same(&other.headers)
            && self.method.same(&other.method)
    }
}

/// A header of a request.
#[derive(Debug, PartialEq, Eq)]
pub struct HttpHeader {
    pub name: String,
    pub value: String,
}

/// What a [`HttpHeader`] holds.
#[verifier::ext_equal]
pub struct HttpHeaderView {
    pub name: Seq<char>,
    pub value: Seq<char>,
}

impl DeepView for HttpHeader {
    type V = HttpHeaderView;

    open spec fn deep_view(&self) -> HttpHeaderView {
        HttpHeaderView {
            name: self.name.deep_view(),
            value: self.value.deep_view(),
        }
    }
}

impl Model for HttpHeader {
    fn dup(&self) -> (r: Self) {
        HttpHeader {
            name: self.name.dup(),
            value: self.value.dup(),
        }
    }

    fn same(&self, other: &Self) -> (r: bool) {
        self.name.same(&other.name)
            && self.value.same(&other.value)
    }
}

/// What a filter does to the headers of a request.
#[derive(Debug, PartialEq, Eq)]
pub struct HeaderModifier {
    pub add: Option<Vec<HttpHeader>>,
    pub remove: Option<Vec<String>>,
    pub set: Option<Vec<HttpHeader>>,
}

/// What a [`HeaderModifier`] holds.
#[verifier::ext_equal]
pub struct HeaderModifierView {
    pub add: Option<Seq<HttpHeaderView>>,
    pub remove: Option<Seq<Seq<char>>>,
    pub set: Option<Seq<HttpHeaderView>>,
}

impl DeepView for HeaderModifier {
    type V = HeaderModifierView;

    open spec fn deep_view(&self) -> HeaderModifierView {
        HeaderModifierView {
            add: self.add.deep_view(),
            remove: self.remove.deep_view(),
            set: self.set.deep_view(),
        }
    }
}

impl Model for HeaderModifier {
    fn dup(&self) -> (r: Self) {
        HeaderModifier {
            add: self.add.dup(),
            remove: self.remove.dup(),
            set: self.set.dup(),
        }
    }

    fn same(&self, other: &Self) -> (r: bool) {
        self.add.same(&other.add)
            && self.remove.same(&other.remove)
            && self.set.same(&other.set)
    }
}

/// Where a filter sends a request to instead.
#[derive(Debug, PartialEq, Eq)]
pub struct RequestRedirect {
    pub hostname: Option<String>,
    pub status_code: Option<i32>,
}

/// What a [`RequestRedirect`] holds.
#[verifier::ext_equal]
pub struct RequestRedirectView {
    pub hostname: Option<Seq<char>>,
    pub status_code: Option<i32>,
}

impl DeepView for RequestRedirect {
    type V = RequestRedirectView;

    open spec fn deep_view(&self) -> RequestRedirectView {
        RequestRedirectView {
            hostname: self.hostname.deep_view(),
            status_code: self.status_code.deep_view(),
        }
    }
}

impl Model for RequestRedirect {
    fn dup(&self) -> (r: Self) {
        RequestRedirect {
            hostname: self.hostname.dup(),
            status_code: self.status_code.dup(),
        }
    }

    fn same(&self, other: &Self) -> (r: bool) {
        self.hostname.same(&other.hostname)
            && self.status_code.same(&other.status_code)
    }
}

/// What a filter of a route does.
#[derive(Clone, Copy, Debug, PartialEq, Eq, Structural)]
pub enum FilterType {
    RequestHeaderModifier,
    ResponseHeaderModifier,
    RequestMirror,
    RequestRedirect,
    UrlRewrite,
    ExtensionRef,
}

impl DeepView for FilterType {
    type V = FilterType;

    open spec fn deep_view(&self) -> FilterType {
        *self
    }
}

impl Model for FilterType {
    fn dup(&self) -> (r: Self) {
        *self
    }

    fn same(&self, other: &Self) -> (r: bool) {
        *self == *other
    }
}

/// A filter of an HTTP route.
#[derive(Debug, PartialEq, Eq)]
pub struct HTTPRouteFilter {
    pub filter_type: FilterType,
    pub request_header_modifier: Option<HeaderModifier>,
    pub request_redirect: Option<RequestRedirect>,
}

/// What a [`HTTPRouteFilter`] holds.
#[verifier::ext_equal]
pub struct HTTPRouteFilterView {
    pub filter_type: FilterType,
    pub request_header_modifier: Option<HeaderModifierView>,
    pub request_redirect: Option<RequestRedirectView>,
}

impl DeepView for HTTPRouteFilter {
    type V = HTTPRouteFilterView;

    open spec fn deep_view(&self) -> HTTPRouteFilterView {
        HTTPRouteFilterView {
            filter_type: self.filter_type.deep_view(),
            request_header_modifier: self.request_header_modifier.deep_view(),
            request_redirect: self.request_redirect.deep_view(),
        }
    }
}

impl Model for HTTPRouteFilter {
    fn dup(&self) -> (r: Self) {
        HTTPRouteFilter {
            filter_type: self.filter_type.dup(),
            request_header_modifier: self.request_header_modifier.dup(),
            request_redirect: self.request_redirect.dup(),
        }
    }

    fn same(&self, other: &Self) -> (r: bool) {
        self.filter_type.same(&other.filter_type)
            && self.request_header_modifier.same(&other.request_header_modifier)
            && self.request_redirect.same(&other.request_redirect)
    }
}

/// A filter of a gRPC route.
#[derive(Debug, PartialEq, Eq)]
pub struct GRPCRouteFilter {
    pub filter_type: FilterType,
    pub request_header_modifier: Option<HeaderModifier>,
}

/// What a [`GRPCRouteFilter`] holds.
#[verifier::ext_equal]
pub struct GRPCRouteFilterView {
    pub filter_type: FilterType,
    pub request_header_modifier: Option<HeaderModifierView>,
}

impl DeepView for GRPCRouteFilter {
    type V = GRPCRouteFilterView;

    open spec fn deep_view(&self) -> GRPCRouteFilterView {
        GRPCRouteFilterView {
            filter_type: self.filter_type.deep_view(),
            request_header_modifier: self.request_header_modifier.deep_view(),
        }
    }
}

impl Model for GRPCRouteFilter {
    fn dup(&self) -> (r: Self) {
        GRPCRouteFilter {
            filter_type: self.filter_type.dup(),
            request_header_modifier: self.request_header_modifier.dup(),
        }
    }

    fn same(&self, other: &Self) -> (r: bool) {
        self.filter_type.same(&other.filter_type)
            && self.request_header_modifier.same(&other.request_header_modifier)
    }
}

/// A rule of an HTTP route.
#[derive(Debug, PartialEq, Eq)]
pub struct HTTPRouteRule {
    pub matches: Option<Vec<RouteMatch>>,
    pub filters: Option<Vec<HTTPRouteFilter>>,
    pub backend_refs: Option<Vec<BackendReference>>,
}

/// What a [`HTTPRouteRule`] holds.
#[verifier::ext_equal]
pub struct HTTPRouteRuleView {
    pub matches: Option<Seq<RouteMatchView>>,
    pub filters: Option<Seq<HTTPRouteFilterView>>,
    pub backend_refs: Option<Seq<BackendReferenceView>>,
}

impl DeepView for HTTPRouteRule {
    type V = HTTPRouteRuleView;

    open spec fn deep_view(&self) -> HTTPRouteRuleView {
        HTTPRouteRuleView {
            matches: self.matches.deep_view(),
            filters: self.filters.deep_view(),
            backend_refs: self.backend_refs.deep_view(),
        }
    }
}

impl Model for HTTPRouteRule {
    fn dup(&self) -> (r: Self) {
        HTTPRouteRule {
            matches: self.matches.dup(),
            filters: self.filters.dup(),
            backend_refs: self.backend_refs.dup(),
        }
    }

    fn same(&self, other: &Self) -> (r: bool) {
        self.matches.same(&other.matches)
            && self.filters.same(&other.filters)
            && self.backend_refs.same(&other.backend_refs)
    }
}

/// A rule of a gRPC route.
#[derive(Debug, PartialEq, Eq)]
pub struct GRPCRouteRule {
    pub matches: Option<Vec<GRPCRouteMatch>>,
    pub filters: Option<Vec<GRPCRouteFilter>>,
    pub backend_refs: Option<Vec<BackendReference>>,
}

/// What a [`GRPCRouteRule`] holds.
#[verifier::ext_equal]
pub struct GRPCRouteRuleView {
    pub matches: Option<Seq<GRPCRouteMatchView>>,
    pub filters: Option<Seq<GRPCRouteFilterView>>,
    pub backend_refs: Option<Seq<BackendReferenceView>>,
}

impl DeepView for GRPCRouteRule {
    type V = GRPCRouteRuleView;

    open spec fn deep_view(&self) -> GRPCRouteRuleView {
        GRPCRouteRuleView {
            matches: self.matches.deep_view(),
            filters: self.filters.deep_view(),
            backend_refs: self.backend_refs.deep_view(),
        }
    }
}

impl Model for GRPCRouteRule {
    fn dup(&self) -> (r: Self) {
        GRPCRouteRule {
            matches: self.matches.dup(),
            filters: self.filters.dup(),
            backend_refs: self.backend_refs.dup(),
        }
    }

    fn same(&self, other: &Self) -> (r: bool) {
        self.matches.same(&other.matches)
            && self.filters.same(&other.filters)
            && self.backend_refs.same(&other.backend_refs)
    }
}

/// An HTTP route of the cluster.
#[derive(Debug, PartialEq, Eq)]
pub struct HTTPRoute {
    pub metadata: ObjectMeta,
    pub parent_refs: Option<Vec<RouteParentRefs>>,
    pub hostnames: Option<Vec<HostText>>,
    pub rules: Option<Vec<HTTPRouteRule>>,
}

/// What a [`HTTPRoute`] holds.
#[verifier::ext_equal]
pub struct HTTPRouteView {
    pub metadata: ObjectMetaView,
    pub parent_refs: Option<Seq<RouteParentRefsView>>,
    pub hostnames: Option<Seq<HostTextView>>,
    pub rules: Option<Seq<HTTPRouteRuleView>>,
}

impl DeepView for HTTPRoute {
    type V = HTTPRouteView;

    open spec fn deep_view(&self) -> HTTPRouteView {
        HTTPRouteView {
            metadata: self.metadata.deep_view(),
            parent_refs: self.parent_refs.deep_view(),
            hostnames: self.hostnames.deep_view(),
            rules: self.rules.deep_view(),
        }
    }
}

impl Model for HTTPRoute {
    fn dup(&self) -> (r: Self) {
        HTTPRoute {
            metadata: self.metadata.dup(),
            parent_refs: self.parent_refs.dup(),
            hostnames: self.hostnames.dup(),
            rules: self.rules.dup(),
        }
    }

    fn same(&self, other: &Self) -> (r: bool) {
        self.metadata.same(&other.metadata)
            && self.parent_refs.same(&other.parent_refs)
            && self.hostnames.same(&other.hostnames)
            && self.rules.same(&other.rules)
    }
}

/// A gRPC route of the cluster.
#[derive(Debug, PartialEq, Eq)]
pub struct GRPCRoute {
    pub metadata: ObjectMeta,
    pub parent_refs: Option<Vec<RouteParentRefs>>,
    pub hostnames: Option<Vec<HostText>>,
    pub rules: Option<Vec<GRPCRouteRule>>,
}

/// What a [`GRPCRoute`] holds.
#[verifier::ext_equal]
pub struct GRPCRouteView {
    pub metadata: ObjectMetaView,
    pub parent_refs: Option<Seq<RouteParentRefsView>>,
    pub hostnames: Option<Seq<HostTextView>>,
    pub rules: Option<Seq<GRPCRouteRuleView>>,
}

impl DeepView for GRPCRoute {
    type V = GRPCRouteView;

    open spec fn deep_view(&self) -> GRPCRouteView {
        GRPCRouteView {
            metadata: self.metadata.deep_view(),
            parent_refs: self.parent_refs.deep_view(),
            hostnames: self.hostnames.deep_view(),
            rules: self.rules.deep_view(),
        }
    }
}

impl Model for GRPCRoute {
    fn dup(&self) -> (r: Self) {
        GRPCRoute {
            metadata: self.metadata.dup(),
            parent_refs: self.parent_refs.dup(),
            hostnames: self.hostnames.dup(),
            rules: self.rules.dup(),
        }
    }

    fn same(&self, other: &Self) -> (r: bool) {
        self.metadata.same(&other.metadata)
            && self.parent_refs.same(&other.parent_refs)
            && self.hostnames.same(&other.hostnames)
            && self.rules.same(&other.rules)
    }
}

/// What a listener does with TLS.
#[derive(Clone, Copy, Debug, PartialEq, Eq, Structural)]
pub enum TlsMode {
    Terminate,
    Passthrough,
}

impl DeepView for TlsMode {
    type V = TlsMode;

    open spec fn deep_view(&self) -> TlsMode {
        *self
    }
}

impl Model for TlsMode {
    fn dup(&self) -> (r: Self) {
        *self
    }

    fn same(&self, other: &Self) -> (r: bool) {
        *self == *other
    }
}

/// A reference to a secret.
#[derive(Debug, PartialEq, Eq)]
pub struct CertificateRef {
    pub group: Option<String>,
    pub kind: Option<String>,
    pub name: String,
    pub namespace: Option<String>,
}

/// What a [`CertificateRef`] holds.
#[verifier::ext_equal]
pub struct CertificateRefView {
    pub group: Option<Seq<char>>,
    pub kind: Option<Seq<char>>,
    pub name: Seq<char>,
    pub namespace: Option<Seq<char>>,
}

impl DeepView for CertificateRef {
    type V = CertificateRefView;

    open spec fn deep_view(&self) -> CertificateRefView {
        CertificateRefView {
            group: self.group.deep_view(),
            kind: self.kind.deep_view(),
            name: self.name.deep_view(),
            namespace: self.namespace.deep_view(),
        }
    }
}

impl Model for CertificateRef {
    fn dup(&self) -> (r: Self) {
        CertificateRef {
            group: self.group.dup(),
            kind: self.kind.dup(),
            name: self.name.dup(),
            namespace: self.namespace.dup(),
        }
    }

    fn same(&self, other: &Self) -> (r: bool) {
        self.group.same(&other.group)
            && self.kind.same(&other.kind)
            && self.name.same(&other.name)
            && self.namespace.same(&other.namespace)
    }
}

/// How a listener handles TLS.
#[derive(Debug, PartialEq, Eq)]
pub struct ListenerTls {
    pub mode: Option<TlsMode>,
    pub certificate_refs: Option<Vec<CertificateRef>>,
}

/// What a [`ListenerTls`] holds.
#[verifier::ext_equal]
pub struct ListenerTlsView {
    pub mode: Option<TlsMode>,
    pub certificate_refs: Option<Seq<CertificateRefView>>,
}

impl DeepView for ListenerTls {
    type V = ListenerTlsView;

    open spec fn deep_view(&self) -> ListenerTlsView {
        ListenerTlsView {
            mode: self.mode.deep_view(),
            certificate_refs: self.certificate_refs.deep_view(),
        }
    }
}

impl Model for ListenerTls {
    fn dup(&self) -> (r: Self) {
        ListenerTls {
            mode: self.mode.dup(),
            certificate_refs: self.certificate_refs.dup(),
        }
    }

    fn same(&self, other: &Self) -> (r: bool) {
        self.mode.same(&other.mode)
            && self.certificate_refs.same(&other.certificate_refs)
    }
}

/// The routes that a listener lets in, by the names of their kinds.
#[derive(Debug, PartialEq, Eq)]
pub struct AllowedRoutes {
    pub kinds: Option<Vec<String>>,
}

/// What a [`AllowedRoutes`] holds.
#[verifier::ext_equal]
pub struct AllowedRoutesView {
    pub kinds: Option<Seq<Seq<char>>>,
}

impl DeepView for AllowedRoutes {
    type V = AllowedRoutesView;

    open spec fn deep_view(&self) -> AllowedRoutesView {
        AllowedRoutesView {
            kinds: self.kinds.deep_view(),
        }
    }
}

impl Model for AllowedRoutes {
    fn dup(&self) -> (r: Self) {
        AllowedRoutes {
            kinds: self.kinds.dup(),
        }
    }

    fn same(&self, other: &Self) -> (r: bool) {
        self.kinds.same(&other.kinds)
    }
}

/// A listener of a gateway of the cluster.
#[derive(Debug, PartialEq, Eq)]
pub struct GatewayListener {
    pub name: String,
    pub port: i32,
    pub protocol: String,
    pub hostname: Option<String>,
    pub tls: Option<ListenerTls>,
    pub allowed_routes: Option<AllowedRoutes>,
}

/// What a [`GatewayListener`] holds.
#[verifier::ext_equal]
pub struct GatewayListenerView {
    pub name: Seq<char>,
    pub port: i32,
    pub protocol: Seq<char>,
    pub hostname: Option<Seq<char>>,
    pub tls: Option<ListenerTlsView>,
    pub allowed_routes: Option<AllowedRoutesView>,
}

impl DeepView for GatewayListener {
    type V = GatewayListenerView;

    open spec fn deep_view(&self) -> GatewayListenerView {
        GatewayListenerView {
            name: self.name.deep_view(),
            port: self.port.deep_view(),
            protocol: self.protocol.deep_view(),
            hostname: self.hostname.deep_view(),
            tls: self.tls.deep_view(),
            allowed_routes: self.allowed_routes.deep_view(),
        }
    }
}

impl Model for GatewayListener {
    fn dup(&self) -> (r: Self) {
        GatewayListener {
            name: self.name.dup(),
            port: self.port.dup(),
            protocol: self.protocol.dup(),
            hostname: self.hostname.dup(),
            tls: self.tls.dup(),
            allowed_routes: self.allowed_routes.dup(),
        }
    }

    fn same(&self, other: &Self) -> (r: bool) {
        self.name.same(&other.name)
            && self.port.same(&other.port)
            && self.protocol.same(&other.protocol)
            && self.hostname.same(&other.hostname)
            && self.tls.same(&other.tls)
            && self.allowed_routes.same(&other.allowed_routes)
    }
}

/// A gateway of the cluster.
#[derive(Debug, PartialEq, Eq)]
pub struct KubeGateway {
    pub metadata: ObjectMeta,
    pub listeners: Vec<GatewayListener>,
}

/// What a [`KubeGateway`] holds.
#[verifier::ext_equal]
pub struct KubeGatewayView {
    pub metadata: ObjectMetaView,
    pub listeners: Seq<GatewayListenerView>,
}

impl DeepView for KubeGateway {
    type V = KubeGatewayView;

    open spec fn deep_view(&self) -> KubeGatewayView {
        KubeGatewayView {
            metadata: self.metadata.deep_view(),
            listeners: self.listeners.deep_view(),
        }
    }
}

impl Model for KubeGateway {
    fn dup(&self) -> (r: Self) {
        KubeGateway {
            metadata: self.metadata.dup(),
            listeners: self.listeners.dup(),
        }
    }

    fn same(&self, other: &Self) -> (r: bool) {
        self.metadata.same(&other.metadata)
            && self.listeners.same(&other.listeners)
    }
}

/// An object is named by its name; by the prefix of generated names where it has none; and else by
/// nothing.
pub proof fn law_name_of_object(meta: ObjectMetaView)
    ensures
        meta.name is Some ==> meta.any_name() == meta.name->0,
        meta.name is None && meta.generate_name is Some ==> meta.any_name() == meta.generate_name->0,
        meta.name is None && meta.generate_name is None ==> meta.any_name().len() == 0,
{
}

} // verus!
