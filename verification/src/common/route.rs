//! Routes and their rules.
use core::cmp::Ordering;
use vstd::prelude::*;
use vstd::std_specs::cmp::{PartialEqSpec, PartialEqSpecImpl, PartialOrdSpec, PartialOrdSpecImpl};
use vstd::std_specs::convert::TryFromSpecImpl;
use vstd::utf8::encode_utf8;
use crate::common::address::{HostText, HostTextView};
use crate::common::backend::{
    Backend, BackendType, BackendTypeView, BackendView, InferencePoolTypeConfig, InferencePoolTypeConfigView,
    ServiceTypeConfig, ServiceTypeConfigView,
};
use crate::common::errors::ControllerError;
use crate::common::kube::{
    BackendReference, BackendReferenceView, FilterType, GRPCRoute, GRPCRouteFilter, GRPCRouteFilterView, GRPCRouteMatch,
    GRPCRouteMatchView, GRPCRouteRule, GRPCRouteRuleView, GRPCRouteView, HTTPRoute, HTTPRouteFilter,
    HTTPRouteFilterView, HTTPRouteRule, HTTPRouteRuleView, HTTPRouteView, HeaderModifier, HeaderModifierView,
    HttpHeader, HttpHeaderView, PathMatch, PathMatchType, PathMatchView, RequestRedirect, RequestRedirectView,
    RouteMatch, RouteMatchView, RouteParentRefs, RouteParentRefsView,
};
use crate::common::matching::{
    grpc_match_rank,
    law_longer_path_first,
    law_more_headers_first,
    law_more_http_headers_first,
    match_rank,
};
use crate::common::resource_key::{
    DEFAULT_INFERENCE_GROUP_NAME, DEFAULT_NAMESPACE_NAME, DEFAULT_ROUTE_HOSTNAME, ResourceKey, ResourceKeyView, or_text,
    text_or,
};
use crate::lists::{
    choose_list,
    chosen,
    chosen_contains,
    join_list,
    joined,
    joined_contains,
    law_chosen_of_all,
    law_chosen_of_both,
    law_chosen_of_one,
    law_joined_of_one,
    map_list,
    map_places,
};
use crate::model::Model;
use crate::order::{Rank, Ranked};
use crate::sorting::{in_order, law_sorted, sort, sorted};
use crate::text::{cat3, count_text, decimal, text_is};

verus! {

/// Whether a route was attached.
#[derive(Clone, Copy, Debug, PartialEq, Eq, Structural)]
pub enum RouteStatus {
    Attached,
    Ignored,
}

impl DeepView for RouteStatus {
    type V = RouteStatus;

    open spec fn deep_view(&self) -> RouteStatus {
        *self
    }
}

impl Model for RouteStatus {
    fn dup(&self) -> (r: Self) {
        *self
    }

    fn same(&self, other: &Self) -> (r: bool) {
        *self == *other
    }
}

impl RouteStatus {
    /// The name of the status.
    pub fn to_text(&self) -> (r: &'static str)
        ensures
            r@ == (match *self {
                RouteStatus::Attached => "Attached"@,
                RouteStatus::Ignored => "Ignored"@,
            }),
    {
        match self {
            RouteStatus::Attached => "Attached",
            RouteStatus::Ignored => "Ignored",
        }
    }
}

/// Why the references of a route are not resolved.
#[derive(Clone, Copy, Debug, PartialEq, Eq, Structural)]
pub enum NotResolvedReason {
    Unknown,
    NotAllowedByListeners,
    NoMatchingListenerHostname,
    InvalidBackend,
    BackendNotFound,
    RefNotPermitted,
    NoMatchingParent,
}

impl DeepView for NotResolvedReason {
    type V = NotResolvedReason;

    open spec fn deep_view(&self) -> NotResolvedReason {
        *self
    }
}

impl Model for NotResolvedReason {
    fn dup(&self) -> (r: Self) {
        *self
    }

    fn same(&self, other: &Self) -> (r: bool) {
        *self == *other
    }
}

/// Whether the references of a route are resolved.
#[derive(Debug, PartialEq, Eq)]
pub enum ResolutionStatus {
    Resolved,
    NotResolved(NotResolvedReason),
}

/// What a [`ResolutionStatus`] holds.
#[verifier::ext_equal]
pub enum ResolutionStatusView {
    Resolved,
    NotResolved(NotResolvedReason),
}

impl DeepView for ResolutionStatus {
    type V = ResolutionStatusView;

    open spec fn deep_view(&self) -> ResolutionStatusView {
        match self {
            ResolutionStatus::Resolved => ResolutionStatusView::Resolved,
            ResolutionStatus::NotResolved(x0) => ResolutionStatusView::NotResolved(x0.deep_view()),
        }
    }
}

impl Model for ResolutionStatus {
    fn dup(&self) -> (r: Self) {
        match self {
            ResolutionStatus::Resolved => ResolutionStatus::Resolved,
            ResolutionStatus::NotResolved(x0) => ResolutionStatus::NotResolved(x0.dup()),
        }
    }

    fn same(&self, other: &Self) -> (r: bool) {
        match (self, other) {
            (ResolutionStatus::Resolved, ResolutionStatus::Resolved) => true,
            (ResolutionStatus::NotResolved(x0), ResolutionStatus::NotResolved(x0_)) => x0.same(x0_),
            _ => false,
        }
    }
}

/// What the filters of a rule do to the headers of a request.
#[derive(Debug, PartialEq, Eq)]
pub struct FilterHeaders {
    pub add: Vec<HttpHeader>,
    pub remove: Vec<String>,
    pub set: Vec<HttpHeader>,
}

/// What a [`FilterHeaders`] holds.
#[verifier::ext_equal]
pub struct FilterHeadersView {
    pub add: Seq<HttpHeaderView>,
    pub remove: Seq<Seq<char>>,
    pub set: Seq<HttpHeaderView>,
}

impl DeepView for FilterHeaders {
    type V = FilterHeadersView;

    open spec fn deep_view(&self) -> FilterHeadersView {
        FilterHeadersView {
            add: self.add.deep_view(),
            remove: self.remove.deep_view(),
            set: self.set.deep_view(),
        }
    }
}

impl Model for FilterHeaders {
    fn dup(&self) -> (r: Self) {
        FilterHeaders {
            add: self.add.dup(),
            remove: self.remove.dup(),
            set: self.set.dup(),
        }
    }

    fn same(&self, other: &Self) -> (r: bool) {
        self.add.same(&other.add)
            && self.remove.same(&other.remove)
            && self.set.same(&other.set)
    }
}

impl Default for FilterHeaders {
    fn default() -> (r: Self)
        ensures
            r.deep_view() == no_headers(),
    {
        let r = FilterHeaders { add: Vec::new(), remove: Vec::new(), set: Vec::new() };
        assert(r.deep_view() =~= no_headers());
        r
    }
}

/// Nothing is done to the headers.
pub open spec fn no_headers() -> FilterHeadersView {
    FilterHeadersView { add: Seq::empty(), remove: Seq::empty(), set: Seq::empty() }
}

/// A list that may be left out, and is empty then.
pub open spec fn list_or_none<A>(items: Option<Seq<A>>) -> Seq<A> {
    match items {
        Some(items) => items,
        None => Seq::empty(),
    }
}

/// Computes `list_or_none`.
pub fn or_no_items<T: Model>(items: &Option<Vec<T>>) -> (r: Vec<T>)
    ensures
        r.deep_view() == list_or_none(items.deep_view()),
{
    match items {
        Some(items) => items.dup(),
        None => {
            let r: Vec<T> = Vec::new();
            assert(r.deep_view() =~= Seq::<T::V>::empty());
            r
        },
    }
}

/// The headers that a modifier adds, if there is a modifier and it has such a list.
pub fn get_add_headers(modifier: Option<&HeaderModifier>) -> (r: Option<&Vec<HttpHeader>>)
    ensures
        r.deep_view() == (match modifier {
            Some(modifier) => modifier.deep_view().add,
            None => None,
        }),
{
    match modifier {
        Some(modifier) => modifier.add.as_ref(),
        None => None,
    }
}

/// The headers that a modifier sets, if there is a modifier and it has such a list.
pub fn get_set_headers(modifier: Option<&HeaderModifier>) -> (r: Option<&Vec<HttpHeader>>)
    ensures
        r.deep_view() == (match modifier {
            Some(modifier) => modifier.deep_view().set,
            None => None,
        }),
{
    match modifier {
        Some(modifier) => modifier.set.as_ref(),
        None => None,
    }
}

/// The headers that a modifier removes, if there is a modifier and it has such a list.
pub fn get_remove_headers(modifier: Option<&HeaderModifier>) -> (r: Option<&Vec<String>>)
    ensures
        r.deep_view() == (match modifier {
            Some(modifier) => modifier.deep_view().remove,
            None => None,
        }),
{
    match modifier {
        Some(modifier) => modifier.remove.as_ref(),
        None => None,
    }
}

/// What a modifier adds.
pub open spec fn added() -> spec_fn(HeaderModifierView) -> Seq<HttpHeaderView> {
    |modifier: HeaderModifierView| list_or_none(modifier.add)
}

/// What a modifier sets.
pub open spec fn put_in_place() -> spec_fn(HeaderModifierView) -> Seq<HttpHeaderView> {
    |modifier: HeaderModifierView| list_or_none(modifier.set)
}

/// What a modifier removes.
pub open spec fn taken_out() -> spec_fn(HeaderModifierView) -> Seq<Seq<char>> {
    |modifier: HeaderModifierView| list_or_none(modifier.remove)
}

/// What modifiers do, one after the other.
pub open spec fn headers_of(modifiers: Seq<HeaderModifierView>) -> FilterHeadersView {
    FilterHeadersView {
        add: joined(modifiers, added()),
        remove: joined(modifiers, taken_out()),
        set: joined(modifiers, put_in_place()),
    }
}

fn adding(modifier: &HeaderModifier) -> (r: Vec<HttpHeader>)
    ensures
        r.deep_view() == added()(modifier.deep_view()),
{
    match get_add_headers(Some(modifier)) {
        Some(headers) => headers.dup(),
        None => or_no_items(&None),
    }
}

fn removing(modifier: &HeaderModifier) -> (r: Vec<String>)
    ensures
        r.deep_view() == taken_out()(modifier.deep_view()),
{
    match get_remove_headers(Some(modifier)) {
        Some(headers) => headers.dup(),
        None => or_no_items(&None),
    }
}

fn setting(modifier: &HeaderModifier) -> (r: Vec<HttpHeader>)
    ensures
        r.deep_view() == put_in_place()(modifier.deep_view()),
{
    match get_set_headers(Some(modifier)) {
        Some(headers) => headers.dup(),
        None => or_no_items(&None),
    }
}

fn collect_headers(modifiers: &Vec<HeaderModifier>) -> (r: FilterHeaders)
    ensures
        r.deep_view() == headers_of(modifiers.deep_view()),
{
    FilterHeaders {
        add: join_list(modifiers, adding, Ghost(added())),
        remove: join_list(modifiers, removing, Ghost(taken_out())),
        set: join_list(modifiers, setting, Ghost(put_in_place())),
    }
}

/// A rule of an HTTP route.
#[derive(Debug, PartialEq, Eq)]
pub struct HTTPRoutingRule {
    pub name: String,
    pub backends: Vec<Backend>,
    pub matching_rules: Vec<RouteMatch>,
    pub filters: Vec<HTTPRouteFilter>,
}

/// What a [`HTTPRoutingRule`] holds.
#[verifier::ext_equal]
pub struct HTTPRoutingRuleView {
    pub name: Seq<char>,
    pub backends: Seq<BackendView>,
    pub matching_rules: Seq<RouteMatchView>,
    pub filters: Seq<HTTPRouteFilterView>,
}

impl DeepView for HTTPRoutingRule {
    type V = HTTPRoutingRuleView;

    open spec fn deep_view(&self) -> HTTPRoutingRuleView {
        HTTPRoutingRuleView {
            name: self.name.deep_view(),
            backends: self.backends.deep_view(),
            matching_rules: self.matching_rules.deep_view(),
            filters: self.filters.deep_view(),
        }
    }
}

impl Model for HTTPRoutingRule {
    fn dup(&self) -> (r: Self) {
        HTTPRoutingRule {
            name: self.name.dup(),
            backends: self.backends.dup(),
            matching_rules: self.matching_rules.dup(),
            filters: self.filters.dup(),
        }
    }

    fn same(&self, other: &Self) -> (r: bool) {
        self.name.same(&other.name)
            && self.backends.same(&other.backends)
            && self.matching_rules.same(&other.matching_rules)
            && self.filters.same(&other.filters)
    }
}

/// A rule of a route, where there are no routes but HTTP routes.
pub type RoutingRule = HTTPRoutingRule;

/// The modifier of the headers of a request that a filter is, if it is one.
pub open spec fn http_modifier() -> spec_fn(HTTPRouteFilterView) -> Option<HeaderModifierView> {
    |filter: HTTPRouteFilterView|
        if filter.filter_type == FilterType::RequestHeaderModifier {
            filter.request_header_modifier
        } else {
            None
        }
}

/// The redirection that a filter is, if it is one.
pub open spec fn redirection() -> spec_fn(HTTPRouteFilterView) -> Option<RequestRedirectView> {
    |filter: HTTPRouteFilterView|
        if filter.filter_type == FilterType::RequestRedirect {
            filter.request_redirect
        } else {
            None
        }
}

impl HTTPRoutingRuleView {
    /// What the filters do to the headers of a request.
    pub open spec fn headers(self) -> FilterHeadersView {
        headers_of(chosen(self.filters, http_modifier()))
    }

    /// The first redirection among the filters.
    pub open spec fn redirect(self) -> Option<RequestRedirectView> {
        let redirects = chosen(self.filters, redirection());
        if redirects.len() > 0 {
            Some(redirects[0])
        } else {
            None
        }
    }
}

fn modifier_of_http(filter: &HTTPRouteFilter) -> (r: Option<HeaderModifier>)
    ensures
        r.deep_view() == http_modifier()(filter.deep_view()),
{
    if matches!(filter.filter_type, FilterType::RequestHeaderModifier) {
        filter.request_header_modifier.dup()
    } else {
        None
    }
}

fn redirection_of(filter: &HTTPRouteFilter) -> (r: Option<RequestRedirect>)
    ensures
        r.deep_view() == redirection()(filter.deep_view()),
{
    if matches!(filter.filter_type, FilterType::RequestRedirect) {
        filter.request_redirect.dup()
    } else {
        None
    }
}

impl HTTPRoutingRule {
    /// What the filters do to the headers of a request.
    pub fn filter_headers(&self) -> (r: FilterHeaders)
        ensures
            r.deep_view() == self.deep_view().headers(),
    {
        let modifiers = choose_list(&self.filters, modifier_of_http, Ghost(http_modifier()));
        collect_headers(&modifiers)
    }

    /// The first redirection among the filters.
    pub fn redirect_filter(&self) -> (r: Option<RequestRedirect>)
        ensures
            r.deep_view() == self.deep_view().redirect(),
    {
        let redirects = choose_list(&self.filters, redirection_of, Ghost(redirection()));
        if redirects.len() > 0 {
            Some(redirects[0].dup())
        } else {
            None
        }
    }
}

/// A rule of a gRPC route.
#[derive(Debug, PartialEq, Eq)]
pub struct GRPCRoutingRule {
    pub name: String,
    pub backends: Vec<Backend>,
    pub matching_rules: Vec<GRPCRouteMatch>,
    pub filters: Vec<GRPCRouteFilter>,
}

/// What a [`GRPCRoutingRule`] holds.
#[verifier::ext_equal]
pub struct GRPCRoutingRuleView {
    pub name: Seq<char>,
    pub backends: Seq<BackendView>,
    pub matching_rules: Seq<GRPCRouteMatchView>,
    pub filters: Seq<GRPCRouteFilterView>,
}

impl DeepView for GRPCRoutingRule {
    type V = GRPCRoutingRuleView;

    open spec fn deep_view(&self) -> GRPCRoutingRuleView {
        GRPCRoutingRuleView {
            name: self.name.deep_view(),
            backends: self.backends.deep_view(),
            matching_rules: self.matching_rules.deep_view(),
            filters: self.filters.deep_view(),
        }
    }
}

impl Model for GRPCRoutingRule {
    fn dup(&self) -> (r: Self) {
        GRPCRoutingRule {
            name: self.name.dup(),
            backends: self.backends.dup(),
            matching_rules: self.matching_rules.dup(),
            filters: self.filters.dup(),
        }
    }

    fn same(&self, other: &Self) -> (r: bool) {
        self.name.same(&other.name)
            && self.backends.same(&other.backends)
            && self.matching_rules.same(&other.matching_rules)
            && self.filters.same(&other.filters)
    }
}

/// The modifier of the headers of a request that a filter is, if it is one.
pub open spec fn grpc_modifier() -> spec_fn(GRPCRouteFilterView) -> Option<HeaderModifierView> {
    |filter: GRPCRouteFilterView|
        if filter.filter_type == FilterType::RequestHeaderModifier {
            filter.request_header_modifier
        } else {
            None
        }
}

impl GRPCRoutingRuleView {
    /// What the filters do to the headers of a request.
    pub open spec fn headers(self) -> FilterHeadersView {
        headers_of(chosen(self.filters, grpc_modifier()))
    }
}

fn modifier_of_grpc(filter: &GRPCRouteFilter) -> (r: Option<HeaderModifier>)
    ensures
        r.deep_view() == grpc_modifier()(filter.deep_view()),
{
    if matches!(filter.filter_type, FilterType::RequestHeaderModifier) {
        filter.request_header_modifier.dup()
    } else {
        None
    }
}

impl GRPCRoutingRule {
    /// What the filters do to the headers of a request.
    pub fn filter_headers(&self) -> (r: FilterHeaders)
        ensures
            r.deep_view() == self.deep_view().headers(),
    {
        let modifiers = choose_list(&self.filters, modifier_of_grpc, Ghost(grpc_modifier()));
        collect_headers(&modifiers)
    }
}

/// One way in which an HTTP route takes requests: a match with the backends of its rule.
#[derive(Debug, PartialEq, Eq)]
pub struct HTTPEffectiveRoutingRule {
    pub route_matcher: RouteMatch,
    pub backends: Vec<Backend>,
    pub name: String,
    pub hostnames: Vec<String>,
    pub request_headers: FilterHeaders,
    pub response_headers: FilterHeaders,
    pub redirect_filter: Option<RequestRedirect>,
}

/// What a [`HTTPEffectiveRoutingRule`] holds.
#[verifier::ext_equal]
pub struct HTTPEffectiveRoutingRuleView {
    pub route_matcher: RouteMatchView,
    pub backends: Seq<BackendView>,
    pub name: Seq<char>,
    pub hostnames: Seq<Seq<char>>,
    pub request_headers: FilterHeadersView,
    pub response_headers: FilterHeadersView,
    pub redirect_filter: Option<RequestRedirectView>,
}

impl DeepView for HTTPEffectiveRoutingRule {
    type V = HTTPEffectiveRoutingRuleView;

    open spec fn deep_view(&self) -> HTTPEffectiveRoutingRuleView {
        HTTPEffectiveRoutingRuleView {
            route_matcher: self.route_matcher.deep_view(),
            backends: self.backends.deep_view(),
            name: self.name.deep_view(),
            hostnames: self.hostnames.deep_view(),
            request_headers: self.request_headers.deep_view(),
            response_headers: self.response_headers.deep_view(),
            redirect_filter: self.redirect_filter.deep_view(),
        }
    }
}

impl Model for HTTPEffectiveRoutingRule {
    fn dup(&self) -> (r: Self) {
        HTTPEffectiveRoutingRule {
            route_matcher: self.route_matcher.dup(),
            backends: self.backends.dup(),
            name: self.name.dup(),
            hostnames: self.hostnames.dup(),
            request_headers: self.request_headers.dup(),
            response_headers: self.response_headers.dup(),
            redirect_filter: self.redirect_filter.dup(),
        }
    }

    fn same(&self, other: &Self) -> (r: bool) {
        self.route_matcher.same(&other.route_matcher)
            && self.backends.same(&other.backends)
            && self.name.same(&other.name)
            && self.hostnames.same(&other.hostnames)
            && self.request_headers.same(&other.request_headers)
            && self.response_headers.same(&other.response_headers)
            && self.redirect_filter.same(&other.redirect_filter)
    }
}

/// One way in which a route takes requests, where there are no routes but HTTP routes.
pub type EffectiveRoutingRule = HTTPEffectiveRoutingRule;

impl Ranked for HTTPEffectiveRoutingRule {
    open spec fn rank(a: HTTPEffectiveRoutingRuleView, b: HTTPEffectiveRoutingRuleView) -> Rank {
        match_rank(a.route_matcher, b.route_matcher)
    }

    proof fn rank_reflexive(a: HTTPEffectiveRoutingRuleView) {
        <RouteMatch as Ranked>::rank_reflexive(a.route_matcher);
    }

    proof fn rank_flips(a: HTTPEffectiveRoutingRuleView, b: HTTPEffectiveRoutingRuleView) {
        <RouteMatch as Ranked>::rank_flips(a.route_matcher, b.route_matcher);
    }

    proof fn rank_chains(
        a: HTTPEffectiveRoutingRuleView,
        b: HTTPEffectiveRoutingRuleView,
        c: HTTPEffectiveRoutingRuleView,
    ) {
        <RouteMatch as Ranked>::rank_chains(a.route_matcher, b.route_matcher, c.route_matcher);
    }

    fn against(&self, other: &Self) -> (r: Rank) {
        self.route_matcher.against(&other.route_matcher)
    }
}

impl PartialOrd for HTTPEffectiveRoutingRule {
    fn partial_cmp(&self, other: &Self) -> (r: Option<Ordering>) {
        Some(self.against(other).to_named())
    }
}

impl PartialOrdSpecImpl for HTTPEffectiveRoutingRule {
    open spec fn obeys_partial_cmp_spec() -> bool {
        true
    }

    open spec fn partial_cmp_spec(&self, other: &Self) -> Option<Ordering> {
        Some(
            match_rank(self.route_matcher.deep_view(), other.route_matcher.deep_view()).named(),
        )
    }
}

/// One way in which a gRPC route takes requests: a match with the backends of its rule.
#[derive(Debug, PartialEq, Eq)]
pub struct GRPCEffectiveRoutingRule {
    pub route_matcher: GRPCRouteMatch,
    pub backends: Vec<Backend>,
    pub name: String,
    pub hostnames: Vec<String>,
    pub request_headers: FilterHeaders,
    pub response_headers: FilterHeaders,
}

/// What a [`GRPCEffectiveRoutingRule`] holds.
#[verifier::ext_equal]
pub struct GRPCEffectiveRoutingRuleView {
    pub route_matcher: GRPCRouteMatchView,
    pub backends: Seq<BackendView>,
    pub name: Seq<char>,
    pub hostnames: Seq<Seq<char>>,
    pub request_headers: FilterHeadersView,
    pub response_headers: FilterHeadersView,
}

impl DeepView for GRPCEffectiveRoutingRule {
    type V = GRPCEffectiveRoutingRuleView;

    open spec fn deep_view(&self) -> GRPCEffectiveRoutingRuleView {
        GRPCEffectiveRoutingRuleView {
            route_matcher: self.route_matcher.deep_view(),
            backends: self.backends.deep_view(),
            name: self.name.deep_view(),
            hostnames: self.hostnames.deep_view(),
            request_headers: self.request_headers.deep_view(),
            response_headers: self.response_headers.deep_view(),
        }
    }
}

impl Model for GRPCEffectiveRoutingRule {
    fn dup(&self) -> (r: Self) {
        GRPCEffectiveRoutingRule {
            route_matcher: self.route_matcher.dup(),
            backends: self.backends.dup(),
            name: self.name.dup(),
            hostnames: self.hostnames.dup(),
            request_headers: self.request_headers.dup(),
            response_headers: self.response_headers.dup(),
        }
    }

    fn same(&self, other: &Self) -> (r: bool) {
        self.route_matcher.same(&other.route_matcher)
            && self.backends.same(&other.backends)
            && self.name.same(&other.name)
            && self.hostnames.same(&other.hostnames)
            && self.request_headers.same(&other.request_headers)
            && self.response_headers.same(&other.response_headers)
    }
}

impl Ranked for GRPCEffectiveRoutingRule {
    open spec fn rank(a: GRPCEffectiveRoutingRuleView, b: GRPCEffectiveRoutingRuleView) -> Rank {
        grpc_match_rank(a.route_matcher, b.route_matcher)
    }

    proof fn rank_reflexive(a: GRPCEffectiveRoutingRuleView) {
        <GRPCRouteMatch as Ranked>::rank_reflexive(a.route_matcher);
    }

    proof fn rank_flips(a: GRPCEffectiveRoutingRuleView, b: GRPCEffectiveRoutingRuleView) {
        <GRPCRouteMatch as Ranked>::rank_flips(a.route_matcher, b.route_matcher);
    }

    proof fn rank_chains(
        a: GRPCEffectiveRoutingRuleView,
        b: GRPCEffectiveRoutingRuleView,
        c: GRPCEffectiveRoutingRuleView,
    ) {
        <GRPCRouteMatch as Ranked>::rank_chains(a.route_matcher, b.route_matcher, c.route_matcher);
    }

    fn against(&self, other: &Self) -> (r: Rank) {
        self.route_matcher.against(&other.route_matcher)
    }
}

impl PartialOrd for GRPCEffectiveRoutingRule {
    fn partial_cmp(&self, other: &Self) -> (r: Option<Ordering>) {
        Some(self.against(other).to_named())
    }
}

impl PartialOrdSpecImpl for GRPCEffectiveRoutingRule {
    open spec fn obeys_partial_cmp_spec() -> bool {
        true
    }

    open spec fn partial_cmp_spec(&self, other: &Self) -> Option<Ordering> {
        Some(
            grpc_match_rank(
                self.route_matcher.deep_view(),
                other.route_matcher.deep_view(),
            ).named(),
        )
    }
}

/// The rules of an HTTP route, and the ways in which it takes requests.
#[derive(Debug, PartialEq, Eq)]
pub struct HTTPRoutingConfiguration {
    pub routing_rules: Vec<HTTPRoutingRule>,
    pub effective_routing_rules: Vec<HTTPEffectiveRoutingRule>,
}

/// What a [`HTTPRoutingConfiguration`] holds.
#[verifier::ext_equal]
pub struct HTTPRoutingConfigurationView {
    pub routing_rules: Seq<HTTPRoutingRuleView>,
    pub effective_routing_rules: Seq<HTTPEffectiveRoutingRuleView>,
}

impl DeepView for HTTPRoutingConfiguration {
    type V = HTTPRoutingConfigurationView;

    open spec fn deep_view(&self) -> HTTPRoutingConfigurationView {
        HTTPRoutingConfigurationView {
            routing_rules: self.routing_rules.deep_view(),
            effective_routing_rules: self.effective_routing_rules.deep_view(),
        }
    }
}

impl Model for HTTPRoutingConfiguration {
    fn dup(&self) -> (r: Self) {
        HTTPRoutingConfiguration {
            routing_rules: self.routing_rules.dup(),
            effective_routing_rules: self.effective_routing_rules.dup(),
        }
    }

    fn same(&self, other: &Self) -> (r: bool) {
        self.routing_rules.same(&other.routing_rules)
            && self.effective_routing_rules.same(&other.effective_routing_rules)
    }
}

/// The rules of a gRPC route, and the ways in which it takes requests.
#[derive(Debug, PartialEq, Eq)]
pub struct GRPCRoutingConfiguration {
    pub routing_rules: Vec<GRPCRoutingRule>,
    pub effective_routing_rules: Vec<GRPCEffectiveRoutingRule>,
}

/// What a [`GRPCRoutingConfiguration`] holds.
#[verifier::ext_equal]
pub struct GRPCRoutingConfigurationView {
    pub routing_rules: Seq<GRPCRoutingRuleView>,
    pub effective_routing_rules: Seq<GRPCEffectiveRoutingRuleView>,
}

impl DeepView for GRPCRoutingConfiguration {
    type V = GRPCRoutingConfigurationView;

    open spec fn deep_view(&self) -> GRPCRoutingConfigurationView {
        GRPCRoutingConfigurationView {
            routing_rules: self.routing_rules.deep_view(),
            effective_routing_rules: self.effective_routing_rules.deep_view(),
        }
    }
}

impl Model for GRPCRoutingConfiguration {
    fn dup(&self) -> (r: Self) {
        GRPCRoutingConfiguration {
            routing_rules: self.routing_rules.dup(),
            effective_routing_rules: self.effective_routing_rules.dup(),
        }
    }

    fn same(&self, other: &Self) -> (r: bool) {
        self.routing_rules.same(&other.routing_rules)
            && self.effective_routing_rules.same(&other.effective_routing_rules)
    }
}

/// What a route is made of, by its type.
#[derive(Debug, PartialEq, Eq)]
pub enum RouteType {
    Http(HTTPRoutingConfiguration),
    Grpc(GRPCRoutingConfiguration),
}

/// What a [`RouteType`] holds.
#[verifier::ext_equal]
pub enum RouteTypeView {
    Http(HTTPRoutingConfigurationView),
    Grpc(GRPCRoutingConfigurationView),
}

impl DeepView for RouteType {
    type V = RouteTypeView;

    open spec fn deep_view(&self) -> RouteTypeView {
        match self {
            RouteType::Http(x0) => RouteTypeView::Http(x0.deep_view()),
            RouteType::Grpc(x0) => RouteTypeView::Grpc(x0.deep_view()),
        }
    }
}

impl Model for RouteType {
    fn dup(&self) -> (r: Self) {
        match self {
            RouteType::Http(x0) => RouteType::Http(x0.dup()),
            RouteType::Grpc(x0) => RouteType::Grpc(x0.dup()),
        }
    }

    fn same(&self, other: &Self) -> (r: bool) {
        match (self, other) {
            (RouteType::Http(x0), RouteType::Http(x0_)) => x0.same(x0_),
            (RouteType::Grpc(x0), RouteType::Grpc(x0_)) => x0.same(x0_),
            _ => false,
        }
    }
}

/// What a route is made of.
#[derive(Debug)]
pub struct RouteConfig {
    pub resource_key: ResourceKey,
    pub parents: Option<Vec<RouteParentRefs>>,
    pub hostnames: Vec<String>,
    pub resolution_status: ResolutionStatus,
    pub route_type: RouteType,
}

/// What a [`RouteConfig`] holds.
#[verifier::ext_equal]
pub struct RouteConfigView {
    pub resource_key: ResourceKeyView,
    pub parents: Option<Seq<RouteParentRefsView>>,
    pub hostnames: Seq<Seq<char>>,
    pub resolution_status: ResolutionStatusView,
    pub route_type: RouteTypeView,
}

impl DeepView for RouteConfig {
    type V = RouteConfigView;

    open spec fn deep_view(&self) -> RouteConfigView {
        RouteConfigView {
            resource_key: self.resource_key.deep_view(),
            parents: self.parents.deep_view(),
            hostnames: self.hostnames.deep_view(),
            resolution_status: self.resolution_status.deep_view(),
            route_type: self.route_type.deep_view(),
        }
    }
}

impl Model for RouteConfig {
    fn dup(&self) -> (r: Self) {
        RouteConfig {
            resource_key: self.resource_key.dup(),
            parents: self.parents.dup(),
            hostnames: self.hostnames.dup(),
            resolution_status: self.resolution_status.dup(),
            route_type: self.route_type.dup(),
        }
    }

    fn same(&self, other: &Self) -> (r: bool) {
        self.resource_key.same(&other.resource_key)
            && self.parents.same(&other.parents)
            && self.hostnames.same(&other.hostnames)
            && self.resolution_status.same(&other.resolution_status)
            && self.route_type.same(&other.route_type)
    }
}

/// A route.
#[derive(Debug)]
pub struct Route {
    pub config: RouteConfig,
}

/// What a [`Route`] holds.
#[verifier::ext_equal]
pub struct RouteView {
    pub config: RouteConfigView,
}

impl DeepView for Route {
    type V = RouteView;

    open spec fn deep_view(&self) -> RouteView {
        RouteView {
            config: self.config.deep_view(),
        }
    }
}

impl Model for Route {
    fn dup(&self) -> (r: Self) {
        Route {
            config: self.config.dup(),
        }
    }

    fn same(&self, other: &Self) -> (r: bool) {
        self.config.same(&other.config)
    }
}

/// The backends of an HTTP rule.
pub open spec fn http_rule_backends() -> spec_fn(HTTPRoutingRuleView) -> Seq<BackendView> {
    |rule: HTTPRoutingRuleView| rule.backends
}

/// The backends of a gRPC rule.
pub open spec fn grpc_rule_backends() -> spec_fn(GRPCRoutingRuleView) -> Seq<BackendView> {
    |rule: GRPCRoutingRuleView| rule.backends
}

impl RouteConfigView {
    /// The backends of all rules, rule by rule.
    pub open spec fn all_backends(self) -> Seq<BackendView> {
        match self.route_type {
            RouteTypeView::Http(configuration) => joined(
                configuration.routing_rules,
                http_rule_backends(),
            ),
            RouteTypeView::Grpc(configuration) => joined(
                configuration.routing_rules,
                grpc_rule_backends(),
            ),
        }
    }

    /// The ways in which the route takes requests, sorted.
    pub open spec fn reordered(self) -> RouteConfigView {
        RouteConfigView {
            route_type: match self.route_type {
                RouteTypeView::Http(configuration) => RouteTypeView::Http(
                    HTTPRoutingConfigurationView {
                        effective_routing_rules: sorted::<HTTPEffectiveRoutingRule>(
                            configuration.effective_routing_rules,
                        ),
                        ..configuration
                    },
                ),
                RouteTypeView::Grpc(configuration) => RouteTypeView::Grpc(
                    GRPCRoutingConfigurationView {
                        effective_routing_rules: sorted::<GRPCEffectiveRoutingRule>(
                            configuration.effective_routing_rules,
                        ),
                        ..configuration
                    },
                ),
            },
            ..self
        }
    }
}

fn backends_of_http(rule: &HTTPRoutingRule) -> (r: Vec<Backend>)
    ensures
        r.deep_view() == http_rule_backends()(rule.deep_view()),
{
    rule.backends.dup()
}

fn backends_of_grpc(rule: &GRPCRoutingRule) -> (r: Vec<Backend>)
    ensures
        r.deep_view() == grpc_rule_backends()(rule.deep_view()),
{
    rule.backends.dup()
}

impl RouteConfig {
    /// The backends of all rules, rule by rule.
    pub fn backends(&self) -> (r: Vec<Backend>)
        ensures
            r.deep_view() == self.deep_view().all_backends(),
    {
        match &self.route_type {
            RouteType::Http(configuration) => join_list(
                &configuration.routing_rules,
                backends_of_http,
                Ghost(http_rule_backends()),
            ),
            RouteType::Grpc(configuration) => join_list(
                &configuration.routing_rules,
                backends_of_grpc,
                Ghost(grpc_rule_backends()),
            ),
        }
    }

    /// Sorts the ways in which the route takes requests into the order in which they are tried.
    pub fn reorder_routes(&mut self)
        ensures
            final(self).deep_view() == old(self).deep_view().reordered(),
    {
        let route_type = match &self.route_type {
            RouteType::Http(configuration) => RouteType::Http(
                HTTPRoutingConfiguration {
                    routing_rules: configuration.routing_rules.dup(),
                    effective_routing_rules: sort(&configuration.effective_routing_rules),
                },
            ),
            RouteType::Grpc(configuration) => RouteType::Grpc(
                GRPCRoutingConfiguration {
                    routing_rules: configuration.routing_rules.dup(),
                    effective_routing_rules: sort(&configuration.effective_routing_rules),
                },
            ),
        };
        self.route_type = route_type;
    }
}

impl PartialEq for RouteConfig {
    fn eq(&self, other: &Self) -> (r: bool) {
        self.resource_key.same(&other.resource_key)
    }
}

impl PartialEqSpecImpl for RouteConfig {
    open spec fn obeys_eq_spec() -> bool {
        true
    }

    open spec fn eq_spec(&self, other: &Self) -> bool {
        self.resource_key.deep_view() == other.resource_key.deep_view()
    }
}

impl Eq for RouteConfig {

}

/// How two routes stand to each other: by their keys.
pub open spec fn route_rank(a: RouteView, b: RouteView) -> Rank {
    <ResourceKey as Ranked>::rank(a.config.resource_key, b.config.resource_key)
}

/// How two configurations of routes stand to each other: by their keys.
pub open spec fn config_rank(a: RouteConfigView, b: RouteConfigView) -> Rank {
    <ResourceKey as Ranked>::rank(a.resource_key, b.resource_key)
}

impl PartialOrd for RouteConfig {
    fn partial_cmp(&self, other: &Self) -> (r: Option<Ordering>) {
        Some(self.resource_key.against(&other.resource_key).to_named())
    }
}

impl PartialOrdSpecImpl for RouteConfig {
    open spec fn obeys_partial_cmp_spec() -> bool {
        true
    }

    open spec fn partial_cmp_spec(&self, other: &Self) -> Option<Ordering> {
        Some(config_rank(self.deep_view(), other.deep_view()).named())
    }
}

impl PartialEq for Route {
    fn eq(&self, other: &Self) -> (r: bool) {
        self.config.resource_key.same(&other.config.resource_key)
    }
}

impl PartialEqSpecImpl for Route {
    open spec fn obeys_eq_spec() -> bool {
        true
    }

    open spec fn eq_spec(&self, other: &Self) -> bool {
        self.config.resource_key.deep_view() == other.config.resource_key.deep_view()
    }
}

impl Eq for Route {

}

impl PartialOrd for Route {
    fn partial_cmp(&self, other: &Self) -> (r: Option<Ordering>) {
        Some(self.config.resource_key.against(&other.config.resource_key).to_named())
    }
}

impl PartialOrdSpecImpl for Route {
    open spec fn obeys_partial_cmp_spec() -> bool {
        true
    }

    open spec fn partial_cmp_spec(&self, other: &Self) -> Option<Ordering> {
        Some(route_rank(self.deep_view(), other.deep_view()).named())
    }
}

impl Route {
    /// The key of the route.
    pub fn resource_key(&self) -> (r: &ResourceKey)
        ensures
            *r == self.config.resource_key,
    {
        &self.config.resource_key
    }

    /// The name of the route.
    pub fn name(&self) -> (r: &str)
        ensures
            r@ == self.config.resource_key.name@,
    {
        self.config.resource_key.name.as_str()
    }

    /// The namespace of the route.
    pub fn namespace(&self) -> (r: &String)
        ensures
            *r == self.config.resource_key.namespace,
    {
        &self.config.resource_key.namespace
    }

    /// The hostnames that the route takes requests for.
    pub fn hostnames(&self) -> (r: &Vec<String>)
        ensures
            *r == self.config.hostnames,
    {
        &self.config.hostnames
    }

    /// The parents that the route asks to be attached to.
    pub fn parents(&self) -> (r: Option<&Vec<RouteParentRefs>>)
        ensures
            r.deep_view() == self.deep_view().config.parents,
    {
        self.config.parents.as_ref()
    }

    /// The backends of all rules, rule by rule.
    pub fn backends(&self) -> (r: Vec<Backend>)
        ensures
            r.deep_view() == self.deep_view().config.all_backends(),
    {
        self.config.backends()
    }

    /// What the route is made of.
    pub fn config(&self) -> (r: &RouteConfig)
        ensures
            *r == self.config,
    {
        &self.config
    }

    /// Whether the references are resolved.
    pub fn resolution_status(&self) -> (r: &ResolutionStatus)
        ensures
            *r == self.config.resolution_status,
    {
        &self.config.resolution_status
    }

    /// The place of what the route is made of.
    pub fn config_mut(&mut self) -> (r: &mut RouteConfig)
        ensures
            *r == old(self).config,
            final(self).config == *final(r),
    {
        &mut self.config
    }

    /// The place of the status of the references.
    pub fn resolution_status_mut(&mut self) -> (r: &mut ResolutionStatus)
        ensures
            *r == old(self).config.resolution_status,
            final(self).config.resolution_status == *final(r),
            final(self).config.resource_key == old(self).config.resource_key,
            final(self).config.parents == old(self).config.parents,
            final(self).config.hostnames == old(self).config.hostnames,
            final(self).config.route_type == old(self).config.route_type,
    {
        &mut self.config.resolution_status
    }

    /// What the route is made of, by its type.
    pub fn route_type(&self) -> (r: &RouteType)
        ensures
            *r == self.config.route_type,
    {
        &self.config.route_type
    }
}

/// The host that a backend is reached at from a namespace.
pub open spec fn endpoint_of(backend: BackendReferenceView, namespace: Seq<char>) -> Seq<char> {
    let space = text_or(backend.namespace, namespace);
    if space == DEFAULT_NAMESPACE_NAME@ {
        backend.name
    } else {
        backend.name + "."@ + space
    }
}

/// A number that may be left out, with what stands for it then.
pub open spec fn number_or(number: Option<i32>, otherwise: i32) -> i32 {
    match number {
        Some(number) => number,
        None => otherwise,
    }
}

/// The service that a backend of a route in a namespace is.
pub open spec fn service_of(
    backend: BackendReferenceView,
    namespace: Seq<char>,
) -> ServiceTypeConfigView {
    ServiceTypeConfigView {
        resource_key: ResourceKeyView::of_backend(backend, namespace),
        endpoint: endpoint_of(backend, namespace),
        port: number_or(backend.port, 0),
        effective_port: number_or(backend.port, 0),
        weight: number_or(backend.weight, 1),
    }
}

/// The pool that a backend of a route in a namespace is: nothing is known yet of how it is
/// configured and of its endpoints.
pub open spec fn pool_of(
    backend: BackendReferenceView,
    namespace: Seq<char>,
) -> InferencePoolTypeConfigView {
    InferencePoolTypeConfigView {
        resource_key: ResourceKeyView {
            group: DEFAULT_INFERENCE_GROUP_NAME@,
            ..ResourceKeyView::of_backend(backend, namespace)
        },
        endpoint: endpoint_of(backend, namespace),
        port: number_or(backend.port, 0),
        effective_port: number_or(backend.port, 0),
        target_ports: seq![number_or(backend.port, 0)],
        weight: number_or(backend.weight, 1),
        inference_config: None,
        endpoints: None,
    }
}

/// The backend that an HTTP route in a namespace refers to: a service where no kind is given.
pub open spec fn http_backend(namespace: Seq<char>) -> spec_fn(BackendReferenceView) -> BackendView {
    |backend: BackendReferenceView|
        if backend.kind is None || backend.kind == Some("Service"@) {
            BackendView::Maybe(BackendTypeView::Service(service_of(backend, namespace)))
        } else if backend.kind == Some("InferencePool"@) {
            BackendView::Maybe(BackendTypeView::InferencePool(pool_of(backend, namespace)))
        } else {
            BackendView::Invalid(BackendTypeView::Invalid(service_of(backend, namespace)))
        }
}

/// The backend that a gRPC route in a namespace refers to: a service where no kind is given.
pub open spec fn grpc_backend(namespace: Seq<char>) -> spec_fn(BackendReferenceView) -> BackendView {
    |backend: BackendReferenceView|
        if backend.kind is None || backend.kind == Some("Service"@) {
            BackendView::Maybe(BackendTypeView::Service(service_of(backend, namespace)))
        } else {
            BackendView::Invalid(BackendTypeView::Invalid(service_of(backend, namespace)))
        }
}

fn host_of(backend: &BackendReference, namespace: &str) -> (r: String)
    ensures
        r@ == endpoint_of(backend.deep_view(), namespace@),
{
    let space = or_text(&backend.namespace, namespace);
    if text_is(space.as_str(), DEFAULT_NAMESPACE_NAME) {
        backend.name.dup()
    } else {
        cat3(backend.name.as_str(), ".", space.as_str())
    }
}

/// Computes `number_or`.
pub fn or_number(number: &Option<i32>, otherwise: i32) -> (r: i32)
    ensures
        r == number_or(*number, otherwise),
{
    match number {
        Some(number) => *number,
        None => otherwise,
    }
}

impl ServiceTypeConfig {
    /// The service that a backend of a route in a namespace is.
    pub fn of_reference(backend: &BackendReference, namespace: &str) -> (r: Self)
        ensures
            r.deep_view() == service_of(backend.deep_view(), namespace@),
    {
        ServiceTypeConfig {
            resource_key: ResourceKey::from((backend, namespace.to_owned())),
            endpoint: host_of(backend, namespace),
            port: or_number(&backend.port, 0),
            effective_port: or_number(&backend.port, 0),
            weight: or_number(&backend.weight, 1),
        }
    }
}

impl InferencePoolTypeConfig {
    /// The pool that a backend of a route in a namespace is.
    pub fn of_reference(backend: &BackendReference, namespace: &str) -> (r: Self)
        ensures
            r.deep_view() == pool_of(backend.deep_view(), namespace@),
    {
        let key = ResourceKey::from((backend, namespace.to_owned()));
        let target_ports: Vec<i32> = vec![or_number(&backend.port, 0)];
        assert(target_ports.deep_view() =~= seq![number_or(backend.port, 0)]);
        InferencePoolTypeConfig {
            resource_key: ResourceKey { group: DEFAULT_INFERENCE_GROUP_NAME.to_owned(), ..key },
            endpoint: host_of(backend, namespace),
            port: or_number(&backend.port, 0),
            effective_port: or_number(&backend.port, 0),
            target_ports,
            weight: or_number(&backend.weight, 1),
            inference_config: None,
            endpoints: None,
        }
    }
}

fn kind_is(kind: &Option<String>, name: &str) -> (r: bool)
    ensures
        r == (kind.deep_view() == Some(name@)),
{
    match kind {
        Some(kind) => text_is(kind.as_str(), name),
        None => false,
    }
}

fn backend_of_http(backend: &BackendReference, namespace: &str) -> (r: Backend)
    ensures
        r.deep_view() == http_backend(namespace@)(backend.deep_view()),
{
    if backend.kind.is_none() || kind_is(&backend.kind, "Service") {
        Backend::Maybe(BackendType::Service(ServiceTypeConfig::of_reference(backend, namespace)))
    } else if kind_is(&backend.kind, "InferencePool") {
        Backend::Maybe(
            BackendType::InferencePool(InferencePoolTypeConfig::of_reference(backend, namespace)),
        )
    } else {
        Backend::Invalid(BackendType::Invalid(ServiceTypeConfig::of_reference(backend, namespace)))
    }
}

fn backend_of_grpc(backend: &BackendReference, namespace: &str) -> (r: Backend)
    ensures
        r.deep_view() == grpc_backend(namespace@)(backend.deep_view()),
{
    if backend.kind.is_none() || kind_is(&backend.kind, "Service") {
        Backend::Maybe(BackendType::Service(ServiceTypeConfig::of_reference(backend, namespace)))
    } else {
        Backend::Invalid(BackendType::Invalid(ServiceTypeConfig::of_reference(backend, namespace)))
    }
}

/// The rule of an HTTP route that a rule of the cluster is, by its place.
pub open spec fn http_rule(name: Seq<char>, namespace: Seq<char>) -> spec_fn(
    int,
    HTTPRouteRuleView,
) -> HTTPRoutingRuleView {
    |i: int, rule: HTTPRouteRuleView|
        HTTPRoutingRuleView {
            name: name + "-"@ + decimal(i),
            backends: list_or_none(rule.backend_refs).map_values(http_backend(namespace)),
            matching_rules: list_or_none(rule.matches),
            filters: list_or_none(rule.filters),
        }
}

/// The rule of a gRPC route that a rule of the cluster is, by its place.
pub open spec fn grpc_rule(name: Seq<char>, namespace: Seq<char>) -> spec_fn(
    int,
    GRPCRouteRuleView,
) -> GRPCRoutingRuleView {
    |i: int, rule: GRPCRouteRuleView|
        GRPCRoutingRuleView {
            name: name + "-"@ + decimal(i),
            backends: list_or_none(rule.backend_refs).map_values(grpc_backend(namespace)),
            matching_rules: list_or_none(rule.matches),
            filters: list_or_none(rule.filters),
        }
}

fn rule_of_http(i: usize, rule: &HTTPRouteRule, name: &str, namespace: &str) -> (r: HTTPRoutingRule)
    ensures
        r.deep_view() == http_rule(name@, namespace@)(i as int, rule.deep_view()),
{
    let references = or_no_items(&rule.backend_refs);
    let backends = map_list(
        &references,
        |b: &BackendReference| -> (y: Backend)
            ensures y.deep_view() == http_backend(namespace@)(b.deep_view())
        { backend_of_http(b, namespace) },
        Ghost(http_backend(namespace@)),
    );
    HTTPRoutingRule {
        name: cat3(name, "-", count_text(i).as_str()),
        backends,
        matching_rules: or_no_items(&rule.matches),
        filters: or_no_items(&rule.filters),
    }
}

fn rule_of_grpc(i: usize, rule: &GRPCRouteRule, name: &str, namespace: &str) -> (r: GRPCRoutingRule)
    ensures
        r.deep_view() == grpc_rule(name@, namespace@)(i as int, rule.deep_view()),
{
    let references = or_no_items(&rule.backend_refs);
    let backends = map_list(
        &references,
        |b: &BackendReference| -> (y: Backend)
            ensures y.deep_view() == grpc_backend(namespace@)(b.deep_view())
        { backend_of_grpc(b, namespace) },
        Ghost(grpc_backend(namespace@)),
    );
    GRPCRoutingRule {
        name: cat3(name, "-", count_text(i).as_str()),
        backends,
        matching_rules: or_no_items(&rule.matches),
        filters: or_no_items(&rule.filters),
    }
}

/// A host as it is written, where it spells no IP address.
pub open spec fn name_of_host() -> spec_fn(HostTextView) -> Option<Seq<char>> {
    |host: HostTextView|
        if host.octets is None {
            Some(host.text)
        } else {
            None
        }
}

/// The hostnames that a route takes requests for: those that spell no IP address, or any hostname
/// where none are given.
pub open spec fn route_hostnames(hostnames: Option<Seq<HostTextView>>) -> Seq<Seq<char>> {
    match hostnames {
        Some(hostnames) => chosen(hostnames, name_of_host()),
        None => seq![DEFAULT_ROUTE_HOSTNAME@],
    }
}

fn host_name(host: &HostText) -> (r: Option<String>)
    ensures
        r.deep_view() == name_of_host()(host.deep_view()),
{
    match &host.octets {
        None => Some(host.text.dup()),
        Some(_) => None,
    }
}

fn hostnames_of(hostnames: &Option<Vec<HostText>>) -> (r: Vec<String>)
    ensures
        r.deep_view() == route_hostnames(hostnames.deep_view()),
{
    match hostnames {
        Some(hostnames) => choose_list(hostnames, host_name, Ghost(name_of_host())),
        None => {
            let any: Vec<String> = vec![DEFAULT_ROUTE_HOSTNAME.to_owned()];
            assert(any.deep_view() =~= seq![DEFAULT_ROUTE_HOSTNAME@]);
            any
        },
    }
}

/// The match that stands for an HTTP rule without matches: every path.
pub open spec fn http_default_match() -> RouteMatchView {
    RouteMatchView {
        headers: Some(Seq::empty()),
        method: None,
        path: Some(
            PathMatchView { match_type: Some(PathMatchType::PathPrefix), value: Some("/"@) },
        ),
        query_params: None,
    }
}

/// The match that stands for an HTTP rule without matches: every path.
pub fn get_http_default_rules_matches() -> (r: RouteMatch)
    ensures
        r.deep_view() == http_default_match(),
{
    let r = RouteMatch {
        headers: Some(Vec::new()),
        method: None,
        path: Some(
            PathMatch {
                match_type: Some(PathMatchType::PathPrefix),
                value: Some("/".to_owned()),
            },
        ),
        query_params: None,
    };
    assert(r.headers->0.deep_view() =~= Seq::empty());
    r
}

/// The match that stands for a gRPC rule without matches: every method.
pub open spec fn grpc_default_match() -> GRPCRouteMatchView {
    GRPCRouteMatchView { headers: Some(Seq::empty()), method: None }
}

/// The match that stands for a gRPC rule without matches: every method.
pub fn get_grpc_default_rules_matches() -> (r: GRPCRouteMatch)
    ensures
        r.deep_view() == grpc_default_match(),
{
    let r = GRPCRouteMatch { headers: Some(Vec::new()), method: None };
    assert(r.headers->0.deep_view() =~= Seq::empty());
    r
}

/// The way in which an HTTP rule takes requests by one of its matches.
pub open spec fn http_effective(
    rule: HTTPRoutingRuleView,
    hostnames: Seq<Seq<char>>,
) -> spec_fn(RouteMatchView) -> HTTPEffectiveRoutingRuleView {
    |matcher: RouteMatchView|
        HTTPEffectiveRoutingRuleView {
            route_matcher: matcher,
            backends: rule.backends,
            name: rule.name,
            hostnames,
            request_headers: rule.headers(),
            response_headers: no_headers(),
            redirect_filter: rule.redirect(),
        }
}

/// The ways in which an HTTP rule takes requests, match by match.
pub open spec fn http_effective_rules(hostnames: Seq<Seq<char>>) -> spec_fn(
    HTTPRoutingRuleView,
) -> Seq<HTTPEffectiveRoutingRuleView> {
    |rule: HTTPRoutingRuleView| rule.matching_rules.map_values(http_effective(rule, hostnames))
}

fn effective_of_http(rule: &HTTPRoutingRule, hostnames: &Vec<String>) -> (r: Vec<
    HTTPEffectiveRoutingRule,
>)
    ensures
        r.deep_view() == http_effective_rules(hostnames.deep_view())(rule.deep_view()),
{
    let headers = rule.filter_headers();
    let redirect = rule.redirect_filter();
    map_list(
        &rule.matching_rules,
        |m: &RouteMatch| -> (y: HTTPEffectiveRoutingRule)
            ensures y.deep_view() == http_effective(rule.deep_view(), hostnames.deep_view())(
                m.deep_view(),
            )
        {
            HTTPEffectiveRoutingRule {
                route_matcher: m.dup(),
                backends: rule.backends.dup(),
                name: rule.name.dup(),
                hostnames: hostnames.dup(),
                request_headers: headers.dup(),
                response_headers: FilterHeaders::default(),
                redirect_filter: redirect.dup(),
            }
        },
        Ghost(http_effective(rule.deep_view(), hostnames.deep_view())),
    )
}

/// The way in which a gRPC rule takes requests by one of its matches.
pub open spec fn grpc_effective(
    rule: GRPCRoutingRuleView,
    hostnames: Seq<Seq<char>>,
) -> spec_fn(GRPCRouteMatchView) -> GRPCEffectiveRoutingRuleView {
    |matcher: GRPCRouteMatchView|
        GRPCEffectiveRoutingRuleView {
            route_matcher: matcher,
            backends: rule.backends,
            name: rule.name,
            hostnames,
            request_headers: rule.headers(),
            response_headers: no_headers(),
        }
}

/// The matches of a gRPC rule, or the one that stands for them where there are none.
pub open spec fn grpc_matches(rule: GRPCRoutingRuleView) -> Seq<GRPCRouteMatchView> {
    if rule.matching_rules.len() == 0 {
        seq![grpc_default_match()]
    } else {
        rule.matching_rules
    }
}

/// The ways in which a gRPC rule takes requests, match by match.
pub open spec fn grpc_effective_rules(hostnames: Seq<Seq<char>>) -> spec_fn(
    GRPCRoutingRuleView,
) -> Seq<GRPCEffectiveRoutingRuleView> {
    |rule: GRPCRoutingRuleView| grpc_matches(rule).map_values(grpc_effective(rule, hostnames))
}

fn effective_of_grpc(rule: &GRPCRoutingRule, hostnames: &Vec<String>) -> (r: Vec<
    GRPCEffectiveRoutingRule,
>)
    ensures
        r.deep_view() == grpc_effective_rules(hostnames.deep_view())(rule.deep_view()),
{
    let headers = rule.filter_headers();
    let mut matches = rule.matching_rules.dup();
    if matches.len() == 0 {
        matches.push(get_grpc_default_rules_matches());
        assert(matches.deep_view() =~= seq![grpc_default_match()]);
    }
    assert(matches.deep_view() == grpc_matches(rule.deep_view()));
    map_list(
        &matches,
        |m: &GRPCRouteMatch| -> (y: GRPCEffectiveRoutingRule)
            ensures y.deep_view() == grpc_effective(rule.deep_view(), hostnames.deep_view())(
                m.deep_view(),
            )
        {
            GRPCEffectiveRoutingRule {
                route_matcher: m.dup(),
                backends: rule.backends.dup(),
                name: rule.name.dup(),
                hostnames: hostnames.dup(),
                request_headers: headers.dup(),
                response_headers: FilterHeaders::default(),
            }
        },
        Ghost(grpc_effective(rule.deep_view(), hostnames.deep_view())),
    )
}

/// Whether a backend is of a kind that is not known.
pub open spec fn has_invalid(backends: Seq<BackendView>) -> bool {
    exists|i: int| 0 <= i < backends.len() && #[trigger] backends[i] is Invalid
}

fn any_invalid(backends: &Vec<Backend>) -> (r: bool)
    ensures
        r == has_invalid(backends.deep_view()),
{
    let mut i: usize = 0;
    while i < backends.len()
        invariant
            i <= backends.len(),
            forall|j: int| 0 <= j < i ==> !(#[trigger] backends.deep_view()[j] is Invalid),
        decreases backends.len() - i,
    {
        if matches!(backends[i], Backend::Invalid(_)) {
            assert(backends.deep_view()[i as int] is Invalid);
            return true;
        }
        i = i + 1;
    }
    false
}

/// The status of a route that was just read.
pub open spec fn first_status(backends: Seq<BackendView>) -> ResolutionStatusView {
    ResolutionStatusView::NotResolved(
        if has_invalid(backends) {
            NotResolvedReason::InvalidBackend
        } else {
            NotResolvedReason::Unknown
        },
    )
}

fn status_of(backends: &Vec<Backend>) -> (r: ResolutionStatus)
    ensures
        r.deep_view() == first_status(backends.deep_view()),
{
    if any_invalid(backends) {
        ResolutionStatus::NotResolved(NotResolvedReason::InvalidBackend)
    } else {
        ResolutionStatus::NotResolved(NotResolvedReason::Unknown)
    }
}

impl RouteView {
    /// The route that an HTTP route of the cluster is.
    pub open spec fn of_http(route: HTTPRouteView) -> RouteView {
        let key = ResourceKeyView::of_object(route.metadata, "HTTPRoute"@);
        let hostnames = route_hostnames(route.hostnames);
        let rules = list_or_none(route.rules).map(http_rule(key.name, key.namespace));
        RouteView {
            config: RouteConfigView {
                resource_key: key,
                parents: route.parent_refs,
                hostnames,
                resolution_status: first_status(joined(rules, http_rule_backends())),
                route_type: RouteTypeView::Http(
                    HTTPRoutingConfigurationView {
                        routing_rules: rules,
                        effective_routing_rules: joined(rules, http_effective_rules(hostnames)),
                    },
                ),
            },
        }
    }

    /// The route that a gRPC route of the cluster is.
    pub open spec fn of_grpc(route: GRPCRouteView) -> RouteView {
        let key = ResourceKeyView::of_object(route.metadata, "GRPCRoute"@);
        let hostnames = route_hostnames(route.hostnames);
        let rules = list_or_none(route.rules).map(grpc_rule(key.name, key.namespace));
        RouteView {
            config: RouteConfigView {
                resource_key: key,
                parents: route.parent_refs,
                hostnames,
                resolution_status: first_status(joined(rules, grpc_rule_backends())),
                route_type: RouteTypeView::Grpc(
                    GRPCRoutingConfigurationView {
                        routing_rules: rules,
                        effective_routing_rules: joined(rules, grpc_effective_rules(hostnames)),
                    },
                ),
            },
        }
    }
}

impl<'a> TryFrom<&'a HTTPRoute> for Route {
    type Error = ControllerError;

    /// Reads an HTTP route of the cluster. Every such route can be read.
    fn try_from(route: &'a HTTPRoute) -> (r: Result<Self, ControllerError>)
        ensures
            r is Ok,
            r->Ok_0.deep_view() == RouteView::of_http(route.deep_view()),
    {
        let key = ResourceKey::of_http_route(&route.metadata);
        let name = key.name.dup();
        let namespace = key.namespace.dup();
        let listed = or_no_items(&route.rules);
        let routing_rules = map_places(
            &listed,
            |i: usize, rule: &HTTPRouteRule| -> (y: HTTPRoutingRule)
                ensures y.deep_view() == http_rule(name@, namespace@)(i as int, rule.deep_view())
            { rule_of_http(i, rule, name.as_str(), namespace.as_str()) },
            Ghost(http_rule(name@, namespace@)),
        );
        let hostnames = hostnames_of(&route.hostnames);
        let effective_routing_rules = join_list(
            &routing_rules,
            |rule: &HTTPRoutingRule| -> (y: Vec<HTTPEffectiveRoutingRule>)
                ensures y.deep_view() == http_effective_rules(hostnames.deep_view())(
                    rule.deep_view(),
                )
            { effective_of_http(rule, &hostnames) },
            Ghost(http_effective_rules(hostnames.deep_view())),
        );
        let backends = join_list(&routing_rules, backends_of_http, Ghost(http_rule_backends()));
        let resolution_status = status_of(&backends);
        Ok(
            Route {
                config: RouteConfig {
                    resource_key: key,
                    parents: route.parent_refs.dup(),
                    hostnames,
                    resolution_status,
                    route_type: RouteType::Http(
                        HTTPRoutingConfiguration { routing_rules, effective_routing_rules },
                    ),
                },
            },
        )
    }
}

impl<'a> TryFromSpecImpl<&'a HTTPRoute> for Route {
    open spec fn obeys_try_from_spec() -> bool {
        false
    }

    open spec fn try_from_spec(route: &'a HTTPRoute) -> Result<Self, ControllerError> {
        arbitrary()
    }
}

impl<'a> TryFrom<&'a GRPCRoute> for Route {
    type Error = ControllerError;

    /// Reads a gRPC route of the cluster. Every such route can be read.
    fn try_from(route: &'a GRPCRoute) -> (r: Result<Self, ControllerError>)
        ensures
            r is Ok,
            r->Ok_0.deep_view() == RouteView::of_grpc(route.deep_view()),
    {
        let key = ResourceKey::of_grpc_route(&route.metadata);
        let name = key.name.dup();
        let namespace = key.namespace.dup();
        let listed = or_no_items(&route.rules);
        let routing_rules = map_places(
            &listed,
            |i: usize, rule: &GRPCRouteRule| -> (y: GRPCRoutingRule)
                ensures y.deep_view() == grpc_rule(name@, namespace@)(i as int, rule.deep_view())
            { rule_of_grpc(i, rule, name.as_str(), namespace.as_str()) },
            Ghost(grpc_rule(name@, namespace@)),
        );
        let hostnames = hostnames_of(&route.hostnames);
        let effective_routing_rules = join_list(
            &routing_rules,
            |rule: &GRPCRoutingRule| -> (y: Vec<GRPCEffectiveRoutingRule>)
                ensures y.deep_view() == grpc_effective_rules(hostnames.deep_view())(
                    rule.deep_view(),
                )
            { effective_of_grpc(rule, &hostnames) },
            Ghost(grpc_effective_rules(hostnames.deep_view())),
        );
        let backends = join_list(&routing_rules, backends_of_grpc, Ghost(grpc_rule_backends()));
        let resolution_status = status_of(&backends);
        Ok(
            Route {
                config: RouteConfig {
                    resource_key: key,
                    parents: route.parent_refs.dup(),
                    hostnames,
                    resolution_status,
                    route_type: RouteType::Grpc(
                        GRPCRoutingConfiguration { routing_rules, effective_routing_rules },
                    ),
                },
            },
        )
    }
}

impl<'a> TryFromSpecImpl<&'a GRPCRoute> for Route {
    open spec fn obeys_try_from_spec() -> bool {
        false
    }

    open spec fn try_from_spec(route: &'a GRPCRoute) -> Result<Self, ControllerError> {
        arbitrary()
    }
}

/// What filters do to the headers of a request is what the modifiers of requests among them do, and
/// nothing else: each header that such a filter adds, sets or removes is added, set or removed.
pub proof fn law_http_filters_modify(rule: HTTPRoutingRuleView, header: HttpHeaderView)
    ensures
        rule.headers().add.contains(header) <==> exists|i: int|
            0 <= i < rule.filters.len() && (#[trigger] rule.filters[i]).filter_type
                == FilterType::RequestHeaderModifier && rule.filters[i].request_header_modifier is Some
                && rule.filters[i].request_header_modifier->0.add is Some
                && rule.filters[i].request_header_modifier->0.add->0.contains(header),
        rule.headers().set.contains(header) <==> exists|i: int|
            0 <= i < rule.filters.len() && (#[trigger] rule.filters[i]).filter_type
                == FilterType::RequestHeaderModifier && rule.filters[i].request_header_modifier is Some
                && rule.filters[i].request_header_modifier->0.set is Some
                && rule.filters[i].request_header_modifier->0.set->0.contains(header),
        rule.headers().remove.contains(header.name) <==> exists|i: int|
            0 <= i < rule.filters.len() && (#[trigger] rule.filters[i]).filter_type
                == FilterType::RequestHeaderModifier && rule.filters[i].request_header_modifier is Some
                && rule.filters[i].request_header_modifier->0.remove is Some
                && rule.filters[i].request_header_modifier->0.remove->0.contains(header.name),
{
    let modifiers = chosen(rule.filters, http_modifier());
    assert forall|m: HeaderModifierView| #[trigger] modifiers.contains(m) <==> exists|i: int|
        0 <= i < rule.filters.len() && (#[trigger] rule.filters[i]).filter_type
            == FilterType::RequestHeaderModifier && rule.filters[i].request_header_modifier == Some(
            m,
        ) by {
        chosen_contains(rule.filters, http_modifier(), m);
        if modifiers.contains(m) {
            let i = choose|i: int|
                0 <= i < rule.filters.len() && #[trigger] http_modifier()(rule.filters[i]) == Some(m);
            assert(rule.filters[i].filter_type == FilterType::RequestHeaderModifier);
        }
        if exists|i: int|
            0 <= i < rule.filters.len() && (#[trigger] rule.filters[i]).filter_type
                == FilterType::RequestHeaderModifier && rule.filters[i].request_header_modifier
                == Some(m) {
            let i = choose|i: int|
                0 <= i < rule.filters.len() && (#[trigger] rule.filters[i]).filter_type
                    == FilterType::RequestHeaderModifier && rule.filters[i].request_header_modifier
                    == Some(m);
            assert(http_modifier()(rule.filters[i]) == Some(m));
        }
    }
    law_modifiers_modify(modifiers, header);
    if rule.headers().add.contains(header) {
        let j = choose|j: int|
            0 <= j < modifiers.len() && (#[trigger] modifiers[j]).add is Some
                && modifiers[j].add->0.contains(header);
        assert(modifiers.contains(modifiers[j]));
    }
    if rule.headers().set.contains(header) {
        let j = choose|j: int|
            0 <= j < modifiers.len() && (#[trigger] modifiers[j]).set is Some
                && modifiers[j].set->0.contains(header);
        assert(modifiers.contains(modifiers[j]));
    }
    if rule.headers().remove.contains(header.name) {
        let j = choose|j: int|
            0 <= j < modifiers.len() && (#[trigger] modifiers[j]).remove is Some
                && modifiers[j].remove->0.contains(header.name);
        assert(modifiers.contains(modifiers[j]));
    }
    assert forall|i: int|
        0 <= i < rule.filters.len() && (#[trigger] rule.filters[i]).filter_type
            == FilterType::RequestHeaderModifier && rule.filters[i].request_header_modifier is Some implies modifiers.contains(
        rule.filters[i].request_header_modifier->0,
    ) by {}
}

/// What filters do to the headers of a request is what the modifiers of requests among them do, and
/// nothing else: each header that such a filter adds, sets or removes is added, set or removed.
pub proof fn law_grpc_filters_modify(rule: GRPCRoutingRuleView, header: HttpHeaderView)
    ensures
        rule.headers().add.contains(header) <==> exists|i: int|
            0 <= i < rule.filters.len() && (#[trigger] rule.filters[i]).filter_type
                == FilterType::RequestHeaderModifier && rule.filters[i].request_header_modifier is Some
                && rule.filters[i].request_header_modifier->0.add is Some
                && rule.filters[i].request_header_modifier->0.add->0.contains(header),
        rule.headers().set.contains(header) <==> exists|i: int|
            0 <= i < rule.filters.len() && (#[trigger] rule.filters[i]).filter_type
                == FilterType::RequestHeaderModifier && rule.filters[i].request_header_modifier is Some
                && rule.filters[i].request_header_modifier->0.set is Some
                && rule.filters[i].request_header_modifier->0.set->0.contains(header),
        rule.headers().remove.contains(header.name) <==> exists|i: int|
            0 <= i < rule.filters.len() && (#[trigger] rule.filters[i]).filter_type
                == FilterType::RequestHeaderModifier && rule.filters[i].request_header_modifier is Some
                && rule.filters[i].request_header_modifier->0.remove is Some
                && rule.filters[i].request_header_modifier->0.remove->0.contains(header.name),
{
    let modifiers = chosen(rule.filters, grpc_modifier());
    assert forall|m: HeaderModifierView| #[trigger] modifiers.contains(m) <==> exists|i: int|
        0 <= i < rule.filters.len() && (#[trigger] rule.filters[i]).filter_type
            == FilterType::RequestHeaderModifier && rule.filters[i].request_header_modifier == Some(
            m,
        ) by {
        chosen_contains(rule.filters, grpc_modifier(), m);
        if modifiers.contains(m) {
            let i = choose|i: int|
                0 <= i < rule.filters.len() && #[trigger] grpc_modifier()(rule.filters[i]) == Some(m);
            assert(rule.filters[i].filter_type == FilterType::RequestHeaderModifier);
        }
        if exists|i: int|
            0 <= i < rule.filters.len() && (#[trigger] rule.filters[i]).filter_type
                == FilterType::RequestHeaderModifier && rule.filters[i].request_header_modifier
                == Some(m) {
            let i = choose|i: int|
                0 <= i < rule.filters.len() && (#[trigger] rule.filters[i]).filter_type
                    == FilterType::RequestHeaderModifier && rule.filters[i].request_header_modifier
                    == Some(m);
            assert(grpc_modifier()(rule.filters[i]) == Some(m));
        }
    }
    law_modifiers_modify(modifiers, header);
    if rule.headers().add.contains(header) {
        let j = choose|j: int|
            0 <= j < modifiers.len() && (#[trigger] modifiers[j]).add is Some
                && modifiers[j].add->0.contains(header);
        assert(modifiers.contains(modifiers[j]));
    }
    if rule.headers().set.contains(header) {
        let j = choose|j: int|
            0 <= j < modifiers.len() && (#[trigger] modifiers[j]).set is Some
                && modifiers[j].set->0.contains(header);
        assert(modifiers.contains(modifiers[j]));
    }
    if rule.headers().remove.contains(header.name) {
        let j = choose|j: int|
            0 <= j < modifiers.len() && (#[trigger] modifiers[j]).remove is Some
                && modifiers[j].remove->0.contains(header.name);
        assert(modifiers.contains(modifiers[j]));
    }
    assert forall|i: int|
        0 <= i < rule.filters.len() && (#[trigger] rule.filters[i]).filter_type
            == FilterType::RequestHeaderModifier && rule.filters[i].request_header_modifier is Some implies modifiers.contains(
        rule.filters[i].request_header_modifier->0,
    ) by {}
}

/// What modifiers do to headers is what each of them does.
pub proof fn law_modifiers_modify(modifiers: Seq<HeaderModifierView>, header: HttpHeaderView)
    ensures
        headers_of(modifiers).add.contains(header) <==> exists|j: int|
            0 <= j < modifiers.len() && (#[trigger] modifiers[j]).add is Some
                && modifiers[j].add->0.contains(header),
        headers_of(modifiers).set.contains(header) <==> exists|j: int|
            0 <= j < modifiers.len() && (#[trigger] modifiers[j]).set is Some
                && modifiers[j].set->0.contains(header),
        headers_of(modifiers).remove.contains(header.name) <==> exists|j: int|
            0 <= j < modifiers.len() && (#[trigger] modifiers[j]).remove is Some
                && modifiers[j].remove->0.contains(header.name),
{
    joined_contains(modifiers, added(), header);
    joined_contains(modifiers, put_in_place(), header);
    joined_contains(modifiers, taken_out(), header.name);
    assert forall|j: int| 0 <= j < modifiers.len() implies (#[trigger] added()(modifiers[j])).contains(
        header,
    ) == (modifiers[j].add is Some && modifiers[j].add->0.contains(header)) by {}
    assert forall|j: int| 0 <= j < modifiers.len() implies (#[trigger] put_in_place()(
        modifiers[j],
    )).contains(header) == (modifiers[j].set is Some && modifiers[j].set->0.contains(header)) by {}
    assert forall|j: int| 0 <= j < modifiers.len() implies (#[trigger] taken_out()(
        modifiers[j],
    )).contains(header.name) == (modifiers[j].remove is Some && modifiers[j].remove->0.contains(
        header.name,
    )) by {}
    if exists|j: int|
        0 <= j < modifiers.len() && (#[trigger] modifiers[j]).add is Some
            && modifiers[j].add->0.contains(header) {
        let j = choose|j: int|
            0 <= j < modifiers.len() && (#[trigger] modifiers[j]).add is Some
                && modifiers[j].add->0.contains(header);
        assert(added()(modifiers[j]).contains(header));
    }
    if exists|j: int|
        0 <= j < modifiers.len() && (#[trigger] modifiers[j]).set is Some
            && modifiers[j].set->0.contains(header) {
        let j = choose|j: int|
            0 <= j < modifiers.len() && (#[trigger] modifiers[j]).set is Some
                && modifiers[j].set->0.contains(header);
        assert(put_in_place()(modifiers[j]).contains(header));
    }
    if exists|j: int|
        0 <= j < modifiers.len() && (#[trigger] modifiers[j]).remove is Some
            && modifiers[j].remove->0.contains(header.name) {
        let j = choose|j: int|
            0 <= j < modifiers.len() && (#[trigger] modifiers[j]).remove is Some
                && modifiers[j].remove->0.contains(header.name);
        assert(taken_out()(modifiers[j]).contains(header.name));
    }
}

/// A rule of one modifier does to headers what the modifier does, in its order.
pub proof fn law_one_modifier(
    http: HTTPRoutingRuleView,
    grpc: GRPCRoutingRuleView,
    modifier: HeaderModifierView,
)
    ensures
        http.filters.len() == 1 && http.filters[0].filter_type == FilterType::RequestHeaderModifier
            && http.filters[0].request_header_modifier == Some(modifier) ==> {
            &&& modifier.add is Some ==> http.headers().add == modifier.add->0
            &&& modifier.set is Some ==> http.headers().set == modifier.set->0
            &&& modifier.remove is Some ==> http.headers().remove == modifier.remove->0
            &&& modifier.add is None ==> http.headers().add.len() == 0
            &&& modifier.set is None ==> http.headers().set.len() == 0
            &&& modifier.remove is None ==> http.headers().remove.len() == 0
        },
        grpc.filters.len() == 1 && grpc.filters[0].filter_type == FilterType::RequestHeaderModifier
            && grpc.filters[0].request_header_modifier == Some(modifier) ==> {
            &&& modifier.add is Some ==> grpc.headers().add == modifier.add->0
            &&& modifier.set is Some ==> grpc.headers().set == modifier.set->0
            &&& modifier.remove is Some ==> grpc.headers().remove == modifier.remove->0
            &&& modifier.add is None ==> grpc.headers().add.len() == 0
            &&& modifier.set is None ==> grpc.headers().set.len() == 0
            &&& modifier.remove is None ==> grpc.headers().remove.len() == 0
        },
{
    law_joined_of_one(modifier, added());
    law_joined_of_one(modifier, put_in_place());
    law_joined_of_one(modifier, taken_out());
    if http.filters.len() == 1 {
        assert(http.filters =~= seq![http.filters[0]]);
        law_chosen_of_one(http.filters[0], http_modifier());
    }
    if grpc.filters.len() == 1 {
        assert(grpc.filters =~= seq![grpc.filters[0]]);
        law_chosen_of_one(grpc.filters[0], grpc_modifier());
    }
}

/// Filters that do not modify requests leave their headers alone.
pub proof fn law_no_modifier(http: HTTPRoutingRuleView, grpc: GRPCRoutingRuleView)
    ensures
        (forall|i: int|
            0 <= i < http.filters.len() ==> (#[trigger] http.filters[i]).filter_type
                != FilterType::RequestHeaderModifier) ==> http.headers() == no_headers(),
        (forall|i: int|
            0 <= i < grpc.filters.len() ==> (#[trigger] grpc.filters[i]).filter_type
                != FilterType::RequestHeaderModifier) ==> grpc.headers() == no_headers(),
{
    let h = chosen(http.filters, http_modifier());
    if h.len() > 0 {
        assert(h.contains(h[0]));
        chosen_contains(http.filters, http_modifier(), h[0]);
    } else {
        assert(http.headers() =~= no_headers());
    }
    let g = chosen(grpc.filters, grpc_modifier());
    if g.len() > 0 {
        assert(g.contains(g[0]));
        chosen_contains(grpc.filters, grpc_modifier(), g[0]);
    } else {
        assert(grpc.headers() =~= no_headers());
    }
}

/// The first redirection among the filters is that of the rule; a rule without one does not redirect.
pub proof fn law_first_redirection(rule: HTTPRoutingRuleView)
    ensures
        rule.redirect() is Some <==> exists|i: int|
            0 <= i < rule.filters.len() && (#[trigger] rule.filters[i]).filter_type
                == FilterType::RequestRedirect && rule.filters[i].request_redirect is Some,
        forall|i: int|
            0 <= i < rule.filters.len() && (#[trigger] rule.filters[i]).filter_type
                == FilterType::RequestRedirect && rule.filters[i].request_redirect is Some && (forall|
                j: int,
            |
                0 <= j < i ==> (#[trigger] rule.filters[j]).filter_type
                    != FilterType::RequestRedirect || rule.filters[j].request_redirect is None)
                ==> rule.redirect() == rule.filters[i].request_redirect,
{
    let give = redirection();
    let all = chosen(rule.filters, give);
    if all.len() > 0 {
        assert(all.contains(all[0]));
        chosen_contains(rule.filters, give, all[0]);
        let i = choose|i: int|
            0 <= i < rule.filters.len() && #[trigger] give(rule.filters[i]) == Some(all[0]);
        assert(rule.filters[i].filter_type == FilterType::RequestRedirect);
    }
    if exists|i: int|
        0 <= i < rule.filters.len() && (#[trigger] rule.filters[i]).filter_type
            == FilterType::RequestRedirect && rule.filters[i].request_redirect is Some {
        let i = choose|i: int|
            0 <= i < rule.filters.len() && (#[trigger] rule.filters[i]).filter_type
                == FilterType::RequestRedirect && rule.filters[i].request_redirect is Some;
        let value = rule.filters[i].request_redirect->0;
        assert(give(rule.filters[i]) == Some(value));
        chosen_contains(rule.filters, give, value);
    }
    assert forall|i: int|
        0 <= i < rule.filters.len() && (#[trigger] rule.filters[i]).filter_type
            == FilterType::RequestRedirect && rule.filters[i].request_redirect is Some && (forall|
            j: int,
        |
            0 <= j < i ==> (#[trigger] rule.filters[j]).filter_type != FilterType::RequestRedirect
                || rule.filters[j].request_redirect is None) implies rule.redirect()
        == rule.filters[i].request_redirect by {
        let before = rule.filters.take(i);
        let one = seq![rule.filters[i]];
        let after = rule.filters.skip(i + 1);
        assert(rule.filters =~= (before + one) + after);
        law_chosen_of_both(before + one, after, give);
        law_chosen_of_both(before, one, give);
        law_chosen_of_one(rule.filters[i], give);
        if chosen(before, give).len() > 0 {
            let value = chosen(before, give)[0];
            assert(chosen(before, give).contains(value));
            chosen_contains(before, give, value);
            let j = choose|j: int| 0 <= j < before.len() && #[trigger] give(before[j]) == Some(value);
            assert(rule.filters[j] == before[j]);
        }
    }
}

/// A backend of no kind, or of the kind of services, is a service that is to be looked for; one of the
/// kind of pools is a pool, for HTTP alone; one of any other kind is not valid.
pub proof fn law_backend_by_kind(backend: BackendReferenceView, namespace: Seq<char>)
    ensures
        backend.kind is None || backend.kind == Some("Service"@) ==> {
            &&& http_backend(namespace)(backend) is Maybe
            &&& http_backend(namespace)(backend)->Maybe_0 is Service
            &&& grpc_backend(namespace)(backend) is Maybe
            &&& grpc_backend(namespace)(backend)->Maybe_0 is Service
        },
        backend.kind == Some("InferencePool"@) ==> {
            &&& http_backend(namespace)(backend) is Maybe
            &&& http_backend(namespace)(backend)->Maybe_0 is InferencePool
            &&& grpc_backend(namespace)(backend) is Invalid
        },
        backend.kind is Some && backend.kind->0 != "Service"@ && backend.kind->0 != "InferencePool"@
            ==> http_backend(namespace)(backend) is Invalid && grpc_backend(namespace)(
            backend,
        ) is Invalid,
{
    reveal_strlit("Service");
    reveal_strlit("InferencePool");
    assert("Service"@.len() != "InferencePool"@.len());
}

/// A service has the name and the namespace of the reference, or the namespace of the route; the port
/// and the weight of the reference, or 0 and 1; and is reached by its name, with the namespace where
/// that is not the default.
pub proof fn law_service_of_reference(backend: BackendReferenceView, namespace: Seq<char>)
    ensures
        ({
            let service = service_of(backend, namespace);
            let space = match backend.namespace {
                Some(given) => given,
                None => namespace,
            };
            &&& service.resource_key.name == backend.name
            &&& service.resource_key.namespace == space
            &&& backend.kind is Some ==> service.resource_key.kind == backend.kind->0
            &&& backend.port is Some ==> service.port == backend.port->0
            &&& backend.port is None ==> service.port == 0
            &&& service.effective_port == service.port
            &&& backend.weight is Some ==> service.weight == backend.weight->0
            &&& backend.weight is None ==> service.weight == 1
            &&& space == "default"@ ==> service.endpoint == backend.name
            &&& space != "default"@ ==> service.endpoint == backend.name + "."@ + space
        }),
        http_backend(namespace)(backend).typed() is Service ==> http_backend(namespace)(
            backend,
        ).typed()->Service_0 == service_of(backend, namespace),
        http_backend(namespace)(backend).typed() is Invalid ==> http_backend(namespace)(
            backend,
        ).typed()->Invalid_0 == service_of(backend, namespace),
        grpc_backend(namespace)(backend).typed() is Service ==> grpc_backend(namespace)(
            backend,
        ).typed()->Service_0 == service_of(backend, namespace),
{
}

/// A pool has the name, the namespace, the port and the weight that a service would have, the group of
/// pools, and its port as the one port to send requests to. Nothing else is known of it.
pub proof fn law_pool_of_reference(backend: BackendReferenceView, namespace: Seq<char>)
    ensures
        ({
            let pool = pool_of(backend, namespace);
            let service = service_of(backend, namespace);
            &&& pool.resource_key.group == "inference.networking.k8s.io"@
            &&& pool.resource_key.name == service.resource_key.name
            &&& pool.resource_key.namespace == service.resource_key.namespace
            &&& pool.resource_key.kind == service.resource_key.kind
            &&& pool.endpoint == service.endpoint
            &&& pool.port == service.port
            &&& pool.effective_port == service.port
            &&& pool.target_ports == seq![service.port]
            &&& pool.weight == service.weight
            &&& pool.inference_config is None
            &&& pool.endpoints is None
        }),
        backend.kind == Some("InferencePool"@) ==> http_backend(namespace)(backend)
            == BackendView::Maybe(BackendTypeView::InferencePool(pool_of(backend, namespace))),
{
    reveal_strlit("Service");
    reveal_strlit("InferencePool");
    assert("Service"@.len() != "InferencePool"@.len());
}

/// A route has the hostnames that spell no IP address, in their order; any hostname where none are
/// given.
pub proof fn law_route_hostnames(hostnames: Seq<HostTextView>, host: Seq<char>)
    ensures
        route_hostnames(None) == seq!["*"@],
        route_hostnames(Some(hostnames)).contains(host) <==> exists|i: int|
            0 <= i < hostnames.len() && (#[trigger] hostnames[i]).text == host
                && hostnames[i].octets is None,
        (forall|i: int| 0 <= i < hostnames.len() ==> (#[trigger] hostnames[i]).octets is None)
            ==> route_hostnames(Some(hostnames)) == Seq::new(
            hostnames.len(),
            |i: int| hostnames[i].text,
        ),
{
    chosen_contains(hostnames, name_of_host(), host);
    if route_hostnames(Some(hostnames)).contains(host) {
        let i = choose|i: int|
            0 <= i < hostnames.len() && #[trigger] name_of_host()(hostnames[i]) == Some(host);
        assert(hostnames[i].octets is None);
    }
    if exists|i: int|
        0 <= i < hostnames.len() && (#[trigger] hostnames[i]).text == host
            && hostnames[i].octets is None {
        let i = choose|i: int|
            0 <= i < hostnames.len() && (#[trigger] hostnames[i]).text == host
                && hostnames[i].octets is None;
        assert(name_of_host()(hostnames[i]) == Some(host));
    }
    if forall|i: int| 0 <= i < hostnames.len() ==> (#[trigger] hostnames[i]).octets is None {
        assert forall|i: int| 0 <= i < hostnames.len() implies #[trigger] name_of_host()(
            hostnames[i],
        ) is Some by {
            assert(hostnames[i].octets is None);
        }
        law_chosen_of_all(hostnames, name_of_host());
        assert forall|i: int| 0 <= i < hostnames.len() implies chosen(hostnames, name_of_host())[i]
            == hostnames[i].text by {
            assert(hostnames[i].octets is None);
        }
        assert(route_hostnames(Some(hostnames)) =~= Seq::new(
            hostnames.len(),
            |i: int| hostnames[i].text,
        ));
    }
}

/// A rule of a route is named by the route and its place. It has a backend for each reference, and the
/// matches and the filters, in their order.
pub proof fn law_rule_of_route(
    name: Seq<char>,
    namespace: Seq<char>,
    i: int,
    http: HTTPRouteRuleView,
    grpc: GRPCRouteRuleView,
)
    ensures
        http_rule(name, namespace)(i, http).name == name + "-"@ + decimal(i),
        grpc_rule(name, namespace)(i, grpc).name == name + "-"@ + decimal(i),
        http.backend_refs is Some ==> http_rule(name, namespace)(i, http).backends.len()
            == http.backend_refs->0.len() && forall|k: int|
            0 <= k < http.backend_refs->0.len() ==> #[trigger] http_rule(name, namespace)(
                i,
                http,
            ).backends[k] == http_backend(namespace)(http.backend_refs->0[k]),
        grpc.backend_refs is Some ==> grpc_rule(name, namespace)(i, grpc).backends.len()
            == grpc.backend_refs->0.len() && forall|k: int|
            0 <= k < grpc.backend_refs->0.len() ==> #[trigger] grpc_rule(name, namespace)(
                i,
                grpc,
            ).backends[k] == grpc_backend(namespace)(grpc.backend_refs->0[k]),
        http.backend_refs is None ==> http_rule(name, namespace)(i, http).backends.len() == 0,
        grpc.backend_refs is None ==> grpc_rule(name, namespace)(i, grpc).backends.len() == 0,
        http.matches is Some ==> http_rule(name, namespace)(i, http).matching_rules
            == http.matches->0,
        http.matches is None ==> http_rule(name, namespace)(i, http).matching_rules.len() == 0,
        grpc.matches is Some ==> grpc_rule(name, namespace)(i, grpc).matching_rules
            == grpc.matches->0,
        grpc.matches is None ==> grpc_rule(name, namespace)(i, grpc).matching_rules.len() == 0,
        http.filters is Some ==> http_rule(name, namespace)(i, http).filters == http.filters->0,
        grpc.filters is Some ==> grpc_rule(name, namespace)(i, grpc).filters == grpc.filters->0,
{
}

/// A rule takes requests in one way for each of its matches: with its name, backends, headers and
/// redirection, for the hostnames of the route. A gRPC rule without matches takes all requests.
pub proof fn law_ways_of_rule(
    http: HTTPRoutingRuleView,
    grpc: GRPCRoutingRuleView,
    hostnames: Seq<Seq<char>>,
)
    ensures
        http_effective_rules(hostnames)(http).len() == http.matching_rules.len(),
        forall|k: int|
            0 <= k < http.matching_rules.len() ==> {
                let way = #[trigger] http_effective_rules(hostnames)(http)[k];
                &&& way.route_matcher == http.matching_rules[k]
                &&& way.backends == http.backends
                &&& way.name == http.name
                &&& way.hostnames == hostnames
                &&& way.request_headers == http.headers()
                &&& way.response_headers.add.len() == 0
                &&& way.response_headers.set.len() == 0
                &&& way.response_headers.remove.len() == 0
                &&& way.redirect_filter == http.redirect()
            },
        grpc.matching_rules.len() > 0 ==> grpc_effective_rules(hostnames)(grpc).len()
            == grpc.matching_rules.len(),
        forall|k: int|
            0 <= k < grpc.matching_rules.len() ==> (#[trigger] grpc_effective_rules(hostnames)(
                grpc,
            )[k]).route_matcher == grpc.matching_rules[k],
        grpc.matching_rules.len() == 0 ==> grpc_effective_rules(hostnames)(grpc).len() == 1
            && grpc_effective_rules(hostnames)(grpc)[0].route_matcher.method is None
            && grpc_effective_rules(hostnames)(grpc)[0].route_matcher.headers is Some
            && grpc_effective_rules(hostnames)(grpc)[0].route_matcher.headers->0.len() == 0,
        forall|k: int|
            0 <= k < grpc_effective_rules(hostnames)(grpc).len() ==> {
                let way = #[trigger] grpc_effective_rules(hostnames)(grpc)[k];
                &&& way.backends == grpc.backends
                &&& way.name == grpc.name
                &&& way.hostnames == hostnames
                &&& way.request_headers == grpc.headers()
                &&& way.response_headers.add.len() == 0
                &&& way.response_headers.set.len() == 0
                &&& way.response_headers.remove.len() == 0
            },
{
}

/// The match that stands for no matches is that of every path, or of every method.
pub proof fn law_default_matches()
    ensures
        http_default_match().path == Some(
            PathMatchView { match_type: Some(PathMatchType::PathPrefix), value: Some("/"@) },
        ),
        http_default_match().method is None,
        http_default_match().query_params is None,
        http_default_match().headers is Some && http_default_match().headers->0.len() == 0,
        grpc_default_match().method is None,
        grpc_default_match().headers is Some && grpc_default_match().headers->0.len() == 0,
{
}

/// A route that was read has the key, the parents and the hostnames of the route of the cluster, a rule
/// for each of its rules, and the ways of the rules. It is not resolved: for the reason that a backend
/// is not valid, where one is not.
pub proof fn law_http_route_read(route: HTTPRouteView)
    ensures
        ({
            let read = RouteView::of_http(route).config;
            let rules = read.route_type->Http_0.routing_rules;
            let ways = read.route_type->Http_0.effective_routing_rules;
            &&& read.resource_key.kind == "HTTPRoute"@
            &&& read.resource_key.name == route.metadata.any_name()
            &&& route.metadata.namespace is Some ==> read.resource_key.namespace
                == route.metadata.namespace->0
            &&& route.metadata.namespace is None ==> read.resource_key.namespace == "default"@
            &&& read.parents == route.parent_refs
            &&& read.hostnames == route_hostnames(route.hostnames)
            &&& read.route_type is Http
            &&& route.rules is None ==> rules.len() == 0
            &&& route.rules is Some ==> rules.len() == route.rules->0.len()
            &&& forall|i: int|
                0 <= i < rules.len() ==> #[trigger] rules[i] == http_rule(
                    read.resource_key.name,
                    read.resource_key.namespace,
                )(i, route.rules->0[i])
            &&& forall|i: int, k: int|
                0 <= i < rules.len() && 0 <= k < rules[i].matching_rules.len() ==> ways.contains(
                    #[trigger] http_effective_rules(read.hostnames)(rules[i])[k],
                )
            &&& read.resolution_status is NotResolved
            &&& (exists|i: int, k: int|
                0 <= i < rules.len() && 0 <= k < rules[i].backends.len()
                    && #[trigger] rules[i].backends[k] is Invalid) <==> read.resolution_status
                == ResolutionStatusView::NotResolved(NotResolvedReason::InvalidBackend)
            &&& read.resolution_status == ResolutionStatusView::NotResolved(
                NotResolvedReason::InvalidBackend,
            ) || read.resolution_status == ResolutionStatusView::NotResolved(
                NotResolvedReason::Unknown,
            )
        }),
{
    let read = RouteView::of_http(route).config;
    let rules = read.route_type->Http_0.routing_rules;
    let ways = read.route_type->Http_0.effective_routing_rules;
    assert forall|i: int, k: int|
        0 <= i < rules.len() && 0 <= k < rules[i].matching_rules.len() implies ways.contains(
        #[trigger] http_effective_rules(read.hostnames)(rules[i])[k],
    ) by {
        let way = http_effective_rules(read.hostnames)(rules[i])[k];
        assert(http_effective_rules(read.hostnames)(rules[i]).contains(way));
        joined_contains(rules, http_effective_rules(read.hostnames), way);
    }
    let all = joined(rules, http_rule_backends());
    if has_invalid(all) {
        let j = choose|j: int| 0 <= j < all.len() && #[trigger] all[j] is Invalid;
        assert(all.contains(all[j]));
        joined_contains(rules, http_rule_backends(), all[j]);
        let i = choose|i: int|
            0 <= i < rules.len() && #[trigger] http_rule_backends()(rules[i]).contains(all[j]);
        let k = choose|k: int| 0 <= k < rules[i].backends.len() && rules[i].backends[k] == all[j];
        assert(rules[i].backends[k] is Invalid);
    }
    if exists|i: int, k: int|
        0 <= i < rules.len() && 0 <= k < rules[i].backends.len()
            && #[trigger] rules[i].backends[k] is Invalid {
        let (i, k) = choose|i: int, k: int|
            0 <= i < rules.len() && 0 <= k < rules[i].backends.len()
                && #[trigger] rules[i].backends[k] is Invalid;
        let backend = rules[i].backends[k];
        assert(http_rule_backends()(rules[i]).contains(backend));
        joined_contains(rules, http_rule_backends(), backend);
        let j = choose|j: int| 0 <= j < all.len() && all[j] == backend;
        assert(all[j] is Invalid);
    }
}

/// A gRPC route that was read has the key, the parents and the hostnames of the route of the cluster, a
/// rule for each of its rules, and the ways of the rules. It is not resolved: for the reason that a
/// backend is not valid, where one is not.
pub proof fn law_grpc_route_read(route: GRPCRouteView)
    ensures
        ({
            let read = RouteView::of_grpc(route).config;
            let rules = read.route_type->Grpc_0.routing_rules;
            let ways = read.route_type->Grpc_0.effective_routing_rules;
            &&& read.resource_key.kind == "GRPCRoute"@
            &&& read.resource_key.name == route.metadata.any_name()
            &&& route.metadata.namespace is Some ==> read.resource_key.namespace
                == route.metadata.namespace->0
            &&& route.metadata.namespace is None ==> read.resource_key.namespace == "default"@
            &&& read.parents == route.parent_refs
            &&& read.hostnames == route_hostnames(route.hostnames)
            &&& read.route_type is Grpc
            &&& route.rules is None ==> rules.len() == 0
            &&& route.rules is Some ==> rules.len() == route.rules->0.len()
            &&& forall|i: int|
                0 <= i < rules.len() ==> #[trigger] rules[i] == grpc_rule(
                    read.resource_key.name,
                    read.resource_key.namespace,
                )(i, route.rules->0[i])
            &&& forall|i: int, k: int|
                0 <= i < rules.len() && 0 <= k < grpc_effective_rules(read.hostnames)(rules[i]).len()
                    ==> ways.contains(#[trigger] grpc_effective_rules(read.hostnames)(rules[i])[k])
            &&& read.resolution_status is NotResolved
            &&& (exists|i: int, k: int|
                0 <= i < rules.len() && 0 <= k < rules[i].backends.len()
                    && #[trigger] rules[i].backends[k] is Invalid) <==> read.resolution_status
                == ResolutionStatusView::NotResolved(NotResolvedReason::InvalidBackend)
            &&& read.resolution_status == ResolutionStatusView::NotResolved(
                NotResolvedReason::InvalidBackend,
            ) || read.resolution_status == ResolutionStatusView::NotResolved(
                NotResolvedReason::Unknown,
            )
        }),
{
    let read = RouteView::of_grpc(route).config;
    let rules = read.route_type->Grpc_0.routing_rules;
    let ways = read.route_type->Grpc_0.effective_routing_rules;
    assert forall|i: int, k: int|
        0 <= i < rules.len() && 0 <= k < grpc_effective_rules(read.hostnames)(
            rules[i],
        ).len() implies ways.contains(
        #[trigger] grpc_effective_rules(read.hostnames)(rules[i])[k],
    ) by {
        let way = grpc_effective_rules(read.hostnames)(rules[i])[k];
        assert(grpc_effective_rules(read.hostnames)(rules[i]).contains(way));
        joined_contains(rules, grpc_effective_rules(read.hostnames), way);
    }
    let all = joined(rules, grpc_rule_backends());
    if has_invalid(all) {
        let j = choose|j: int| 0 <= j < all.len() && #[trigger] all[j] is Invalid;
        assert(all.contains(all[j]));
        joined_contains(rules, grpc_rule_backends(), all[j]);
        let i = choose|i: int|
            0 <= i < rules.len() && #[trigger] grpc_rule_backends()(rules[i]).contains(all[j]);
        let k = choose|k: int| 0 <= k < rules[i].backends.len() && rules[i].backends[k] == all[j];
        assert(rules[i].backends[k] is Invalid);
    }
    if exists|i: int, k: int|
        0 <= i < rules.len() && 0 <= k < rules[i].backends.len()
            && #[trigger] rules[i].backends[k] is Invalid {
        let (i, k) = choose|i: int, k: int|
            0 <= i < rules.len() && 0 <= k < rules[i].backends.len()
                && #[trigger] rules[i].backends[k] is Invalid;
        let backend = rules[i].backends[k];
        assert(grpc_rule_backends()(rules[i]).contains(backend));
        joined_contains(rules, grpc_rule_backends(), backend);
        let j = choose|j: int| 0 <= j < all.len() && all[j] == backend;
        assert(all[j] is Invalid);
    }
}

/// In a sorted list of the ways of gRPC routes, none that asks for headers stands behind one that asks
/// for fewer of them or for none.
pub proof fn law_sorted_by_headers(rules: Seq<GRPCEffectiveRoutingRuleView>, i: int, j: int)
    requires
        0 <= i < j < rules.len(),
        sorted::<GRPCEffectiveRoutingRule>(rules)[j].route_matcher.headers is Some,
    ensures
        sorted::<GRPCEffectiveRoutingRule>(rules)[i].route_matcher.headers is Some,
        sorted::<GRPCEffectiveRoutingRule>(rules)[i].route_matcher.headers->0.len() >= sorted::<
            GRPCEffectiveRoutingRule,
        >(rules)[j].route_matcher.headers->0.len(),
{
    let all = sorted::<GRPCEffectiveRoutingRule>(rules);
    law_sorted::<GRPCEffectiveRoutingRule>(rules);
    let (a, b) = (all[i].route_matcher, all[j].route_matcher);
    assert(<GRPCEffectiveRoutingRule as Ranked>::rank(all[i], all[j]) != Rank::Greater);
    law_more_headers_first(b, a);
    <GRPCRouteMatch as Ranked>::rank_flips(a, b);
}

/// In a sorted list of the ways of HTTP routes that ask for no parameters of the query, none that asks
/// for headers stands behind one that asks for fewer of them or for none. Of two that ask for as many
/// headers, none with a whole path stands behind one with a prefix or a regular expression, and none
/// stands behind one whose path is of the same kind and of fewer bytes.
pub proof fn law_sorted_by_match(rules: Seq<HTTPEffectiveRoutingRuleView>, i: int, j: int)
    requires
        0 <= i < j < rules.len(),
        sorted::<HTTPEffectiveRoutingRule>(rules)[i].route_matcher.query_params is None,
        sorted::<HTTPEffectiveRoutingRule>(rules)[j].route_matcher.query_params is None,
    ensures
        ({
            let a = sorted::<HTTPEffectiveRoutingRule>(rules)[i].route_matcher;
            let b = sorted::<HTTPEffectiveRoutingRule>(rules)[j].route_matcher;
            &&& b.headers is Some ==> a.headers is Some && a.headers->0.len() >= b.headers->0.len()
            &&& a.headers == b.headers && b.path is Some ==> a.path is Some
            &&& a.headers == b.headers && b.path is Some && b.path->0.match_type == Some(
                PathMatchType::Exact,
            ) && a.path->0.match_type is Some ==> a.path->0.match_type == Some(PathMatchType::Exact)
            &&& a.headers == b.headers && b.path is Some && b.path->0.match_type is Some
                && a.path->0.match_type == b.path->0.match_type && a.path->0.value is Some
                && b.path->0.value is Some ==> encode_utf8(a.path->0.value->0).len() >= encode_utf8(
                b.path->0.value->0,
            ).len()
        }),
{
    let all = sorted::<HTTPEffectiveRoutingRule>(rules);
    law_sorted::<HTTPEffectiveRoutingRule>(rules);
    let (a, b) = (all[i].route_matcher, all[j].route_matcher);
    assert(<HTTPEffectiveRoutingRule as Ranked>::rank(all[i], all[j]) != Rank::Greater);
    law_more_http_headers_first(b, a);
    if a.headers == b.headers {
        law_longer_path_first(b, a);
    }
    <RouteMatch as Ranked>::rank_flips(a, b);
}

/// Sorting the ways of a route keeps them, and all else of the route.
pub proof fn law_reordered_keeps(config: RouteConfigView)
    ensures
        config.reordered().resource_key == config.resource_key,
        config.reordered().parents == config.parents,
        config.reordered().hostnames == config.hostnames,
        config.reordered().resolution_status == config.resolution_status,
        config.route_type matches RouteTypeView::Http(before) ==> {
            &&& config.reordered().route_type matches RouteTypeView::Http(after)
            &&& after.routing_rules == before.routing_rules
            &&& after.effective_routing_rules.to_multiset()
                == before.effective_routing_rules.to_multiset()
            &&& in_order::<HTTPEffectiveRoutingRule>(after.effective_routing_rules)
        },
        config.route_type matches RouteTypeView::Grpc(before) ==> {
            &&& config.reordered().route_type matches RouteTypeView::Grpc(after)
            &&& after.routing_rules == before.routing_rules
            &&& after.effective_routing_rules.to_multiset()
                == before.effective_routing_rules.to_multiset()
            &&& in_order::<GRPCEffectiveRoutingRule>(after.effective_routing_rules)
        },
{
    match config.route_type {
        RouteTypeView::Http(before) => {
            law_sorted::<HTTPEffectiveRoutingRule>(before.effective_routing_rules);
        },
        RouteTypeView::Grpc(before) => {
            law_sorted::<GRPCEffectiveRoutingRule>(before.effective_routing_rules);
        },
    }
}

/// The backends of a route are those of its rules.
pub proof fn law_all_backends(config: RouteConfigView, backend: BackendView)
    ensures
        config.route_type matches RouteTypeView::Http(configuration) ==> (
        config.all_backends().contains(backend) <==> exists|i: int|
            0 <= i < configuration.routing_rules.len() && (
            #[trigger] configuration.routing_rules[i]).backends.contains(backend)),
        config.route_type matches RouteTypeView::Grpc(configuration) ==> (
        config.all_backends().contains(backend) <==> exists|i: int|
            0 <= i < configuration.routing_rules.len() && (
            #[trigger] configuration.routing_rules[i]).backends.contains(backend)),
{
    match config.route_type {
        RouteTypeView::Http(configuration) => {
            let rules = configuration.routing_rules;
            joined_contains(rules, http_rule_backends(), backend);
            assert forall|i: int| 0 <= i < rules.len() implies (#[trigger] rules[i]).backends
                == http_rule_backends()(rules[i]) by {}
        },
        RouteTypeView::Grpc(configuration) => {
            let rules = configuration.routing_rules;
            joined_contains(rules, grpc_rule_backends(), backend);
            assert forall|i: int| 0 <= i < rules.len() implies (#[trigger] rules[i]).backends
                == grpc_rule_backends()(rules[i]) by {}
        },
    }
}

/// Two configurations of routes are the same where their keys are, and stand to each other as these do.
pub proof fn law_configurations_told_apart(a: RouteConfig, b: RouteConfig)
    ensures
        PartialEqSpec::eq_spec(&a, &b) <==> a.resource_key.deep_view() == b.resource_key.deep_view(),
        config_rank(a.deep_view(), b.deep_view()) == Rank::Less
            ==> PartialOrdSpec::partial_cmp_spec(&a, &b) == Some(Ordering::Less),
        config_rank(a.deep_view(), b.deep_view()) == Rank::Equal
            ==> PartialOrdSpec::partial_cmp_spec(&a, &b) == Some(Ordering::Equal),
        config_rank(a.deep_view(), b.deep_view()) == Rank::Greater
            ==> PartialOrdSpec::partial_cmp_spec(&a, &b) == Some(Ordering::Greater),
{
}

/// Two routes are the same where their keys are, and stand to each other as these do.
pub proof fn law_routes_told_apart(a: Route, b: Route)
    ensures
        PartialEqSpec::eq_spec(&a, &b) <==> a.config.resource_key.deep_view()
            == b.config.resource_key.deep_view(),
        route_rank(a.deep_view(), b.deep_view()) == Rank::Less
            ==> PartialOrdSpec::partial_cmp_spec(&a, &b) == Some(Ordering::Less),
        route_rank(a.deep_view(), b.deep_view()) == Rank::Equal
            ==> PartialOrdSpec::partial_cmp_spec(&a, &b) == Some(Ordering::Equal),
        route_rank(a.deep_view(), b.deep_view()) == Rank::Greater
            ==> PartialOrdSpec::partial_cmp_spec(&a, &b) == Some(Ordering::Greater),
{
}

/// Routes and their configurations stand to each other as their keys do, whatever else they hold.
pub proof fn law_routes_in_order(a: RouteView, b: RouteView)
    ensures
        route_rank(a, b) == <ResourceKey as Ranked>::rank(
            a.config.resource_key,
            b.config.resource_key,
        ),
        config_rank(a.config, b.config) == <ResourceKey as Ranked>::rank(
            a.config.resource_key,
            b.config.resource_key,
        ),
{
}

/// Ways of taking HTTP requests stand to each other as their matches do.
pub proof fn law_http_ways_in_order(a: HTTPEffectiveRoutingRule, b: HTTPEffectiveRoutingRule)
    ensures
        match_rank(a.route_matcher.deep_view(), b.route_matcher.deep_view()) == Rank::Less
            ==> PartialOrdSpec::partial_cmp_spec(&a, &b) == Some(Ordering::Less),
        match_rank(a.route_matcher.deep_view(), b.route_matcher.deep_view()) == Rank::Equal
            ==> PartialOrdSpec::partial_cmp_spec(&a, &b) == Some(Ordering::Equal),
        match_rank(a.route_matcher.deep_view(), b.route_matcher.deep_view()) == Rank::Greater
            ==> PartialOrdSpec::partial_cmp_spec(&a, &b) == Some(Ordering::Greater),
{
}

/// Ways of taking gRPC requests stand to each other as their matches do.
pub proof fn law_grpc_ways_in_order(a: GRPCEffectiveRoutingRule, b: GRPCEffectiveRoutingRule)
    ensures
        grpc_match_rank(a.route_matcher.deep_view(), b.route_matcher.deep_view()) == Rank::Less
            ==> PartialOrdSpec::partial_cmp_spec(&a, &b) == Some(Ordering::Less),
        grpc_match_rank(a.route_matcher.deep_view(), b.route_matcher.deep_view()) == Rank::Equal
            ==> PartialOrdSpec::partial_cmp_spec(&a, &b) == Some(Ordering::Equal),
        grpc_match_rank(a.route_matcher.deep_view(), b.route_matcher.deep_view()) == Rank::Greater
            ==> PartialOrdSpec::partial_cmp_spec(&a, &b) == Some(Ordering::Greater),
{
}

} // verus!
