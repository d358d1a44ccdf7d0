//! Listeners of gateways.
use core::cmp::Ordering;
use vstd::prelude::*;
use vstd::std_specs::cmp::{PartialEqSpec, PartialEqSpecImpl, PartialOrdSpec, PartialOrdSpecImpl};
use vstd::std_specs::convert::TryFromSpecImpl;
use crate::common::certificate::{Certificate, CertificateView};
use crate::common::errors::ControllerError;
use crate::common::kube::{
    CertificateRef, CertificateRefView, GatewayListener, GatewayListenerView, ListenerTls, TlsMode,
};
use crate::common::resolved_refs::{ResolvedRefs, ResolvedRefsView, places_rank, rank_places};
use crate::common::resource_key::{
    DEFAULT_GROUP_NAME, DEFAULT_KIND_NAME, DEFAULT_NAMESPACE_NAME, ResourceKey, ResourceKeyView, text_or,
};
use crate::common::route::{
    EffectiveRoutingRule,
    GRPCEffectiveRoutingRule,
    GRPCEffectiveRoutingRuleView,
    HTTPEffectiveRoutingRule,
    HTTPEffectiveRoutingRuleView,
    NotResolvedReason,
    ResolutionStatus,
    ResolutionStatusView,
    Route,
    RouteType,
    RouteTypeView,
    RouteView,
    law_sorted_by_headers,
    list_or_none,
    or_no_items,
};
use crate::common::route_set::RouteSet;
use crate::lists::{
    choose_list,
    chosen,
    chosen_contains,
    join_list,
    joined,
    joined_contains,
    law_chosen_of_all,
    law_joined_of_both,
    map_list,
    no_items,
};
use crate::model::Model;
use crate::order::{Rank, Ranked, option_rank, text_rank};
use crate::ordered::{OrderedMap, increasing, keys, law_put, put, slot, slot_bounds, table};
use crate::sorting::{in_order, law_sorted, sort, sorted};
use crate::text::{text_is, to_uppercase, uppercase};

verus! {

/// The protocol that a listener speaks.
#[derive(Clone, Copy, Debug, PartialEq, Eq, Structural)]
pub enum ProtocolType {
    Unknown,
    Http,
    Https,
    Tcp,
    Tls,
    Udp,
}

impl DeepView for ProtocolType {
    type V = ProtocolType;

    open spec fn deep_view(&self) -> ProtocolType {
        *self
    }
}

impl Model for ProtocolType {
    fn dup(&self) -> (r: Self) {
        *self
    }

    fn same(&self, other: &Self) -> (r: bool) {
        *self == *other
    }
}

/// The protocol with a name in capitals.
pub open spec fn protocol_named(name: Seq<char>) -> Option<ProtocolType> {
    if name == "HTTP"@ {
        Some(ProtocolType::Http)
    } else if name == "HTTPS"@ {
        Some(ProtocolType::Https)
    } else if name == "TCP"@ {
        Some(ProtocolType::Tcp)
    } else if name == "TLS"@ {
        Some(ProtocolType::Tls)
    } else if name == "UDP"@ {
        Some(ProtocolType::Udp)
    } else {
        None
    }
}

impl ProtocolType {
    /// The protocol with a name in capitals.
    pub fn named(name: &str) -> (r: Option<ProtocolType>)
        ensures
            r == protocol_named(name@),
    {
        if text_is(name, "HTTP") {
            Some(ProtocolType::Http)
        } else if text_is(name, "HTTPS") {
            Some(ProtocolType::Https)
        } else if text_is(name, "TCP") {
            Some(ProtocolType::Tcp)
        } else if text_is(name, "TLS") {
            Some(ProtocolType::Tls)
        } else if text_is(name, "UDP") {
            Some(ProtocolType::Udp)
        } else {
            None
        }
    }

    /// The name in capitals.
    pub open spec fn name(self) -> Seq<char> {
        match self {
            ProtocolType::Unknown => "UNKNOWN"@,
            ProtocolType::Http => "HTTP"@,
            ProtocolType::Https => "HTTPS"@,
            ProtocolType::Tcp => "TCP"@,
            ProtocolType::Tls => "TLS"@,
            ProtocolType::Udp => "UDP"@,
        }
    }

    /// The name in capitals.
    pub fn to_text(&self) -> (r: &'static str)
        ensures
            r@ == self.name(),
    {
        match self {
            ProtocolType::Unknown => "UNKNOWN",
            ProtocolType::Http => "HTTP",
            ProtocolType::Https => "HTTPS",
            ProtocolType::Tcp => "TCP",
            ProtocolType::Tls => "TLS",
            ProtocolType::Udp => "UDP",
        }
    }
}

impl<'a> TryFrom<&'a String> for ProtocolType {
    type Error = ControllerError;

    /// The protocol that a text names, in letters of any case.
    fn try_from(value: &'a String) -> (r: Result<Self, ControllerError>)
        ensures
            match protocol_named(uppercase(value@)) {
                Some(protocol) => r is Ok && r->Ok_0 == protocol,
                None => r matches Err(ControllerError::InvalidPayload(text)) && text@
                    == "Wrong protocol"@,
            },
    {
        let name = to_uppercase(value.as_str());
        match ProtocolType::named(name.as_str()) {
            Some(protocol) => Ok(protocol),
            None => Err(ControllerError::InvalidPayload("Wrong protocol".to_owned())),
        }
    }
}

impl<'a> TryFromSpecImpl<&'a String> for ProtocolType {
    open spec fn obeys_try_from_spec() -> bool {
        false
    }

    open spec fn try_from_spec(value: &'a String) -> Result<Self, ControllerError> {
        arbitrary()
    }
}

/// A protocol is found again under its name.
pub proof fn law_protocol_name(protocol: ProtocolType)
    requires
        protocol != ProtocolType::Unknown,
    ensures
        protocol_named(protocol.name()) == Some(protocol),
{
    reveal_strlit("HTTP");
    reveal_strlit("HTTPS");
    reveal_strlit("TCP");
    reveal_strlit("TLS");
    reveal_strlit("UDP");
    assert("HTTP"@.len() != "HTTPS"@.len());
    assert("TCP"@[1] != "TLS"@[1]);
    assert("TCP"@[0] != "UDP"@[0]);
    assert("TLS"@[0] != "UDP"@[0]);
}

/// What a listener does with TLS, with the certificates where it ends it.
#[derive(Debug, PartialEq, Eq)]
pub enum TlsType {
    Terminate(Vec<Certificate>),
    Passthrough,
}

/// What a [`TlsType`] holds.
#[verifier::ext_equal]
pub enum TlsTypeView {
    Terminate(Seq<CertificateView>),
    Passthrough,
}

impl DeepView for TlsType {
    type V = TlsTypeView;

    open spec fn deep_view(&self) -> TlsTypeView {
        match self {
            TlsType::Terminate(x0) => TlsTypeView::Terminate(x0.deep_view()),
            TlsType::Passthrough => TlsTypeView::Passthrough,
        }
    }
}

impl Model for TlsType {
    fn dup(&self) -> (r: Self) {
        match self {
            TlsType::Terminate(x0) => TlsType::Terminate(x0.dup()),
            TlsType::Passthrough => TlsType::Passthrough,
        }
    }

    fn same(&self, other: &Self) -> (r: bool) {
        match (self, other) {
            (TlsType::Terminate(x0), TlsType::Terminate(x0_)) => x0.same(x0_),
            (TlsType::Passthrough, TlsType::Passthrough) => true,
            _ => false,
        }
    }
}

/// How a listener is configured.
#[derive(Debug, PartialEq, Eq)]
pub struct ListenerConfig {
    pub name: String,
    pub port: i32,
    pub hostname: Option<String>,
    pub tls_type: Option<TlsType>,
}

/// What a [`ListenerConfig`] holds.
#[verifier::ext_equal]
pub struct ListenerConfigView {
    pub name: Seq<char>,
    pub port: i32,
    pub hostname: Option<Seq<char>>,
    pub tls_type: Option<TlsTypeView>,
}

impl DeepView for ListenerConfig {
    type V = ListenerConfigView;

    open spec fn deep_view(&self) -> ListenerConfigView {
        ListenerConfigView {
            name: self.name.deep_view(),
            port: self.port.deep_view(),
            hostname: self.hostname.deep_view(),
            tls_type: self.tls_type.deep_view(),
        }
    }
}

impl Model for ListenerConfig {
    fn dup(&self) -> (r: Self) {
        ListenerConfig {
            name: self.name.dup(),
            port: self.port.dup(),
            hostname: self.hostname.dup(),
            tls_type: self.tls_type.dup(),
        }
    }

    fn same(&self, other: &Self) -> (r: bool) {
        self.name.same(&other.name)
            && self.port.same(&other.port)
            && self.hostname.same(&other.hostname)
            && self.tls_type.same(&other.tls_type)
    }
}

/// How two configurations of listeners stand to each other: by name, port and hostname.
pub open spec fn listener_rank(a: ListenerConfigView, b: ListenerConfigView) -> Rank {
    text_rank(a.name, b.name).or(<i32 as Ranked>::rank(a.port, b.port)).or(
        option_rank::<String>(a.hostname, b.hostname),
    )
}

fn rank_listeners(this: &ListenerConfig, other: &ListenerConfig) -> (r: Rank)
    ensures
        r == listener_rank(this.deep_view(), other.deep_view()),
{
    match this.name.against(&other.name) {
        Rank::Equal => {},
        outcome => return outcome,
    }
    match this.port.against(&other.port) {
        Rank::Equal => this.hostname.against(&other.hostname),
        outcome => outcome,
    }
}

impl PartialOrd for ListenerConfig {
    fn partial_cmp(&self, other: &Self) -> (r: Option<Ordering>) {
        Some(rank_listeners(self, other).to_named())
    }
}

impl PartialOrdSpecImpl for ListenerConfig {
    open spec fn obeys_partial_cmp_spec() -> bool {
        true
    }

    open spec fn partial_cmp_spec(&self, other: &Self) -> Option<Ordering> {
        Some(listener_rank(self.deep_view(), other.deep_view()).named())
    }
}

impl ListenerConfig {
    /// A configuration without TLS.
    pub fn new(name: String, port: i32, hostname: Option<String>) -> (r: Self)
        ensures
            r == (ListenerConfig { name, port, hostname, tls_type: None }),
    {
        ListenerConfig { name, port, hostname, tls_type: None }
    }
}

/// Why a listener cannot be used.
#[derive(Debug, PartialEq, Eq)]
pub enum ListenerError {
    UnknownProtocol(String),
    NotDistinct(String, i32, ProtocolType, Option<String>),
    UnknownTlsMode,
}

/// What a [`ListenerError`] holds.
#[verifier::ext_equal]
pub enum ListenerErrorView {
    UnknownProtocol(Seq<char>),
    NotDistinct(Seq<char>, i32, ProtocolType, Option<Seq<char>>),
    UnknownTlsMode,
}

impl DeepView for ListenerError {
    type V = ListenerErrorView;

    open spec fn deep_view(&self) -> ListenerErrorView {
        match self {
            ListenerError::UnknownProtocol(x0) => ListenerErrorView::UnknownProtocol(x0.deep_view()),
            ListenerError::NotDistinct(x0, x1, x2, x3) => ListenerErrorView::NotDistinct(x0.deep_view(), x1.deep_view(), x2.deep_view(), x3.deep_view()),
            ListenerError::UnknownTlsMode => ListenerErrorView::UnknownTlsMode,
        }
    }
}

impl Model for ListenerError {
    fn dup(&self) -> (r: Self) {
        match self {
            ListenerError::UnknownProtocol(x0) => ListenerError::UnknownProtocol(x0.dup()),
            ListenerError::NotDistinct(x0, x1, x2, x3) => ListenerError::NotDistinct(x0.dup(), x1.dup(), x2.dup(), x3.dup()),
            ListenerError::UnknownTlsMode => ListenerError::UnknownTlsMode,
        }
    }

    fn same(&self, other: &Self) -> (r: bool) {
        match (self, other) {
            (ListenerError::UnknownProtocol(x0), ListenerError::UnknownProtocol(x0_)) => x0.same(x0_),
            (ListenerError::NotDistinct(x0, x1, x2, x3), ListenerError::NotDistinct(x0_, x1_, x2_, x3_)) => x0.same(x0_) && x1.same(x1_) && x2.same(x2_) && x3.same(x3_),
            (ListenerError::UnknownTlsMode, ListenerError::UnknownTlsMode) => true,
            _ => false,
        }
    }
}

/// A condition that a listener is in.
#[derive(Debug)]
pub enum ListenerCondition {
    ResolvedRefs(ResolvedRefs),
    UnresolvedRouteRefs,
    Accepted,
    NotAccepted,
    Programmed,
    NotProgrammed,
}

/// What a [`ListenerCondition`] holds.
#[verifier::ext_equal]
pub enum ListenerConditionView {
    ResolvedRefs(ResolvedRefsView),
    UnresolvedRouteRefs,
    Accepted,
    NotAccepted,
    Programmed,
    NotProgrammed,
}

impl DeepView for ListenerCondition {
    type V = ListenerConditionView;

    open spec fn deep_view(&self) -> ListenerConditionView {
        match self {
            ListenerCondition::ResolvedRefs(x0) => ListenerConditionView::ResolvedRefs(x0.deep_view()),
            ListenerCondition::UnresolvedRouteRefs => ListenerConditionView::UnresolvedRouteRefs,
            ListenerCondition::Accepted => ListenerConditionView::Accepted,
            ListenerCondition::NotAccepted => ListenerConditionView::NotAccepted,
            ListenerCondition::Programmed => ListenerConditionView::Programmed,
            ListenerCondition::NotProgrammed => ListenerConditionView::NotProgrammed,
        }
    }
}

impl Model for ListenerCondition {
    fn dup(&self) -> (r: Self) {
        match self {
            ListenerCondition::ResolvedRefs(x0) => ListenerCondition::ResolvedRefs(x0.dup()),
            ListenerCondition::UnresolvedRouteRefs => ListenerCondition::UnresolvedRouteRefs,
            ListenerCondition::Accepted => ListenerCondition::Accepted,
            ListenerCondition::NotAccepted => ListenerCondition::NotAccepted,
            ListenerCondition::Programmed => ListenerCondition::Programmed,
            ListenerCondition::NotProgrammed => ListenerCondition::NotProgrammed,
        }
    }

    fn same(&self, other: &Self) -> (r: bool) {
        match (self, other) {
            (ListenerCondition::ResolvedRefs(x0), ListenerCondition::ResolvedRefs(x0_)) => x0.same(x0_),
            (ListenerCondition::UnresolvedRouteRefs, ListenerCondition::UnresolvedRouteRefs) => true,
            (ListenerCondition::Accepted, ListenerCondition::Accepted) => true,
            (ListenerCondition::NotAccepted, ListenerCondition::NotAccepted) => true,
            (ListenerCondition::Programmed, ListenerCondition::Programmed) => true,
            (ListenerCondition::NotProgrammed, ListenerCondition::NotProgrammed) => true,
            _ => false,
        }
    }
}

/// The name of a condition of a listener.
#[derive(Clone, Copy, Debug, PartialEq, Eq, Structural)]
pub enum ListenerConditionType {
    ResolvedRefs,
    Accepted,
    Programmed,
}

impl DeepView for ListenerConditionType {
    type V = ListenerConditionType;

    open spec fn deep_view(&self) -> ListenerConditionType {
        *self
    }
}

impl Model for ListenerConditionType {
    fn dup(&self) -> (r: Self) {
        *self
    }

    fn same(&self, other: &Self) -> (r: bool) {
        *self == *other
    }
}

/// The name of the reason for a condition of a listener.
#[derive(Clone, Copy, Debug, PartialEq, Eq, Structural)]
pub enum ListenerConditionReason {
    InvalidRouteKinds,
    ResolvedRefs,
    InvalidCertificateRef,
    RefNotPermitted,
    Accepted,
    Programmed,
}

impl DeepView for ListenerConditionReason {
    type V = ListenerConditionReason;

    open spec fn deep_view(&self) -> ListenerConditionReason {
        *self
    }
}

impl Model for ListenerConditionReason {
    fn dup(&self) -> (r: Self) {
        *self
    }

    fn same(&self, other: &Self) -> (r: bool) {
        *self == *other
    }
}

impl ListenerConditionView {
    /// What the condition is about: a listener is in one condition of each kind at a time.
    pub open spec fn place(self) -> u8 {
        match self {
            ListenerConditionView::ResolvedRefs(_) => 0,
            ListenerConditionView::Accepted => 1,
            ListenerConditionView::NotAccepted => 1,
            ListenerConditionView::Programmed => 2,
            ListenerConditionView::NotProgrammed => 2,
            ListenerConditionView::UnresolvedRouteRefs => 3,
        }
    }

    /// The status, the name and the reason that the condition is reported with.
    pub open spec fn report(self) -> (Seq<char>, ListenerConditionType, ListenerConditionReason) {
        match self {
            ListenerConditionView::ResolvedRefs(refs) => match refs {
                ResolvedRefsView::InvalidAllowedRoutes => (
                    "False"@,
                    ListenerConditionType::ResolvedRefs,
                    ListenerConditionReason::InvalidRouteKinds,
                ),
                ResolvedRefsView::ResolvedWithNotAllowedRoutes(_) => (
                    "False"@,
                    ListenerConditionType::ResolvedRefs,
                    ListenerConditionReason::InvalidRouteKinds,
                ),
                ResolvedRefsView::InvalidBackend(_) => (
                    "True"@,
                    ListenerConditionType::ResolvedRefs,
                    ListenerConditionReason::InvalidRouteKinds,
                ),
                ResolvedRefsView::Resolved(_) => (
                    "True"@,
                    ListenerConditionType::ResolvedRefs,
                    ListenerConditionReason::ResolvedRefs,
                ),
                ResolvedRefsView::InvalidCertificates(_) => (
                    "False"@,
                    ListenerConditionType::ResolvedRefs,
                    ListenerConditionReason::InvalidCertificateRef,
                ),
                ResolvedRefsView::RefNotPermitted(_) => (
                    "False"@,
                    ListenerConditionType::ResolvedRefs,
                    ListenerConditionReason::RefNotPermitted,
                ),
            },
            ListenerConditionView::UnresolvedRouteRefs => (
                "False"@,
                ListenerConditionType::ResolvedRefs,
                ListenerConditionReason::ResolvedRefs,
            ),
            ListenerConditionView::Accepted => (
                "True"@,
                ListenerConditionType::Accepted,
                ListenerConditionReason::Accepted,
            ),
            ListenerConditionView::NotAccepted => (
                "False"@,
                ListenerConditionType::Accepted,
                ListenerConditionReason::Accepted,
            ),
            ListenerConditionView::Programmed => (
                "True"@,
                ListenerConditionType::Programmed,
                ListenerConditionReason::Programmed,
            ),
            ListenerConditionView::NotProgrammed => (
                "False"@,
                ListenerConditionType::Programmed,
                ListenerConditionReason::Programmed,
            ),
        }
    }

    /// The kinds of routes that a listener in the condition supports.
    pub open spec fn supported(self) -> Seq<Seq<char>> {
        match self {
            ListenerConditionView::ResolvedRefs(ResolvedRefsView::Resolved(routes)) => routes,
            ListenerConditionView::ResolvedRefs(
                ResolvedRefsView::ResolvedWithNotAllowedRoutes(routes),
            ) => routes,
            ListenerConditionView::ResolvedRefs(ResolvedRefsView::InvalidCertificates(routes)) => {
                routes
            },
            _ => approved_routes(),
        }
    }
}

/// The kinds of routes that listeners can support.
pub open spec fn approved_routes() -> Seq<Seq<char>> {
    seq!["GRPCRoute"@, "HTTPRoute"@, "TCPRoute"@]
}

/// The kinds of routes that a listener for HTTP supports where it names none.
pub open spec fn http_routes() -> Seq<Seq<char>> {
    seq!["HTTPRoute"@, "GRPCRoute"@]
}

fn list_approved_routes() -> (r: Vec<String>)
    ensures
        r.deep_view() == approved_routes(),
{
    let r: Vec<String> = vec![
        "GRPCRoute".to_owned(),
        "HTTPRoute".to_owned(),
        "TCPRoute".to_owned(),
    ];
    assert(r.deep_view() =~= approved_routes());
    r
}

impl ListenerCondition {
    /// What the condition is about.
    pub fn discriminant(&self) -> (r: u8)
        ensures
            r == self.deep_view().place(),
    {
        match self {
            ListenerCondition::ResolvedRefs(_) => 0,
            ListenerCondition::Accepted => 1,
            ListenerCondition::NotAccepted => 1,
            ListenerCondition::Programmed => 2,
            ListenerCondition::NotProgrammed => 2,
            ListenerCondition::UnresolvedRouteRefs => 3,
        }
    }

    /// The status, the name and the reason that the condition is reported with.
    pub fn resolved_type(&self) -> (r: (
        &'static str,
        ListenerConditionType,
        ListenerConditionReason,
    ))
        ensures
            (r.0@, r.1, r.2) == self.deep_view().report(),
    {
        match self {
            ListenerCondition::ResolvedRefs(refs) => match refs {
                ResolvedRefs::InvalidAllowedRoutes | ResolvedRefs::ResolvedWithNotAllowedRoutes(
                    _,
                ) => (
                    "False",
                    ListenerConditionType::ResolvedRefs,
                    ListenerConditionReason::InvalidRouteKinds,
                ),
                ResolvedRefs::InvalidBackend(_) => (
                    "True",
                    ListenerConditionType::ResolvedRefs,
                    ListenerConditionReason::InvalidRouteKinds,
                ),
                ResolvedRefs::Resolved(_) => (
                    "True",
                    ListenerConditionType::ResolvedRefs,
                    ListenerConditionReason::ResolvedRefs,
                ),
                ResolvedRefs::InvalidCertificates(_) => (
                    "False",
                    ListenerConditionType::ResolvedRefs,
                    ListenerConditionReason::InvalidCertificateRef,
                ),
                ResolvedRefs::RefNotPermitted(_) => (
                    "False",
                    ListenerConditionType::ResolvedRefs,
                    ListenerConditionReason::RefNotPermitted,
                ),
            },
            ListenerCondition::UnresolvedRouteRefs => (
                "False",
                ListenerConditionType::ResolvedRefs,
                ListenerConditionReason::ResolvedRefs,
            ),
            ListenerCondition::Accepted => (
                "True",
                ListenerConditionType::Accepted,
                ListenerConditionReason::Accepted,
            ),
            ListenerCondition::NotAccepted => (
                "False",
                ListenerConditionType::Accepted,
                ListenerConditionReason::Accepted,
            ),
            ListenerCondition::Programmed => (
                "True",
                ListenerConditionType::Programmed,
                ListenerConditionReason::Programmed,
            ),
            ListenerCondition::NotProgrammed => (
                "False",
                ListenerConditionType::Programmed,
                ListenerConditionReason::Programmed,
            ),
        }
    }

    /// The kinds of routes that a listener in the condition supports.
    pub fn supported_routes(&self) -> (r: Vec<String>)
        ensures
            r.deep_view() == self.deep_view().supported(),
    {
        match self {
            ListenerCondition::ResolvedRefs(ResolvedRefs::Resolved(routes)) => routes.dup(),
            ListenerCondition::ResolvedRefs(ResolvedRefs::ResolvedWithNotAllowedRoutes(routes)) => {
                routes.dup()
            },
            ListenerCondition::ResolvedRefs(ResolvedRefs::InvalidCertificates(routes)) => {
                routes.dup()
            },
            _ => list_approved_routes(),
        }
    }

    /// Which of the conditions this is, whatever it holds.
    pub open spec fn variant(&self) -> int {
        match self {
            ListenerCondition::ResolvedRefs(_) => 0,
            ListenerCondition::UnresolvedRouteRefs => 1,
            ListenerCondition::Accepted => 2,
            ListenerCondition::NotAccepted => 3,
            ListenerCondition::Programmed => 4,
            ListenerCondition::NotProgrammed => 5,
        }
    }
}

impl PartialEq for ListenerCondition {
    fn eq(&self, other: &Self) -> (r: bool) {
        match (self, other) {
            (ListenerCondition::ResolvedRefs(_), ListenerCondition::ResolvedRefs(_)) => true,
            (ListenerCondition::UnresolvedRouteRefs, ListenerCondition::UnresolvedRouteRefs) => true,
            (ListenerCondition::Accepted, ListenerCondition::Accepted) => true,
            (ListenerCondition::NotAccepted, ListenerCondition::NotAccepted) => true,
            (ListenerCondition::Programmed, ListenerCondition::Programmed) => true,
            (ListenerCondition::NotProgrammed, ListenerCondition::NotProgrammed) => true,
            _ => false,
        }
    }
}

impl PartialEqSpecImpl for ListenerCondition {
    open spec fn obeys_eq_spec() -> bool {
        true
    }

    open spec fn eq_spec(&self, other: &Self) -> bool {
        self.variant() == other.variant()
    }
}

impl Eq for ListenerCondition {

}

impl PartialOrd for ListenerCondition {
    fn partial_cmp(&self, other: &Self) -> (r: Option<Ordering>) {
        Some(rank_places(self.discriminant(), other.discriminant()).to_named())
    }
}

impl PartialOrdSpecImpl for ListenerCondition {
    open spec fn obeys_partial_cmp_spec() -> bool {
        true
    }

    open spec fn partial_cmp_spec(&self, other: &Self) -> Option<Ordering> {
        Some(places_rank(self.deep_view().place(), other.deep_view().place()).named())
    }
}

/// The conditions that a listener is in, one of each kind at most.
#[derive(Debug, PartialEq, Eq)]
pub struct ListenerConditions {
    conditions: OrderedMap<u8, ListenerCondition>,
}

impl DeepView for ListenerConditions {
    type V = Seq<(u8, ListenerConditionView)>;

    closed spec fn deep_view(&self) -> Seq<(u8, ListenerConditionView)> {
        self.conditions.deep_view()
    }
}

/// Whether each condition stands under what it is about, and no two are about the same.
pub open spec fn conditions_fit(conditions: Seq<(u8, ListenerConditionView)>) -> bool {
    &&& increasing::<u8>(keys(conditions))
    &&& forall|i: int|
        0 <= i < conditions.len() ==> (#[trigger] conditions[i]).0 == conditions[i].1.place()
}

/// The conditions with one more, in place of the one about the same.
pub open spec fn with_condition(
    conditions: Seq<(u8, ListenerConditionView)>,
    condition: ListenerConditionView,
) -> Seq<(u8, ListenerConditionView)> {
    put::<u8, ListenerConditionView>(conditions, condition.place(), condition)
}

/// A new condition takes the place of the one about the same: the conditions still fit.
pub proof fn law_with_condition(
    conditions: Seq<(u8, ListenerConditionView)>,
    condition: ListenerConditionView,
)
    requires
        conditions_fit(conditions),
    ensures
        conditions_fit(with_condition(conditions, condition)),
        with_condition(conditions, condition).contains((condition.place(), condition)),
{
    law_put::<u8, ListenerConditionView>(conditions, condition.place(), condition);
    slot_bounds::<u8>(keys(conditions), condition.place());
    let p = slot::<u8>(keys(conditions), condition.place());
    let next = with_condition(conditions, condition);
    assert(next[p] == (condition.place(), condition));
}

impl ListenerConditions {
    #[verifier::type_invariant]
    spec fn fits(self) -> bool {
        conditions_fit(self.conditions.deep_view())
    }

    /// No condition.
    pub fn new() -> (r: Self)
        ensures
            r.deep_view() == Seq::<(u8, ListenerConditionView)>::empty(),
    {
        ListenerConditions { conditions: OrderedMap::new() }
    }

    /// The number of conditions.
    pub fn len(&self) -> (r: usize)
        ensures
            r == self.deep_view().len(),
    {
        self.conditions.len()
    }

    /// The conditions, each behind what it is about.
    pub fn entries(&self) -> (r: &Vec<(u8, ListenerCondition)>)
        ensures
            r.deep_view() == self.deep_view(),
            conditions_fit(self.deep_view()),
    {
        proof {
            use_type_invariant(self);
        }
        self.conditions.entries()
    }

    /// Adds a condition, in place of the one about the same.
    pub fn replace(&mut self, condition: ListenerCondition)
        ensures
            final(self).deep_view() == with_condition(
                old(self).deep_view(),
                condition.deep_view(),
            ),
            conditions_fit(final(self).deep_view()),
    {
        proof {
            use_type_invariant(&*self);
            law_with_condition(self.deep_view(), condition.deep_view());
        }
        let mut conditions: OrderedMap<u8, ListenerCondition> = OrderedMap::new();
        std::mem::swap(&mut conditions, &mut self.conditions);
        let place: u8 = condition.discriminant();
        conditions.insert(place, condition);
        self.conditions = conditions;
    }
}

impl Model for ListenerConditions {
    fn dup(&self) -> (r: Self) {
        proof {
            use_type_invariant(self);
        }
        let conditions = self.conditions.dup();
        ListenerConditions { conditions }
    }

    fn same(&self, other: &Self) -> (r: bool) {
        self.conditions.same(&other.conditions)
    }
}

/// What a listener is made of.
#[derive(Debug, PartialEq, Eq)]
pub struct ListenerData {
    pub config: ListenerConfig,
    pub conditions: ListenerConditions,
    pub resolved_routes: RouteSet,
    pub unresolved_routes: RouteSet,
    pub attached_routes: usize,
}

/// What a [`ListenerData`] holds.
#[verifier::ext_equal]
pub struct ListenerDataView {
    pub config: ListenerConfigView,
    pub conditions: Seq<(u8, ListenerConditionView)>,
    pub resolved_routes: Seq<RouteView>,
    pub unresolved_routes: Seq<RouteView>,
    pub attached_routes: usize,
}

impl DeepView for ListenerData {
    type V = ListenerDataView;

    open spec fn deep_view(&self) -> ListenerDataView {
        ListenerDataView {
            config: self.config.deep_view(),
            conditions: self.conditions.deep_view(),
            resolved_routes: self.resolved_routes.deep_view(),
            unresolved_routes: self.unresolved_routes.deep_view(),
            attached_routes: self.attached_routes.deep_view(),
        }
    }
}

impl Model for ListenerData {
    fn dup(&self) -> (r: Self) {
        ListenerData {
            config: self.config.dup(),
            conditions: self.conditions.dup(),
            resolved_routes: self.resolved_routes.dup(),
            unresolved_routes: self.unresolved_routes.dup(),
            attached_routes: self.attached_routes.dup(),
        }
    }

    fn same(&self, other: &Self) -> (r: bool) {
        self.config.same(&other.config)
            && self.conditions.same(&other.conditions)
            && self.resolved_routes.same(&other.resolved_routes)
            && self.unresolved_routes.same(&other.unresolved_routes)
            && self.attached_routes.same(&other.attached_routes)
    }
}

/// A listener, by its protocol.
#[derive(Debug, PartialEq, Eq)]
pub enum Listener {
    Http(ListenerData),
    Https(ListenerData),
    Tcp(ListenerData),
    Tls(ListenerData),
    Udp(ListenerData),
}

/// What a [`Listener`] holds.
#[verifier::ext_equal]
pub enum ListenerView {
    Http(ListenerDataView),
    Https(ListenerDataView),
    Tcp(ListenerDataView),
    Tls(ListenerDataView),
    Udp(ListenerDataView),
}

impl DeepView for Listener {
    type V = ListenerView;

    open spec fn deep_view(&self) -> ListenerView {
        match self {
            Listener::Http(x0) => ListenerView::Http(x0.deep_view()),
            Listener::Https(x0) => ListenerView::Https(x0.deep_view()),
            Listener::Tcp(x0) => ListenerView::Tcp(x0.deep_view()),
            Listener::Tls(x0) => ListenerView::Tls(x0.deep_view()),
            Listener::Udp(x0) => ListenerView::Udp(x0.deep_view()),
        }
    }
}

impl Model for Listener {
    fn dup(&self) -> (r: Self) {
        match self {
            Listener::Http(x0) => Listener::Http(x0.dup()),
            Listener::Https(x0) => Listener::Https(x0.dup()),
            Listener::Tcp(x0) => Listener::Tcp(x0.dup()),
            Listener::Tls(x0) => Listener::Tls(x0.dup()),
            Listener::Udp(x0) => Listener::Udp(x0.dup()),
        }
    }

    fn same(&self, other: &Self) -> (r: bool) {
        match (self, other) {
            (Listener::Http(x0), Listener::Http(x0_)) => x0.same(x0_),
            (Listener::Https(x0), Listener::Https(x0_)) => x0.same(x0_),
            (Listener::Tcp(x0), Listener::Tcp(x0_)) => x0.same(x0_),
            (Listener::Tls(x0), Listener::Tls(x0_)) => x0.same(x0_),
            (Listener::Udp(x0), Listener::Udp(x0_)) => x0.same(x0_),
            _ => false,
        }
    }
}

impl ListenerView {
    /// What the listener is made of.
    pub open spec fn made_of(self) -> ListenerDataView {
        match self {
            ListenerView::Http(data) => data,
            ListenerView::Https(data) => data,
            ListenerView::Tcp(data) => data,
            ListenerView::Tls(data) => data,
            ListenerView::Udp(data) => data,
        }
    }

    /// The protocol that the listener speaks.
    pub open spec fn speaks(self) -> ProtocolType {
        match self {
            ListenerView::Http(_) => ProtocolType::Http,
            ListenerView::Https(_) => ProtocolType::Https,
            ListenerView::Tcp(_) => ProtocolType::Tcp,
            ListenerView::Tls(_) => ProtocolType::Tls,
            ListenerView::Udp(_) => ProtocolType::Udp,
        }
    }

    /// A listener that speaks a protocol and is made of the data.
    pub open spec fn of(protocol: ProtocolType, data: ListenerDataView) -> ListenerView {
        match protocol {
            ProtocolType::Https => ListenerView::Https(data),
            ProtocolType::Tcp => ListenerView::Tcp(data),
            ProtocolType::Tls => ListenerView::Tls(data),
            ProtocolType::Udp => ListenerView::Udp(data),
            _ => ListenerView::Http(data),
        }
    }
}

impl ListenerDataView {
    /// The data with other routes: it is told where the first route that is not resolved may not
    /// refer to what it refers to.
    pub open spec fn with_routes(
        self,
        resolved: Seq<RouteView>,
        unresolved: Seq<RouteView>,
    ) -> ListenerDataView {
        let not_permitted = unresolved.len() > 0 && unresolved[0].config.resolution_status
            == ResolutionStatusView::NotResolved(NotResolvedReason::RefNotPermitted);
        ListenerDataView {
            config: self.config,
            conditions: if not_permitted {
                with_condition(
                    self.conditions,
                    ListenerConditionView::ResolvedRefs(
                        ResolvedRefsView::InvalidBackend(approved_routes()),
                    ),
                )
            } else {
                self.conditions
            },
            resolved_routes: resolved,
            unresolved_routes: unresolved,
            attached_routes: (unresolved.len() + resolved.len()) as usize,
        }
    }
}

impl Listener {
    /// What the listener is made of.
    pub fn data(&self) -> (r: &ListenerData)
        ensures
            r.deep_view() == self.deep_view().made_of(),
    {
        match self {
            Listener::Http(data) => data,
            Listener::Https(data) => data,
            Listener::Tcp(data) => data,
            Listener::Tls(data) => data,
            Listener::Udp(data) => data,
        }
    }

    /// What the listener is made of, exactly as it is held.
    pub open spec fn held(&self) -> ListenerData {
        match self {
            Listener::Http(data) => *data,
            Listener::Https(data) => *data,
            Listener::Tcp(data) => *data,
            Listener::Tls(data) => *data,
            Listener::Udp(data) => *data,
        }
    }

    /// The place of what the listener is made of.
    pub fn data_mut(&mut self) -> (r: &mut ListenerData)
        ensures
            *r == old(self).held(),
            final(self).held() == *final(r),
            final(self).deep_view().speaks() == old(self).deep_view().speaks(),
    {
        match self {
            Listener::Http(data) => data,
            Listener::Https(data) => data,
            Listener::Tcp(data) => data,
            Listener::Tls(data) => data,
            Listener::Udp(data) => data,
        }
    }

    /// The name of the listener.
    pub fn name(&self) -> (r: &str)
        ensures
            r@ == self.deep_view().made_of().config.name,
    {
        self.data().config.name.as_str()
    }

    /// The port that the listener listens at.
    pub fn port(&self) -> (r: i32)
        ensures
            r == self.deep_view().made_of().config.port,
    {
        self.data().config.port
    }

    /// The protocol that the listener speaks.
    pub fn protocol(&self) -> (r: ProtocolType)
        ensures
            r == self.deep_view().speaks(),
    {
        match self {
            Listener::Http(_) => ProtocolType::Http,
            Listener::Https(_) => ProtocolType::Https,
            Listener::Tcp(_) => ProtocolType::Tcp,
            Listener::Tls(_) => ProtocolType::Tls,
            Listener::Udp(_) => ProtocolType::Udp,
        }
    }

    /// The hostname that the listener takes requests for.
    pub fn hostname(&self) -> (r: Option<&String>)
        ensures
            r.deep_view() == self.deep_view().made_of().config.hostname,
    {
        self.data().config.hostname.as_ref()
    }

    /// How the listener is configured.
    pub fn config(&self) -> (r: &ListenerConfig)
        ensures
            r.deep_view() == self.deep_view().made_of().config,
    {
        &self.data().config
    }

    /// The conditions that the listener is in.
    pub fn conditions(&self) -> (r: &ListenerConditions)
        ensures
            r.deep_view() == self.deep_view().made_of().conditions,
    {
        &self.data().conditions
    }

    /// The place of the conditions.
    pub fn conditions_mut(&mut self) -> (r: &mut ListenerConditions)
        ensures
            *r == old(self).held().conditions,
            final(self).held() == (ListenerData { conditions: *final(r), ..old(self).held() }),
            final(self).deep_view().speaks() == old(self).deep_view().speaks(),
    {
        match self {
            Listener::Http(data) => &mut data.conditions,
            Listener::Https(data) => &mut data.conditions,
            Listener::Tcp(data) => &mut data.conditions,
            Listener::Tls(data) => &mut data.conditions,
            Listener::Udp(data) => &mut data.conditions,
        }
    }

    /// The routes whose references are resolved, and those whose are not.
    pub fn routes(&self) -> (r: (Vec<&Route>, Vec<&Route>))
        ensures
            r.0.deep_view() == self.deep_view().made_of().resolved_routes,
            r.1.deep_view() == self.deep_view().made_of().unresolved_routes,
    {
        let data = self.data();
        (data.resolved_routes.items(), data.unresolved_routes.items())
    }

    /// The number of routes that are attached.
    pub fn attached_routes(&self) -> (r: usize)
        ensures
            r == self.deep_view().made_of().attached_routes,
    {
        self.data().attached_routes
    }

    /// Takes other routes in place of those it has.
    pub fn update_routes(&mut self, resolved_routes: RouteSet, unresolved_routes: RouteSet)
        requires
            unresolved_routes.deep_view().len() + resolved_routes.deep_view().len() <= usize::MAX,
        ensures
            final(self).deep_view() == ListenerView::of(
                old(self).deep_view().speaks(),
                old(self).deep_view().made_of().with_routes(
                    resolved_routes.deep_view(),
                    unresolved_routes.deep_view(),
                ),
            ),
    {
        let not_permitted = {
            let unresolved = unresolved_routes.items();
            unresolved.len() > 0 && unresolved[0].resolution_status().same(
                &ResolutionStatus::NotResolved(NotResolvedReason::RefNotPermitted),
            )
        };
        let attached_routes: usize = unresolved_routes.len() + resolved_routes.len();
        let data = self.data_mut();
        if not_permitted {
            data.conditions.replace(
                ListenerCondition::ResolvedRefs(
                    ResolvedRefs::InvalidBackend(list_approved_routes()),
                ),
            );
        }
        data.attached_routes = attached_routes;
        data.resolved_routes = resolved_routes;
        data.unresolved_routes = unresolved_routes;
    }
}

/// A kind of route, where listeners can support it.
pub open spec fn approved_kind() -> spec_fn(Seq<char>) -> Option<Seq<char>> {
    |kind: Seq<char>|
        if approved_routes().contains(kind) {
            Some(kind)
        } else {
            None
        }
}

/// A kind of route, where listeners cannot support it.
pub open spec fn other_kind() -> spec_fn(Seq<char>) -> Option<Seq<char>> {
    |kind: Seq<char>|
        if approved_routes().contains(kind) {
            None
        } else {
            Some(kind)
        }
}

/// What a listener that names kinds of routes supports.
pub open spec fn kinds_resolved(kinds: Seq<Seq<char>>) -> ResolvedRefsView {
    let supported = chosen(kinds, approved_kind());
    let others = chosen(kinds, other_kind());
    if others.len() == 0 {
        ResolvedRefsView::Resolved(supported)
    } else if supported.len() == 0 {
        ResolvedRefsView::InvalidAllowedRoutes
    } else {
        ResolvedRefsView::ResolvedWithNotAllowedRoutes(supported)
    }
}

impl GatewayListenerView {
    /// The kinds of routes that the listener names, if it names any.
    pub open spec fn named_kinds(self) -> Option<Seq<Seq<char>>> {
        match self.allowed_routes {
            Some(allowed) => allowed.kinds,
            None => None,
        }
    }

    /// What the listener supports: what it names, else what goes with its protocol.
    pub open spec fn kinds(self) -> ResolvedRefsView {
        match self.named_kinds() {
            Some(kinds) => kinds_resolved(kinds),
            None => if self.protocol == "HTTP"@ || self.protocol == "HTTPS"@ {
                ResolvedRefsView::Resolved(http_routes())
            } else {
                ResolvedRefsView::Resolved(Seq::empty())
            },
        }
    }

    /// What the listener does with TLS: nothing, something, or it does not say what.
    pub open spec fn tls_type(self) -> Result<Option<TlsTypeView>, ListenerErrorView> {
        match self.tls {
            None => Ok(None),
            Some(tls) => match tls.mode {
                None => Err(ListenerErrorView::UnknownTlsMode),
                Some(TlsMode::Passthrough) => Ok(Some(TlsTypeView::Passthrough)),
                Some(TlsMode::Terminate) => Ok(
                    Some(
                        TlsTypeView::Terminate(
                            list_or_none(tls.certificate_refs).map_values(certificate_of()),
                        ),
                    ),
                ),
            },
        }
    }

    /// The listener that was read, or why it cannot be used.
    pub open spec fn read(self) -> Result<ListenerView, ListenerErrorView> {
        match self.tls_type() {
            Err(error) => Err(error),
            Ok(tls_type) => match protocol_named(self.protocol) {
                None => Err(ListenerErrorView::UnknownProtocol(self.protocol)),
                Some(protocol) => Ok(
                    ListenerView::of(
                        protocol,
                        ListenerDataView {
                            config: ListenerConfigView {
                                name: self.name,
                                port: self.port,
                                hostname: self.hostname,
                                tls_type,
                            },
                            conditions: seq![(0u8, ListenerConditionView::ResolvedRefs(self.kinds()))],
                            resolved_routes: Seq::empty(),
                            unresolved_routes: Seq::empty(),
                            attached_routes: 0,
                        },
                    ),
                ),
            },
        }
    }
}

/// The certificate that a reference names: its secret was not looked for yet.
pub open spec fn certificate_of() -> spec_fn(CertificateRefView) -> CertificateView {
    |reference: CertificateRefView|
        CertificateView::NotResolved(
            ResourceKeyView {
                group: text_or(reference.group, DEFAULT_GROUP_NAME@),
                namespace: text_or(reference.namespace, DEFAULT_NAMESPACE_NAME@),
                name: reference.name,
                kind: text_or(reference.kind, DEFAULT_KIND_NAME@),
            },
        )
}

fn refer_certificate(reference: &CertificateRef) -> (r: Certificate)
    ensures
        r.deep_view() == certificate_of()(reference.deep_view()),
{
    Certificate::NotResolved(
        ResourceKey::from(
            (
                reference.group.dup(),
                reference.namespace.dup(),
                reference.name.dup(),
                reference.kind.dup(),
            ),
        ),
    )
}

fn is_approved(kind: &String) -> (r: bool)
    ensures
        r == approved_routes().contains(kind@),
{
    let r = text_is(kind.as_str(), "GRPCRoute") || text_is(kind.as_str(), "HTTPRoute") || text_is(
        kind.as_str(),
        "TCPRoute",
    );
    proof {
        let approved = approved_routes();
        assert(approved[0] == "GRPCRoute"@);
        assert(approved[1] == "HTTPRoute"@);
        assert(approved[2] == "TCPRoute"@);
    }
    r
}

fn keep_approved(kind: &String) -> (r: Option<String>)
    ensures
        r.deep_view() == approved_kind()(kind.deep_view()),
{
    if is_approved(kind) {
        Some(kind.dup())
    } else {
        None
    }
}

fn keep_other(kind: &String) -> (r: Option<String>)
    ensures
        r.deep_view() == other_kind()(kind.deep_view()),
{
    if is_approved(kind) {
        None
    } else {
        Some(kind.dup())
    }
}

fn default_kinds(protocol: &String) -> (r: ResolvedRefs)
    ensures
        r.deep_view() == (if protocol@ == "HTTP"@ || protocol@ == "HTTPS"@ {
            ResolvedRefsView::Resolved(http_routes())
        } else {
            ResolvedRefsView::Resolved(Seq::empty())
        }),
{
    if text_is(protocol.as_str(), "HTTP") || text_is(protocol.as_str(), "HTTPS") {
        let kinds: Vec<String> = vec!["HTTPRoute".to_owned(), "GRPCRoute".to_owned()];
        assert(kinds.deep_view() =~= http_routes());
        ResolvedRefs::Resolved(kinds)
    } else {
        let kinds: Vec<String> = Vec::new();
        assert(kinds.deep_view() =~= Seq::<Seq<char>>::empty());
        ResolvedRefs::Resolved(kinds)
    }
}

/// The condition that a listener is in by the kinds of routes that it names.
pub fn validate_allowed_routes(listener: &GatewayListener) -> (r: ListenerCondition)
    ensures
        r.deep_view() == ListenerConditionView::ResolvedRefs(listener.deep_view().kinds()),
{
    let refs = match &listener.allowed_routes {
        Some(allowed) => match &allowed.kinds {
            Some(kinds) => {
                let supported = choose_list(kinds, keep_approved, Ghost(approved_kind()));
                let others = choose_list(kinds, keep_other, Ghost(other_kind()));
                if others.len() == 0 {
                    ResolvedRefs::Resolved(supported)
                } else if supported.len() == 0 {
                    ResolvedRefs::InvalidAllowedRoutes
                } else {
                    ResolvedRefs::ResolvedWithNotAllowedRoutes(supported)
                }
            },
            None => default_kinds(&listener.protocol),
        },
        None => default_kinds(&listener.protocol),
    };
    ListenerCondition::ResolvedRefs(refs)
}

fn read_tls(tls: &Option<ListenerTls>) -> (r: Result<Option<TlsType>, ListenerError>)
    ensures
        match tls.deep_view() {
            None => r matches Ok(None),
            Some(tls) => match tls.mode {
                None => r matches Err(ListenerError::UnknownTlsMode),
                Some(TlsMode::Passthrough) => r matches Ok(Some(TlsType::Passthrough)),
                Some(TlsMode::Terminate) => r matches Ok(Some(TlsType::Terminate(certificates)))
                    && certificates.deep_view() == list_or_none(tls.certificate_refs).map_values(
                    certificate_of(),
                ),
            },
        },
{
    match tls {
        None => Ok(None),
        Some(tls) => match &tls.mode {
            None => Err(ListenerError::UnknownTlsMode),
            Some(TlsMode::Passthrough) => Ok(Some(TlsType::Passthrough)),
            Some(TlsMode::Terminate) => {
                let references = or_no_items(&tls.certificate_refs);
                let certificates = map_list(
                    &references,
                    refer_certificate,
                    Ghost(certificate_of()),
                );
                Ok(Some(TlsType::Terminate(certificates)))
            },
        },
    }
}

impl<'a> TryFrom<&'a GatewayListener> for Listener {
    type Error = ListenerError;

    /// Reads a listener of a gateway of the cluster.
    fn try_from(listener: &'a GatewayListener) -> (r: Result<Self, ListenerError>)
        ensures
            match listener.deep_view().read() {
                Ok(read) => r is Ok && r->Ok_0.deep_view() == read,
                Err(error) => r is Err && r->Err_0.deep_view() == error,
            },
    {
        let condition = validate_allowed_routes(listener);
        let ghost kinds = condition.deep_view();
        let mut conditions = ListenerConditions::new();
        conditions.replace(condition);
        assert(conditions.deep_view() =~= seq![(0u8, kinds)]);
        let tls_type = match read_tls(&listener.tls) {
            Ok(tls_type) => tls_type,
            Err(error) => return Err(error),
        };
        let protocol = match ProtocolType::named(listener.protocol.as_str()) {
            Some(protocol) => protocol,
            None => return Err(ListenerError::UnknownProtocol(listener.protocol.dup())),
        };
        let mut config = ListenerConfig::new(
            listener.name.dup(),
            listener.port,
            listener.hostname.dup(),
        );
        config.tls_type = tls_type;
        let data = ListenerData {
            config,
            conditions,
            resolved_routes: RouteSet::new(),
            unresolved_routes: RouteSet::new(),
            attached_routes: 0,
        };
        let read = match protocol {
            ProtocolType::Https => Listener::Https(data),
            ProtocolType::Tcp => Listener::Tcp(data),
            ProtocolType::Tls => Listener::Tls(data),
            ProtocolType::Udp => Listener::Udp(data),
            _ => Listener::Http(data),
        };
        Ok(read)
    }
}

impl<'a> TryFromSpecImpl<&'a GatewayListener> for Listener {
    open spec fn obeys_try_from_spec() -> bool {
        false
    }

    open spec fn try_from_spec(listener: &'a GatewayListener) -> Result<Self, ListenerError> {
        arbitrary()
    }
}

/// The ways in which a route takes HTTP requests.
pub open spec fn http_ways() -> spec_fn(RouteView) -> Seq<HTTPEffectiveRoutingRuleView> {
    |route: RouteView|
        match route.config.route_type {
            RouteTypeView::Http(configuration) => configuration.effective_routing_rules,
            RouteTypeView::Grpc(_) => Seq::empty(),
        }
}

/// The ways in which a route takes gRPC requests.
pub open spec fn grpc_ways() -> spec_fn(RouteView) -> Seq<GRPCEffectiveRoutingRuleView> {
    |route: RouteView|
        match route.config.route_type {
            RouteTypeView::Http(_) => Seq::empty(),
            RouteTypeView::Grpc(configuration) => configuration.effective_routing_rules,
        }
}

/// The ways in which routes take HTTP requests, those of resolved routes first, then sorted.
pub open spec fn http_rules_of(
    resolved: Seq<RouteView>,
    unresolved: Seq<RouteView>,
) -> Seq<HTTPEffectiveRoutingRuleView> {
    sorted::<HTTPEffectiveRoutingRule>(
        joined(resolved, http_ways()) + joined(unresolved, http_ways()),
    )
}

/// The ways in which routes take gRPC requests, those of resolved routes first, then sorted.
pub open spec fn grpc_rules_of(
    resolved: Seq<RouteView>,
    unresolved: Seq<RouteView>,
) -> Seq<GRPCEffectiveRoutingRuleView> {
    sorted::<GRPCEffectiveRoutingRule>(
        joined(resolved, grpc_ways()) + joined(unresolved, grpc_ways()),
    )
}

impl Route {
    /// The ways in which the route takes HTTP requests.
    pub fn effective_routing_rules(&self) -> (r: Vec<HTTPEffectiveRoutingRule>)
        ensures
            r.deep_view() == http_ways()(self.deep_view()),
    {
        match &self.config.route_type {
            RouteType::Http(configuration) => configuration.effective_routing_rules.dup(),
            RouteType::Grpc(_) => no_items(),
        }
    }
}

fn list_http_ways(route: &&Route) -> (r: Vec<HTTPEffectiveRoutingRule>)
    ensures
        r.deep_view() == http_ways()(route.deep_view()),
{
    route.effective_routing_rules()
}

fn list_grpc_ways(route: &&Route) -> (r: Vec<GRPCEffectiveRoutingRule>)
    ensures
        r.deep_view() == grpc_ways()(route.deep_view()),
{
    match &route.config.route_type {
        RouteType::Http(_) => no_items(),
        RouteType::Grpc(configuration) => configuration.effective_routing_rules.dup(),
    }
}

/// Computes `http_rules_of`.
pub fn sort_http_rules(resolved: &Vec<&Route>, unresolved: &Vec<&Route>) -> (r: Vec<
    HTTPEffectiveRoutingRule,
>)
    ensures
        r.deep_view() == http_rules_of(resolved.deep_view(), unresolved.deep_view()),
{
    let mut rules = join_list(resolved, list_http_ways, Ghost(http_ways()));
    let mut more = join_list(unresolved, list_http_ways, Ghost(http_ways()));
    let ghost first = rules.deep_view();
    let ghost second = more.deep_view();
    rules.append(&mut more);
    assert(rules.deep_view() =~= first + second);
    sort(&rules)
}

/// Computes `grpc_rules_of`.
pub fn sort_grpc_rules(resolved: &Vec<&Route>, unresolved: &Vec<&Route>) -> (r: Vec<
    GRPCEffectiveRoutingRule,
>)
    ensures
        r.deep_view() == grpc_rules_of(resolved.deep_view(), unresolved.deep_view()),
{
    let mut rules = join_list(resolved, list_grpc_ways, Ghost(grpc_ways()));
    let mut more = join_list(unresolved, list_grpc_ways, Ghost(grpc_ways()));
    let ghost first = rules.deep_view();
    let ghost second = more.deep_view();
    rules.append(&mut more);
    assert(rules.deep_view() =~= first + second);
    sort(&rules)
}

impl Listener {
    /// The ways in which the routes take HTTP requests, in the order in which they are tried.
    pub fn http_matching_rules(&self) -> (r: Vec<HTTPEffectiveRoutingRule>)
        ensures
            r.deep_view() == http_rules_of(
                self.deep_view().made_of().resolved_routes,
                self.deep_view().made_of().unresolved_routes,
            ),
    {
        let (resolved, unresolved) = self.routes();
        sort_http_rules(&resolved, &unresolved)
    }

    /// The ways in which the routes take gRPC requests, in the order in which they are tried.
    pub fn grpc_matching_rules(&self) -> (r: Vec<GRPCEffectiveRoutingRule>)
        ensures
            r.deep_view() == grpc_rules_of(
                self.deep_view().made_of().resolved_routes,
                self.deep_view().made_of().unresolved_routes,
            ),
    {
        let (resolved, unresolved) = self.routes();
        sort_grpc_rules(&resolved, &unresolved)
    }

    /// The ways in which the routes take HTTP requests, in the order in which they are tried.
    pub fn effective_matching_rules(&self) -> (r: Vec<EffectiveRoutingRule>)
        ensures
            r.deep_view() == http_rules_of(
                self.deep_view().made_of().resolved_routes,
                self.deep_view().made_of().unresolved_routes,
            ),
    {
        self.http_matching_rules()
    }
}

/// Each protocol has its name, and nothing else names a protocol.
pub proof fn law_protocol_is_named(name: Seq<char>)
    ensures
        ProtocolType::Http.name() == "HTTP"@,
        ProtocolType::Https.name() == "HTTPS"@,
        ProtocolType::Tcp.name() == "TCP"@,
        ProtocolType::Tls.name() == "TLS"@,
        ProtocolType::Udp.name() == "UDP"@,
        ProtocolType::Unknown.name() == "UNKNOWN"@,
        protocol_named(name) matches Some(protocol) ==> protocol.name() == name && protocol
            != ProtocolType::Unknown,
        protocol_named(name) is None ==> name != "HTTP"@ && name != "HTTPS"@ && name != "TCP"@
            && name != "TLS"@ && name != "UDP"@,
{
}

/// Configurations of listeners stand in the order of their names, then of their ports, then of their
/// hostnames, where one without a hostname comes first.
pub proof fn law_listeners_in_order(a: ListenerConfigView, b: ListenerConfigView)
    ensures
        text_rank(a.name, b.name) == Rank::Less ==> listener_rank(a, b) == Rank::Less,
        a.name == b.name && a.port < b.port ==> listener_rank(a, b) == Rank::Less,
        a.name == b.name && a.port == b.port && a.hostname is None && b.hostname is Some
            ==> listener_rank(a, b) == Rank::Less,
        a.name == b.name && a.port == b.port && a.hostname is Some && b.hostname is Some
            && text_rank(a.hostname->0, b.hostname->0) == Rank::Less ==> listener_rank(a, b)
            == Rank::Less,
        a.name == b.name && a.port == b.port && a.hostname == b.hostname ==> listener_rank(a, b)
            == Rank::Equal,
{
    <String as Ranked>::rank_reflexive(a.name);
    <Option<String> as Ranked>::rank_reflexive(a.hostname);
}

/// A condition is reported as true where it is one that a listener should be in, under the name of what
/// it is about, with its reason.
pub proof fn law_condition_is_reported(condition: ListenerConditionView)
    ensures
        condition is Accepted ==> condition.report() == (
            "True"@,
            ListenerConditionType::Accepted,
            ListenerConditionReason::Accepted,
        ),
        condition is NotAccepted ==> condition.report() == (
            "False"@,
            ListenerConditionType::Accepted,
            ListenerConditionReason::Accepted,
        ),
        condition is Programmed ==> condition.report() == (
            "True"@,
            ListenerConditionType::Programmed,
            ListenerConditionReason::Programmed,
        ),
        condition is NotProgrammed ==> condition.report() == (
            "False"@,
            ListenerConditionType::Programmed,
            ListenerConditionReason::Programmed,
        ),
        condition is UnresolvedRouteRefs ==> condition.report() == (
            "False"@,
            ListenerConditionType::ResolvedRefs,
            ListenerConditionReason::ResolvedRefs,
        ),
        condition matches ListenerConditionView::ResolvedRefs(refs) ==> {
            let report = condition.report();
            &&& report.1 == ListenerConditionType::ResolvedRefs
            &&& report.0 == "True"@ || report.0 == "False"@
            &&& refs is Resolved || refs is InvalidBackend ==> report.0 == "True"@
            &&& !(refs is Resolved || refs is InvalidBackend) ==> report.0 == "False"@
            &&& refs is Resolved ==> report.2 == ListenerConditionReason::ResolvedRefs
            &&& refs is InvalidAllowedRoutes ==> report.2
                == ListenerConditionReason::InvalidRouteKinds
            &&& refs is ResolvedWithNotAllowedRoutes ==> report.2
                == ListenerConditionReason::InvalidRouteKinds
            &&& refs is InvalidBackend ==> report.2 == ListenerConditionReason::InvalidRouteKinds
            &&& refs is InvalidCertificates ==> report.2
                == ListenerConditionReason::InvalidCertificateRef
            &&& refs is RefNotPermitted ==> report.2 == ListenerConditionReason::RefNotPermitted
        },
{
}

/// A listener supports the kinds of routes that its references were resolved with, and all kinds that
/// listeners can support where the condition does not tell.
pub proof fn law_supported_kinds(condition: ListenerConditionView, kinds: Seq<Seq<char>>)
    ensures
        condition == ListenerConditionView::ResolvedRefs(ResolvedRefsView::Resolved(kinds))
            || condition == ListenerConditionView::ResolvedRefs(
            ResolvedRefsView::ResolvedWithNotAllowedRoutes(kinds),
        ) || condition == ListenerConditionView::ResolvedRefs(
            ResolvedRefsView::InvalidCertificates(kinds),
        ) ==> condition.supported() == kinds,
        condition == ListenerConditionView::ResolvedRefs(ResolvedRefsView::InvalidBackend(kinds))
            || condition == ListenerConditionView::ResolvedRefs(
            ResolvedRefsView::RefNotPermitted(kinds),
        ) || condition == ListenerConditionView::ResolvedRefs(ResolvedRefsView::InvalidAllowedRoutes)
            || !(condition is ResolvedRefs) ==> condition.supported() == seq![
            "GRPCRoute"@,
            "HTTPRoute"@,
            "TCPRoute"@,
        ],
{
}

/// Two conditions are about the same where both are about acceptance, both about programming, or both
/// about resolved references; routes that are not resolved are another matter.
pub proof fn law_conditions_about_the_same(a: ListenerConditionView, b: ListenerConditionView)
    ensures
        a.place() == b.place() <==> {
            ||| (a is Accepted || a is NotAccepted) && (b is Accepted || b is NotAccepted)
            ||| (a is Programmed || a is NotProgrammed) && (b is Programmed || b is NotProgrammed)
            ||| a is ResolvedRefs && b is ResolvedRefs
            ||| a is UnresolvedRouteRefs && b is UnresolvedRouteRefs
        },
        a is ResolvedRefs && !(b is ResolvedRefs) ==> a.place() < b.place(),
        a is Accepted && b is Programmed ==> a.place() < b.place(),
        a is Programmed && b is UnresolvedRouteRefs ==> a.place() < b.place(),
{
}

/// A new condition takes the place of the one about the same and leaves all others as they are.
pub proof fn law_condition_is_replaced(
    conditions: Seq<(u8, ListenerConditionView)>,
    condition: ListenerConditionView,
)
    requires
        conditions_fit(conditions),
    ensures
        table(with_condition(conditions, condition)) == table(conditions).insert(
            condition.place(),
            condition,
        ),
{
    law_put::<u8, ListenerConditionView>(conditions, condition.place(), condition);
}

/// A listener that names kinds of routes supports those of them that listeners can support, in their
/// order. It is told so where it names others too, and that none are allowed where it names only
/// others.
pub proof fn law_named_kinds(listener: GatewayListenerView, kinds: Seq<Seq<char>>)
    requires
        listener.allowed_routes is Some,
        listener.allowed_routes->0.kinds == Some(kinds),
    ensures
        (forall|i: int|
            0 <= i < kinds.len() ==> (#[trigger] kinds[i] == "GRPCRoute"@ || kinds[i] == "HTTPRoute"@
                || kinds[i] == "TCPRoute"@)) ==> listener.kinds() == ResolvedRefsView::Resolved(kinds),
        kinds.len() > 0 && (forall|i: int|
            0 <= i < kinds.len() ==> #[trigger] kinds[i] != "GRPCRoute"@ && kinds[i] != "HTTPRoute"@
                && kinds[i] != "TCPRoute"@) ==> listener.kinds()
            == ResolvedRefsView::InvalidAllowedRoutes,
        forall|i: int, j: int|
            0 <= i < kinds.len() && 0 <= j < kinds.len() && (#[trigger] kinds[i] == "GRPCRoute"@
                || kinds[i] == "HTTPRoute"@ || kinds[i] == "TCPRoute"@) && #[trigger] kinds[j]
                != "GRPCRoute"@ && kinds[j] != "HTTPRoute"@ && kinds[j] != "TCPRoute"@ ==> {
                &&& listener.kinds() is ResolvedWithNotAllowedRoutes
                &&& listener.kinds()->ResolvedWithNotAllowedRoutes_0.contains(kinds[i])
                &&& !listener.kinds()->ResolvedWithNotAllowedRoutes_0.contains(kinds[j])
            },
{
    let approved = approved_routes();
    assert(approved[0] == "GRPCRoute"@);
    assert(approved[1] == "HTTPRoute"@);
    assert(approved[2] == "TCPRoute"@);
    let good = chosen(kinds, approved_kind());
    let bad = chosen(kinds, other_kind());
    assert forall|i: int| 0 <= i < kinds.len() implies (approved.contains(#[trigger] kinds[i]) <==> (
    kinds[i] == "GRPCRoute"@ || kinds[i] == "HTTPRoute"@ || kinds[i] == "TCPRoute"@)) by {}
    assert forall|i: int| 0 <= i < kinds.len() && approved.contains(#[trigger] kinds[i]) implies good.contains(
        kinds[i],
    ) && !bad.contains(kinds[i]) by {
        chosen_contains(kinds, approved_kind(), kinds[i]);
        chosen_contains(kinds, other_kind(), kinds[i]);
        assert(approved_kind()(kinds[i]) == Some(kinds[i]));
    }
    assert forall|i: int| 0 <= i < kinds.len() && !approved.contains(#[trigger] kinds[i]) implies bad.contains(
        kinds[i],
    ) && !good.contains(kinds[i]) by {
        chosen_contains(kinds, approved_kind(), kinds[i]);
        chosen_contains(kinds, other_kind(), kinds[i]);
        assert(other_kind()(kinds[i]) == Some(kinds[i]));
    }
    if bad.len() > 0 {
        assert(bad.contains(bad[0]));
        chosen_contains(kinds, other_kind(), bad[0]);
        let i = choose|i: int|
            0 <= i < kinds.len() && #[trigger] other_kind()(kinds[i]) == Some(bad[0]);
        assert(!approved.contains(kinds[i]));
    }
    if good.len() > 0 {
        assert(good.contains(good[0]));
        chosen_contains(kinds, approved_kind(), good[0]);
        let i = choose|i: int|
            0 <= i < kinds.len() && #[trigger] approved_kind()(kinds[i]) == Some(good[0]);
        assert(approved.contains(kinds[i]));
    }
    if forall|i: int|
        0 <= i < kinds.len() ==> (#[trigger] kinds[i] == "GRPCRoute"@ || kinds[i] == "HTTPRoute"@
            || kinds[i] == "TCPRoute"@) {
        assert forall|i: int| 0 <= i < kinds.len() implies #[trigger] approved_kind()(kinds[i])
            == Some(kinds[i]) by {
            assert(approved.contains(kinds[i]));
        }
        law_chosen_of_all(kinds, approved_kind());
        assert(good =~= kinds);
    }
    if kinds.len() > 0 {
        assert(kinds[0] == kinds[0]);
    }
}

/// A listener that names no kinds of routes supports HTTP and gRPC routes where it speaks HTTP or HTTPS,
/// and else none.
pub proof fn law_default_kinds(listener: GatewayListenerView)
    requires
        listener.allowed_routes is None || listener.allowed_routes->0.kinds is None,
    ensures
        listener.protocol == "HTTP"@ || listener.protocol == "HTTPS"@ ==> listener.kinds()
            == ResolvedRefsView::Resolved(seq!["HTTPRoute"@, "GRPCRoute"@]),
        listener.protocol != "HTTP"@ && listener.protocol != "HTTPS"@ ==> listener.kinds()
            == ResolvedRefsView::Resolved(Seq::empty()),
{
}

/// A listener can be read where it names a protocol and, if it speaks of TLS, what it does with it. Else
/// it is told which of the two is missing, TLS first.
pub proof fn law_listener_can_be_read(listener: GatewayListenerView)
    ensures
        listener.tls is Some && listener.tls->0.mode is None ==> listener.read() == Err::<
            ListenerView,
            ListenerErrorView,
        >(ListenerErrorView::UnknownTlsMode),
        (listener.tls is None || listener.tls->0.mode is Some) && protocol_named(
            listener.protocol,
        ) is None ==> listener.read() == Err::<ListenerView, ListenerErrorView>(
            ListenerErrorView::UnknownProtocol(listener.protocol),
        ),
        listener.read() is Ok <==> (listener.tls is None || listener.tls->0.mode is Some)
            && protocol_named(listener.protocol) is Some,
        listener.read() is Ok ==> {
            let read = listener.read()->Ok_0;
            let data = read.made_of();
            &&& listener.protocol == "HTTP"@ ==> read is Http
            &&& listener.protocol == "HTTPS"@ ==> read is Https
            &&& listener.protocol == "TCP"@ ==> read is Tcp
            &&& listener.protocol == "TLS"@ ==> read is Tls
            &&& listener.protocol == "UDP"@ ==> read is Udp
            &&& data.config.name == listener.name
            &&& data.config.port == listener.port
            &&& data.config.hostname == listener.hostname
            &&& data.conditions.len() == 1
            &&& data.conditions[0].1 == ListenerConditionView::ResolvedRefs(listener.kinds())
            &&& data.conditions[0].0 == data.conditions[0].1.place()
            &&& data.resolved_routes.len() == 0
            &&& data.unresolved_routes.len() == 0
            &&& data.attached_routes == 0
            &&& listener.tls is None ==> data.config.tls_type is None
            &&& listener.tls is Some && listener.tls->0.mode == Some(TlsMode::Passthrough)
                ==> data.config.tls_type == Some(TlsTypeView::Passthrough)
            &&& listener.tls is Some && listener.tls->0.mode == Some(TlsMode::Terminate)
                ==> data.config.tls_type is Some && data.config.tls_type->0 is Terminate
        },
{
    reveal_strlit("HTTP");
    reveal_strlit("HTTPS");
    reveal_strlit("TCP");
    reveal_strlit("TLS");
    reveal_strlit("UDP");
    assert("HTTP"@.len() != "HTTPS"@.len());
    assert("TCP"@[1] != "TLS"@[1]);
    assert("TCP"@[0] != "UDP"@[0]);
    assert("TLS"@[0] != "UDP"@[0]);
}

/// A listener that ends TLS has a certificate for each reference, in its place: that of the secret that
/// the reference names, which was not looked for yet.
pub proof fn law_certificates_are_read(listener: GatewayListenerView)
    requires
        listener.read() is Ok,
        listener.tls is Some,
        listener.tls->0.mode == Some(TlsMode::Terminate),
    ensures
        ({
            let read = listener.read()->Ok_0.made_of().config.tls_type->0->Terminate_0;
            &&& listener.tls->0.certificate_refs is None ==> read.len() == 0
            &&& listener.tls->0.certificate_refs is Some ==> {
                let references = listener.tls->0.certificate_refs->0;
                &&& read.len() == references.len()
                &&& forall|i: int|
                    0 <= i < references.len() ==> {
                        let reference = references[i];
                        &&& #[trigger] read[i] is NotResolved
                        &&& read[i].key().name == reference.name
                        &&& reference.namespace is Some ==> read[i].key().namespace
                            == reference.namespace->0
                        &&& reference.namespace is None ==> read[i].key().namespace == "default"@
                        &&& reference.kind is Some ==> read[i].key().kind == reference.kind->0
                        &&& reference.kind is None ==> read[i].key().kind == "Gateway"@
                        &&& reference.group is Some ==> read[i].key().group == reference.group->0
                        &&& reference.group is None ==> read[i].key().group
                            == "gateway.networking.k8s.io"@
                    }
            }
        }),
{
}

/// A listener with other routes has as many attached as there are of both kinds. It keeps how it is
/// configured, and its conditions, but for the one that tells of a reference that is not permitted.
pub proof fn law_other_routes(
    data: ListenerDataView,
    resolved: Seq<RouteView>,
    unresolved: Seq<RouteView>,
)
    requires
        conditions_fit(data.conditions),
        resolved.len() + unresolved.len() <= usize::MAX,
    ensures
        ({
            let after = data.with_routes(resolved, unresolved);
            let not_permitted = unresolved.len() > 0 && unresolved[0].config.resolution_status
                == ResolutionStatusView::NotResolved(NotResolvedReason::RefNotPermitted);
            &&& after.config == data.config
            &&& after.resolved_routes == resolved
            &&& after.unresolved_routes == unresolved
            &&& after.attached_routes == resolved.len() + unresolved.len()
            &&& !not_permitted ==> after.conditions == data.conditions
            &&& not_permitted ==> table(after.conditions) == table(data.conditions).insert(
                0u8,
                ListenerConditionView::ResolvedRefs(
                    ResolvedRefsView::InvalidBackend(
                        seq!["GRPCRoute"@, "HTTPRoute"@, "TCPRoute"@],
                    ),
                ),
            )
        }),
{
    law_condition_is_replaced(
        data.conditions,
        ListenerConditionView::ResolvedRefs(ResolvedRefsView::InvalidBackend(approved_routes())),
    );
}

/// A listener that speaks a protocol is the one of that protocol.
pub proof fn law_listener_speaks(listener: ListenerView, data: ListenerDataView)
    ensures
        listener is Http ==> listener.speaks() == ProtocolType::Http,
        listener is Https ==> listener.speaks() == ProtocolType::Https,
        listener is Tcp ==> listener.speaks() == ProtocolType::Tcp,
        listener is Tls ==> listener.speaks() == ProtocolType::Tls,
        listener is Udp ==> listener.speaks() == ProtocolType::Udp,
        ListenerView::of(listener.speaks(), data).speaks() == listener.speaks(),
        ListenerView::of(listener.speaks(), data).made_of() == data,
        ListenerView::of(listener.speaks(), listener.made_of()) == listener,
{
}

/// The rules that are tried are the ways of all routes, resolved or not, and no other: each as often as
/// it comes, in the order of the ways.
pub proof fn law_rules_of_routes(
    resolved: Seq<RouteView>,
    unresolved: Seq<RouteView>,
    http: HTTPEffectiveRoutingRuleView,
    grpc: GRPCEffectiveRoutingRuleView,
)
    ensures
        in_order::<HTTPEffectiveRoutingRule>(http_rules_of(resolved, unresolved)),
        in_order::<GRPCEffectiveRoutingRule>(grpc_rules_of(resolved, unresolved)),
        http_rules_of(resolved, unresolved).contains(http) <==> exists|i: int|
            0 <= i < resolved.len() + unresolved.len() && (#[trigger] (resolved
                + unresolved)[i]).config.route_type is Http && (resolved
                + unresolved)[i].config.route_type->Http_0.effective_routing_rules.contains(http),
        grpc_rules_of(resolved, unresolved).contains(grpc) <==> exists|i: int|
            0 <= i < resolved.len() + unresolved.len() && (#[trigger] (resolved
                + unresolved)[i]).config.route_type is Grpc && (resolved
                + unresolved)[i].config.route_type->Grpc_0.effective_routing_rules.contains(grpc),
{
    let routes = resolved + unresolved;
    law_joined_of_both(resolved, unresolved, http_ways());
    law_joined_of_both(resolved, unresolved, grpc_ways());
    law_sorted::<HTTPEffectiveRoutingRule>(joined(routes, http_ways()));
    law_sorted::<GRPCEffectiveRoutingRule>(joined(routes, grpc_ways()));
    same_items(http_rules_of(resolved, unresolved), joined(routes, http_ways()), http);
    same_items(grpc_rules_of(resolved, unresolved), joined(routes, grpc_ways()), grpc);
    joined_contains(routes, http_ways(), http);
    joined_contains(routes, grpc_ways(), grpc);
    if joined(routes, http_ways()).contains(http) {
        let i = choose|i: int|
            0 <= i < routes.len() && #[trigger] http_ways()(routes[i]).contains(http);
        assert((resolved + unresolved)[i].config.route_type is Http);
    }
    if exists|i: int|
        0 <= i < resolved.len() + unresolved.len() && (#[trigger] (resolved
            + unresolved)[i]).config.route_type is Http && (resolved
            + unresolved)[i].config.route_type->Http_0.effective_routing_rules.contains(http) {
        let i = choose|i: int|
            0 <= i < resolved.len() + unresolved.len() && (#[trigger] (resolved
                + unresolved)[i]).config.route_type is Http && (resolved
                + unresolved)[i].config.route_type->Http_0.effective_routing_rules.contains(http);
        assert(http_ways()(routes[i]).contains(http));
    }
    if joined(routes, grpc_ways()).contains(grpc) {
        let i = choose|i: int|
            0 <= i < routes.len() && #[trigger] grpc_ways()(routes[i]).contains(grpc);
        assert((resolved + unresolved)[i].config.route_type is Grpc);
    }
    if exists|i: int|
        0 <= i < resolved.len() + unresolved.len() && (#[trigger] (resolved
            + unresolved)[i]).config.route_type is Grpc && (resolved
            + unresolved)[i].config.route_type->Grpc_0.effective_routing_rules.contains(grpc) {
        let i = choose|i: int|
            0 <= i < resolved.len() + unresolved.len() && (#[trigger] (resolved
                + unresolved)[i]).config.route_type is Grpc && (resolved
                + unresolved)[i].config.route_type->Grpc_0.effective_routing_rules.contains(grpc);
        assert(grpc_ways()(routes[i]).contains(grpc));
    }
}

proof fn same_items<A>(a: Seq<A>, b: Seq<A>, item: A)
    requires
        a.to_multiset() == b.to_multiset(),
    ensures
        a.contains(item) == b.contains(item),
{
    a.to_multiset_ensures();
    b.to_multiset_ensures();
    assert(a.contains(item) <==> a.to_multiset().count(item) > 0);
    assert(b.contains(item) <==> b.to_multiset().count(item) > 0);
}

/// Of two gRPC rules of a listener that ask for headers, the one that is tried later asks for no more of
/// them; a rule that asks for headers is not tried behind one that does not.
pub proof fn law_rules_tried_by_headers(
    resolved: Seq<RouteView>,
    unresolved: Seq<RouteView>,
    i: int,
    j: int,
)
    requires
        0 <= i < j < grpc_rules_of(resolved, unresolved).len(),
        grpc_rules_of(resolved, unresolved)[j].route_matcher.headers is Some,
    ensures
        grpc_rules_of(resolved, unresolved)[i].route_matcher.headers is Some,
        grpc_rules_of(resolved, unresolved)[i].route_matcher.headers->0.len() >= grpc_rules_of(
            resolved,
            unresolved,
        )[j].route_matcher.headers->0.len(),
{
    let all = joined(resolved, grpc_ways()) + joined(unresolved, grpc_ways());
    law_sorted::<GRPCEffectiveRoutingRule>(all);
    law_sorted_by_headers(all, i, j);
}

/// Configurations of listeners are compared as they stand to each other.
pub proof fn law_listeners_compared(a: ListenerConfig, b: ListenerConfig)
    ensures
        listener_rank(a.deep_view(), b.deep_view()) == Rank::Less
            ==> PartialOrdSpec::partial_cmp_spec(&a, &b) == Some(Ordering::Less),
        listener_rank(a.deep_view(), b.deep_view()) == Rank::Equal
            ==> PartialOrdSpec::partial_cmp_spec(&a, &b) == Some(Ordering::Equal),
        listener_rank(a.deep_view(), b.deep_view()) == Rank::Greater
            ==> PartialOrdSpec::partial_cmp_spec(&a, &b) == Some(Ordering::Greater),
{
}

/// Two conditions are the same where they are of one kind, whatever they hold, and stand to each other as
/// their places do.
pub proof fn law_conditions_told_apart(a: ListenerCondition, b: ListenerCondition)
    ensures
        PartialEqSpec::eq_spec(&a, &b) <==> {
            ||| a is ResolvedRefs && b is ResolvedRefs
            ||| a is UnresolvedRouteRefs && b is UnresolvedRouteRefs
            ||| a is Accepted && b is Accepted
            ||| a is NotAccepted && b is NotAccepted
            ||| a is Programmed && b is Programmed
            ||| a is NotProgrammed && b is NotProgrammed
        },
        places_rank(a.deep_view().place(), b.deep_view().place()) == Rank::Less
            ==> PartialOrdSpec::partial_cmp_spec(&a, &b) == Some(Ordering::Less),
        places_rank(a.deep_view().place(), b.deep_view().place()) == Rank::Equal
            ==> PartialOrdSpec::partial_cmp_spec(&a, &b) == Some(Ordering::Equal),
        places_rank(a.deep_view().place(), b.deep_view().place()) == Rank::Greater
            ==> PartialOrdSpec::partial_cmp_spec(&a, &b) == Some(Ordering::Greater),
{
}

} // verus!
