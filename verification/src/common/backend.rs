//! Backends that routes send requests to.
use core::cmp::Ordering;
use vstd::prelude::*;
use vstd::std_specs::cmp::{PartialOrdSpec, PartialOrdSpecImpl};
use crate::common::address::{HostText, HostTextView};
use crate::common::resource_key::{ResourceKey, ResourceKeyView};
use crate::model::Model;
use crate::order::{Rank, Ranked, option_rank, rank_laws, seq_rank, text_rank};
use crate::ordered::OrderedMap;
use crate::text::cat3;

verus! {

/// The name of the cluster of a backend.
pub open spec fn cluster_of(key: ResourceKeyView) -> Seq<char> {
    key.name + "."@ + key.namespace
}

/// What every backend tells, whatever its type.
pub trait BackendTypeConfig {
    /// The key of the backend.
    spec fn key(&self) -> ResourceKeyView;

    /// The share of the requests that it gets.
    spec fn share(&self) -> i32;

    fn resource_key(&self) -> (r: ResourceKey)
        ensures
            r.deep_view() == self.key(),
    ;

    fn weight(&self) -> (r: i32)
        ensures
            r == self.share(),
    ;

    fn cluster_name(&self) -> (r: String)
        ensures
            r@ == cluster_of(self.key()),
    ;
}

fn cluster_text(key: &ResourceKey) -> (r: String)
    ensures
        r@ == cluster_of(key.deep_view()),
{
    cat3(key.name.as_str(), ".", key.namespace.as_str())
}

/// A service.
#[derive(Debug, PartialEq, Eq, PartialOrd, Ord, Hash)]
pub struct ServiceTypeConfig {
    pub resource_key: ResourceKey,
    pub endpoint: String,
    pub port: i32,
    pub effective_port: i32,
    pub weight: i32,
}

/// What a [`ServiceTypeConfig`] holds.
#[verifier::ext_equal]
pub struct ServiceTypeConfigView {
    pub resource_key: ResourceKeyView,
    pub endpoint: Seq<char>,
    pub port: i32,
    pub effective_port: i32,
    pub weight: i32,
}

impl DeepView for ServiceTypeConfig {
    type V = ServiceTypeConfigView;

    open spec fn deep_view(&self) -> ServiceTypeConfigView {
        ServiceTypeConfigView {
            resource_key: self.resource_key.deep_view(),
            endpoint: self.endpoint.deep_view(),
            port: self.port.deep_view(),
            effective_port: self.effective_port.deep_view(),
            weight: self.weight.deep_view(),
        }
    }
}

impl Model for ServiceTypeConfig {
    fn dup(&self) -> (r: Self) {
        ServiceTypeConfig {
            resource_key: self.resource_key.dup(),
            endpoint: self.endpoint.dup(),
            port: self.port.dup(),
            effective_port: self.effective_port.dup(),
            weight: self.weight.dup(),
        }
    }

    fn same(&self, other: &Self) -> (r: bool) {
        self.resource_key.same(&other.resource_key)
            && self.endpoint.same(&other.endpoint)
            && self.port.same(&other.port)
            && self.effective_port.same(&other.effective_port)
            && self.weight.same(&other.weight)
    }
}

/// A service, where nothing but services can be a backend.
pub type BackendServiceConfig = ServiceTypeConfig;

impl BackendTypeConfig for ServiceTypeConfig {
    open spec fn key(&self) -> ResourceKeyView {
        self.resource_key.deep_view()
    }

    open spec fn share(&self) -> i32 {
        self.weight
    }

    fn resource_key(&self) -> (r: ResourceKey) {
        self.resource_key.dup()
    }

    fn weight(&self) -> (r: i32) {
        self.weight
    }

    fn cluster_name(&self) -> (r: String) {
        cluster_text(&self.resource_key)
    }
}

/// What a gateway does with a request where the extension of a pool does not answer.
#[derive(Clone, Copy, Debug, PartialEq, Eq, Structural)]
pub enum FailureMode {
    FailClose,
    FailOpen,
}

impl DeepView for FailureMode {
    type V = FailureMode;

    open spec fn deep_view(&self) -> FailureMode {
        *self
    }
}

impl Model for FailureMode {
    fn dup(&self) -> (r: Self) {
        *self
    }

    fn same(&self, other: &Self) -> (r: bool) {
        *self == *other
    }
}

impl FailureMode {
    /// How two modes stand to each other.
    pub open spec fn mode_rank(a: FailureMode, b: FailureMode) -> Rank {
        match (a, b) {
            (FailureMode::FailOpen, FailureMode::FailClose) => Rank::Greater,
            (FailureMode::FailClose, FailureMode::FailOpen) => Rank::Less,
            _ => Rank::Equal,
        }
    }
}

impl Ranked for FailureMode {
    open spec fn rank(a: FailureMode, b: FailureMode) -> Rank {
        FailureMode::mode_rank(a, b)
    }

    proof fn rank_reflexive(a: FailureMode) {
    }

    proof fn rank_flips(a: FailureMode, b: FailureMode) {
    }

    proof fn rank_chains(a: FailureMode, b: FailureMode, c: FailureMode) {
    }

    fn against(&self, other: &Self) -> (r: Rank) {
        match (self, other) {
            (FailureMode::FailOpen, FailureMode::FailClose) => Rank::Greater,
            (FailureMode::FailClose, FailureMode::FailOpen) => Rank::Less,
            _ => Rank::Equal,
        }
    }
}

/// The extension that picks an endpoint of a pool.
#[derive(Debug, PartialEq, Eq)]
pub struct ExtensionRef {
    pub failure_mode: Option<FailureMode>,
    pub group: Option<String>,
    pub kind: Option<String>,
    pub name: String,
    pub port_number: Option<i32>,
}

/// What a [`ExtensionRef`] holds.
#[verifier::ext_equal]
pub struct ExtensionRefView {
    pub failure_mode: Option<FailureMode>,
    pub group: Option<Seq<char>>,
    pub kind: Option<Seq<char>>,
    pub name: Seq<char>,
    pub port_number: Option<i32>,
}

impl DeepView for ExtensionRef {
    type V = ExtensionRefView;

    open spec fn deep_view(&self) -> ExtensionRefView {
        ExtensionRefView {
            failure_mode: self.failure_mode.deep_view(),
            group: self.group.deep_view(),
            kind: self.kind.deep_view(),
            name: self.name.deep_view(),
            port_number: self.port_number.deep_view(),
        }
    }
}

impl Model for ExtensionRef {
    fn dup(&self) -> (r: Self) {
        ExtensionRef {
            failure_mode: self.failure_mode.dup(),
            group: self.group.dup(),
            kind: self.kind.dup(),
            name: self.name.dup(),
            port_number: self.port_number.dup(),
        }
    }

    fn same(&self, other: &Self) -> (r: bool) {
        self.failure_mode.same(&other.failure_mode)
            && self.group.same(&other.group)
            && self.kind.same(&other.kind)
            && self.name.same(&other.name)
            && self.port_number.same(&other.port_number)
    }
}

/// How a pool is configured.
#[derive(Debug, PartialEq, Eq)]
pub struct InferencePoolConfig {
    pub extension_ref: ExtensionRef,
    pub target_port_number: i32,
    pub selector: OrderedMap<String, String>,
}

/// What a [`InferencePoolConfig`] holds.
#[verifier::ext_equal]
pub struct InferencePoolConfigView {
    pub extension_ref: ExtensionRefView,
    pub target_port_number: i32,
    pub selector: Seq<(Seq<char>, Seq<char>)>,
}

impl DeepView for InferencePoolConfig {
    type V = InferencePoolConfigView;

    open spec fn deep_view(&self) -> InferencePoolConfigView {
        InferencePoolConfigView {
            extension_ref: self.extension_ref.deep_view(),
            target_port_number: self.target_port_number.deep_view(),
            selector: self.selector.deep_view(),
        }
    }
}

impl Model for InferencePoolConfig {
    fn dup(&self) -> (r: Self) {
        InferencePoolConfig {
            extension_ref: self.extension_ref.dup(),
            target_port_number: self.target_port_number.dup(),
            selector: self.selector.dup(),
        }
    }

    fn same(&self, other: &Self) -> (r: bool) {
        self.extension_ref.same(&other.extension_ref)
            && self.target_port_number.same(&other.target_port_number)
            && self.selector.same(&other.selector)
    }
}

impl InferencePoolConfig {
    /// The extension that picks an endpoint.
    pub fn extension_ref(&self) -> (r: &ExtensionRef)
        ensures
            *r == self.extension_ref,
    {
        &self.extension_ref
    }
}

/// How two configurations of pools stand to each other: part by part.
pub open spec fn pool_rank(a: InferencePoolConfigView, b: InferencePoolConfigView) -> Rank {
    option_rank::<FailureMode>(a.extension_ref.failure_mode, b.extension_ref.failure_mode).or(
        option_rank::<String>(a.extension_ref.group, b.extension_ref.group),
    ).or(option_rank::<String>(a.extension_ref.kind, b.extension_ref.kind)).or(
        text_rank(a.extension_ref.name, b.extension_ref.name),
    ).or(option_rank::<i32>(a.extension_ref.port_number, b.extension_ref.port_number)).or(
        <i32 as Ranked>::rank(a.target_port_number, b.target_port_number),
    ).or(seq_rank::<(String, String)>(a.selector, b.selector))
}

impl Ranked for InferencePoolConfig {
    open spec fn rank(a: InferencePoolConfigView, b: InferencePoolConfigView) -> Rank {
        pool_rank(a, b)
    }

    proof fn rank_reflexive(a: InferencePoolConfigView) {
        assert(Self::rank(a, a) == pool_rank(a, a));
        rank_laws::<Option<FailureMode>>(
            a.extension_ref.failure_mode,
            a.extension_ref.failure_mode,
            a.extension_ref.failure_mode,
        );
        <Option<String> as Ranked>::rank_reflexive(a.extension_ref.group);
        <Option<String> as Ranked>::rank_reflexive(a.extension_ref.kind);
        <String as Ranked>::rank_reflexive(a.extension_ref.name);
        <Option<i32> as Ranked>::rank_reflexive(a.extension_ref.port_number);
        <Vec<(String, String)> as Ranked>::rank_reflexive(a.selector);
    }

    proof fn rank_flips(a: InferencePoolConfigView, b: InferencePoolConfigView) {
        <Option<FailureMode> as Ranked>::rank_flips(
            a.extension_ref.failure_mode,
            b.extension_ref.failure_mode,
        );
        <Option<String> as Ranked>::rank_flips(a.extension_ref.group, b.extension_ref.group);
        <Option<String> as Ranked>::rank_flips(a.extension_ref.kind, b.extension_ref.kind);
        <String as Ranked>::rank_flips(a.extension_ref.name, b.extension_ref.name);
        <Option<i32> as Ranked>::rank_flips(
            a.extension_ref.port_number,
            b.extension_ref.port_number,
        );
        <Vec<(String, String)> as Ranked>::rank_flips(a.selector, b.selector);
    }

    proof fn rank_chains(
        a: InferencePoolConfigView,
        b: InferencePoolConfigView,
        c: InferencePoolConfigView,
    ) {
        let (x, y, z) = (a.extension_ref, b.extension_ref, c.extension_ref);
        rank_laws::<Option<FailureMode>>(x.failure_mode, y.failure_mode, z.failure_mode);
        rank_laws::<Option<String>>(x.group, y.group, z.group);
        rank_laws::<Option<String>>(x.kind, y.kind, z.kind);
        rank_laws::<String>(x.name, y.name, z.name);
        rank_laws::<Option<i32>>(x.port_number, y.port_number, z.port_number);
        rank_laws::<Vec<(String, String)>>(a.selector, b.selector, c.selector);
    }

    fn against(&self, other: &Self) -> (r: Rank) {
        let this = &self.extension_ref;
        let that = &other.extension_ref;
        match this.failure_mode.against(&that.failure_mode) {
            Rank::Equal => {},
            outcome => return outcome,
        }
        match this.group.against(&that.group) {
            Rank::Equal => {},
            outcome => return outcome,
        }
        match this.kind.against(&that.kind) {
            Rank::Equal => {},
            outcome => return outcome,
        }
        match this.name.against(&that.name) {
            Rank::Equal => {},
            outcome => return outcome,
        }
        match this.port_number.against(&that.port_number) {
            Rank::Equal => {},
            outcome => return outcome,
        }
        match self.target_port_number.against(&other.target_port_number) {
            Rank::Equal => {},
            outcome => return outcome,
        }
        self.selector.entries().against(other.selector.entries())
    }
}

impl PartialOrd for InferencePoolConfig {
    fn partial_cmp(&self, other: &Self) -> (r: Option<Ordering>) {
        Some(self.against(other).to_named())
    }
}

impl PartialOrdSpecImpl for InferencePoolConfig {
    open spec fn obeys_partial_cmp_spec() -> bool {
        true
    }

    open spec fn partial_cmp_spec(&self, other: &Self) -> Option<Ordering> {
        Some(pool_rank(self.deep_view(), other.deep_view()).named())
    }
}

/// A pool of endpoints, one of which an extension picks for each request.
#[derive(Debug, PartialEq, Eq)]
pub struct InferencePoolTypeConfig {
    pub resource_key: ResourceKey,
    pub endpoint: String,
    pub port: i32,
    pub effective_port: i32,
    pub target_ports: Vec<i32>,
    pub weight: i32,
    pub inference_config: Option<InferencePoolConfig>,
    pub endpoints: Option<Vec<HostText>>,
}

/// What a [`InferencePoolTypeConfig`] holds.
#[verifier::ext_equal]
pub struct InferencePoolTypeConfigView {
    pub resource_key: ResourceKeyView,
    pub endpoint: Seq<char>,
    pub port: i32,
    pub effective_port: i32,
    pub target_ports: Seq<i32>,
    pub weight: i32,
    pub inference_config: Option<InferencePoolConfigView>,
    pub endpoints: Option<Seq<HostTextView>>,
}

impl DeepView for InferencePoolTypeConfig {
    type V = InferencePoolTypeConfigView;

    open spec fn deep_view(&self) -> InferencePoolTypeConfigView {
        InferencePoolTypeConfigView {
            resource_key: self.resource_key.deep_view(),
            endpoint: self.endpoint.deep_view(),
            port: self.port.deep_view(),
            effective_port: self.effective_port.deep_view(),
            target_ports: self.target_ports.deep_view(),
            weight: self.weight.deep_view(),
            inference_config: self.inference_config.deep_view(),
            endpoints: self.endpoints.deep_view(),
        }
    }
}

impl Model for InferencePoolTypeConfig {
    fn dup(&self) -> (r: Self) {
        InferencePoolTypeConfig {
            resource_key: self.resource_key.dup(),
            endpoint: self.endpoint.dup(),
            port: self.port.dup(),
            effective_port: self.effective_port.dup(),
            target_ports: self.target_ports.dup(),
            weight: self.weight.dup(),
            inference_config: self.inference_config.dup(),
            endpoints: self.endpoints.dup(),
        }
    }

    fn same(&self, other: &Self) -> (r: bool) {
        self.resource_key.same(&other.resource_key)
            && self.endpoint.same(&other.endpoint)
            && self.port.same(&other.port)
            && self.effective_port.same(&other.effective_port)
            && self.target_ports.same(&other.target_ports)
            && self.weight.same(&other.weight)
            && self.inference_config.same(&other.inference_config)
            && self.endpoints.same(&other.endpoints)
    }
}

impl BackendTypeConfig for InferencePoolTypeConfig {
    open spec fn key(&self) -> ResourceKeyView {
        self.resource_key.deep_view()
    }

    open spec fn share(&self) -> i32 {
        self.weight
    }

    fn resource_key(&self) -> (r: ResourceKey) {
        self.resource_key.dup()
    }

    fn weight(&self) -> (r: i32) {
        self.weight
    }

    fn cluster_name(&self) -> (r: String) {
        cluster_text(&self.resource_key)
    }
}

/// A backend of a type that is not known.
#[derive(Debug, PartialEq, Eq, PartialOrd, Ord, Hash)]
pub struct InvalidTypeConfig {
    pub resource_key: ResourceKey,
}

/// What a [`InvalidTypeConfig`] holds.
#[verifier::ext_equal]
pub struct InvalidTypeConfigView {
    pub resource_key: ResourceKeyView,
}

impl DeepView for InvalidTypeConfig {
    type V = InvalidTypeConfigView;

    open spec fn deep_view(&self) -> InvalidTypeConfigView {
        InvalidTypeConfigView {
            resource_key: self.resource_key.deep_view(),
        }
    }
}

impl Model for InvalidTypeConfig {
    fn dup(&self) -> (r: Self) {
        InvalidTypeConfig {
            resource_key: self.resource_key.dup(),
        }
    }

    fn same(&self, other: &Self) -> (r: bool) {
        self.resource_key.same(&other.resource_key)
    }
}

impl BackendTypeConfig for InvalidTypeConfig {
    open spec fn key(&self) -> ResourceKeyView {
        self.resource_key.deep_view()
    }

    open spec fn share(&self) -> i32 {
        1
    }

    fn resource_key(&self) -> (r: ResourceKey) {
        self.resource_key.dup()
    }

    fn weight(&self) -> (r: i32) {
        1
    }

    fn cluster_name(&self) -> (r: String) {
        cluster_text(&self.resource_key)
    }
}

/// A backend by its type.
#[derive(Debug, PartialEq, Eq)]
pub enum BackendType {
    Service(ServiceTypeConfig),
    InferencePool(InferencePoolTypeConfig),
    Invalid(ServiceTypeConfig),
}

/// What a [`BackendType`] holds.
#[verifier::ext_equal]
pub enum BackendTypeView {
    Service(ServiceTypeConfigView),
    InferencePool(InferencePoolTypeConfigView),
    Invalid(ServiceTypeConfigView),
}

impl DeepView for BackendType {
    type V = BackendTypeView;

    open spec fn deep_view(&self) -> BackendTypeView {
        match self {
            BackendType::Service(x0) => BackendTypeView::Service(x0.deep_view()),
            BackendType::InferencePool(x0) => BackendTypeView::InferencePool(x0.deep_view()),
            BackendType::Invalid(x0) => BackendTypeView::Invalid(x0.deep_view()),
        }
    }
}

impl Model for BackendType {
    fn dup(&self) -> (r: Self) {
        match self {
            BackendType::Service(x0) => BackendType::Service(x0.dup()),
            BackendType::InferencePool(x0) => BackendType::InferencePool(x0.dup()),
            BackendType::Invalid(x0) => BackendType::Invalid(x0.dup()),
        }
    }

    fn same(&self, other: &Self) -> (r: bool) {
        match (self, other) {
            (BackendType::Service(x0), BackendType::Service(x0_)) => x0.same(x0_),
            (BackendType::InferencePool(x0), BackendType::InferencePool(x0_)) => x0.same(x0_),
            (BackendType::Invalid(x0), BackendType::Invalid(x0_)) => x0.same(x0_),
            _ => false,
        }
    }
}

impl BackendTypeView {
    /// The key of the backend.
    pub open spec fn key(self) -> ResourceKeyView {
        match self {
            BackendTypeView::Service(config) => config.resource_key,
            BackendTypeView::InferencePool(config) => config.resource_key,
            BackendTypeView::Invalid(config) => config.resource_key,
        }
    }
}

impl BackendType {
    /// The key of the backend.
    pub fn resource_key(&self) -> (r: ResourceKey)
        ensures
            r.deep_view() == self.deep_view().key(),
    {
        match self {
            BackendType::Service(config) => config.resource_key(),
            BackendType::InferencePool(config) => config.resource_key(),
            BackendType::Invalid(config) => config.resource_key(),
        }
    }
}

/// A backend, with what is known of the reference to it.
#[derive(Debug, PartialEq, Eq)]
pub enum Backend {
    Resolved(BackendType),
    Unresolved(BackendType),
    NotAllowed(BackendType),
    Maybe(BackendType),
    Invalid(BackendType),
}

/// What a [`Backend`] holds.
#[verifier::ext_equal]
pub enum BackendView {
    Resolved(BackendTypeView),
    Unresolved(BackendTypeView),
    NotAllowed(BackendTypeView),
    Maybe(BackendTypeView),
    Invalid(BackendTypeView),
}

impl DeepView for Backend {
    type V = BackendView;

    open spec fn deep_view(&self) -> BackendView {
        match self {
            Backend::Resolved(x0) => BackendView::Resolved(x0.deep_view()),
            Backend::Unresolved(x0) => BackendView::Unresolved(x0.deep_view()),
            Backend::NotAllowed(x0) => BackendView::NotAllowed(x0.deep_view()),
            Backend::Maybe(x0) => BackendView::Maybe(x0.deep_view()),
            Backend::Invalid(x0) => BackendView::Invalid(x0.deep_view()),
        }
    }
}

impl Model for Backend {
    fn dup(&self) -> (r: Self) {
        match self {
            Backend::Resolved(x0) => Backend::Resolved(x0.dup()),
            Backend::Unresolved(x0) => Backend::Unresolved(x0.dup()),
            Backend::NotAllowed(x0) => Backend::NotAllowed(x0.dup()),
            Backend::Maybe(x0) => Backend::Maybe(x0.dup()),
            Backend::Invalid(x0) => Backend::Invalid(x0.dup()),
        }
    }

    fn same(&self, other: &Self) -> (r: bool) {
        match (self, other) {
            (Backend::Resolved(x0), Backend::Resolved(x0_)) => x0.same(x0_),
            (Backend::Unresolved(x0), Backend::Unresolved(x0_)) => x0.same(x0_),
            (Backend::NotAllowed(x0), Backend::NotAllowed(x0_)) => x0.same(x0_),
            (Backend::Maybe(x0), Backend::Maybe(x0_)) => x0.same(x0_),
            (Backend::Invalid(x0), Backend::Invalid(x0_)) => x0.same(x0_),
            _ => false,
        }
    }
}

impl BackendView {
    /// The backend by its type.
    pub open spec fn typed(self) -> BackendTypeView {
        match self {
            BackendView::Resolved(typed) => typed,
            BackendView::Unresolved(typed) => typed,
            BackendView::NotAllowed(typed) => typed,
            BackendView::Maybe(typed) => typed,
            BackendView::Invalid(typed) => typed,
        }
    }
}

impl Backend {
    /// The key of the backend.
    pub fn resource_key(&self) -> (r: ResourceKey)
        ensures
            r.deep_view() == self.deep_view().typed().key(),
    {
        self.backend_type().resource_key()
    }

    /// The backend by its type.
    pub fn backend_type(&self) -> (r: &BackendType)
        ensures
            r.deep_view() == self.deep_view().typed(),
    {
        match self {
            Backend::Resolved(typed) => typed,
            Backend::Unresolved(typed) => typed,
            Backend::NotAllowed(typed) => typed,
            Backend::Maybe(typed) => typed,
            Backend::Invalid(typed) => typed,
        }
    }
}

/// The cluster of a backend is named by its name, a dot and its namespace.
pub proof fn law_cluster_name(key: ResourceKeyView)
    ensures
        cluster_of(key) == key.name + "."@ + key.namespace,
{
}

/// A mode that lets requests through comes behind one that stops them.
pub proof fn law_modes_in_order(a: FailureMode, b: FailureMode)
    ensures
        a is FailClose && b is FailOpen ==> <FailureMode as Ranked>::rank(a, b) == Rank::Less,
        a is FailOpen && b is FailClose ==> <FailureMode as Ranked>::rank(a, b) == Rank::Greater,
        a == b ==> <FailureMode as Ranked>::rank(a, b) == Rank::Equal,
{
}

/// Configurations of pools stand in the order of their extensions: of what those do in the case of
/// failure, of their groups, kinds, names and ports; then of the ports of the pools.
pub proof fn law_pools_in_order(a: InferencePoolConfigView, b: InferencePoolConfigView)
    ensures
        ({
            let (x, y) = (a.extension_ref, b.extension_ref);
            let less = <InferencePoolConfig as Ranked>::rank(a, b) == Rank::Less;
            let mode = x.failure_mode == y.failure_mode;
            let group = mode && x.group == y.group;
            let kind = group && x.kind == y.kind;
            let name = kind && x.name == y.name;
            let port = name && x.port_number == y.port_number;
            &&& x.failure_mode is None && y.failure_mode is Some ==> less
            &&& mode && x.group is None && y.group is Some ==> less
            &&& group && x.kind is None && y.kind is Some ==> less
            &&& kind && text_rank(x.name, y.name) == Rank::Less ==> less
            &&& name && x.port_number is Some && y.port_number is Some && x.port_number->0
                < y.port_number->0 ==> less
            &&& port && a.target_port_number < b.target_port_number ==> less
        }),
{
    <Option<FailureMode> as Ranked>::rank_reflexive(a.extension_ref.failure_mode);
    <Option<String> as Ranked>::rank_reflexive(a.extension_ref.group);
    <Option<String> as Ranked>::rank_reflexive(a.extension_ref.kind);
    <String as Ranked>::rank_reflexive(a.extension_ref.name);
    <Option<i32> as Ranked>::rank_reflexive(a.extension_ref.port_number);
}

/// A backend has the key of what it is, whatever is known of the reference to it.
pub proof fn law_backend_keeps_key(typed: BackendTypeView)
    ensures
        BackendView::Resolved(typed).typed() == typed,
        BackendView::Unresolved(typed).typed() == typed,
        BackendView::NotAllowed(typed).typed() == typed,
        BackendView::Maybe(typed).typed() == typed,
        BackendView::Invalid(typed).typed() == typed,
        typed is Service ==> typed.key() == typed->Service_0.resource_key,
        typed is InferencePool ==> typed.key() == typed->InferencePool_0.resource_key,
        typed is Invalid ==> typed.key() == typed->Invalid_0.resource_key,
{
}

/// Configurations of pools are compared as they stand to each other.
pub proof fn law_pools_compared(a: InferencePoolConfig, b: InferencePoolConfig)
    ensures
        pool_rank(a.deep_view(), b.deep_view()) == Rank::Less
            ==> PartialOrdSpec::partial_cmp_spec(&a, &b) == Some(Ordering::Less),
        pool_rank(a.deep_view(), b.deep_view()) == Rank::Equal
            ==> PartialOrdSpec::partial_cmp_spec(&a, &b) == Some(Ordering::Equal),
        pool_rank(a.deep_view(), b.deep_view()) == Rank::Greater
            ==> PartialOrdSpec::partial_cmp_spec(&a, &b) == Some(Ordering::Greater),
{
}

} // verus!
