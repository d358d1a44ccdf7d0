//! Keys of the objects that the manager handles.
use vstd::prelude::*;
use vstd::std_specs::convert::FromSpecImpl;
use crate::common::kube::{
    BackendReference, BackendReferenceView, ObjectMeta, ObjectMetaView, RouteParentRefs, RouteParentRefsView,
};
use crate::model::Model;
use crate::order::{Linear, Rank, Ranked, rank_laws, text_rank};
use crate::text::cat3;

verus! {

pub const DEFAULT_GROUP_NAME: &'static str = "gateway.networking.k8s.io";

pub const DEFAULT_INFERENCE_GROUP_NAME: &'static str = "inference.networking.k8s.io";

pub const DEFAULT_NAMESPACE_NAME: &'static str = "default";

pub const DEFAULT_KIND_NAME: &'static str = "Gateway";

pub const DEFAULT_ROUTE_HOSTNAME: &'static str = "*";

pub const KUBERNETES_NONE: &'static str = "None";

/// The key of an object.
#[derive(Debug, PartialEq, Eq, PartialOrd, Ord, Hash)]
pub struct ResourceKey {
    pub group: String,
    pub namespace: String,
    pub name: String,
    pub kind: String,
}

/// What a [`ResourceKey`] holds.
#[verifier::ext_equal]
pub struct ResourceKeyView {
    pub group: Seq<char>,
    pub namespace: Seq<char>,
    pub name: Seq<char>,
    pub kind: Seq<char>,
}

impl DeepView for ResourceKey {
    type V = ResourceKeyView;

    open spec fn deep_view(&self) -> ResourceKeyView {
        ResourceKeyView {
            group: self.group.deep_view(),
            namespace: self.namespace.deep_view(),
            name: self.name.deep_view(),
            kind: self.kind.deep_view(),
        }
    }
}

impl Model for ResourceKey {
    fn dup(&self) -> (r: Self) {
        ResourceKey {
            group: self.group.dup(),
            namespace: self.namespace.dup(),
            name: self.name.dup(),
            kind: self.kind.dup(),
        }
    }

    fn same(&self, other: &Self) -> (r: bool) {
        self.group.same(&other.group)
            && self.namespace.same(&other.namespace)
            && self.name.same(&other.name)
            && self.kind.same(&other.kind)
    }
}

/// The identifier of a name in a namespace.
pub open spec fn id_of(name: Seq<char>, namespace: Seq<char>) -> Seq<char> {
    namespace + "."@ + name
}

/// Writes the identifier of a name in a namespace.
pub fn create_id(name: &str, namespace: &str) -> (r: String)
    ensures
        r@ == id_of(name@, namespace@),
{
    cat3(namespace, ".", name)
}

/// A text that may be left out, with what stands for it then.
pub open spec fn text_or(text: Option<Seq<char>>, otherwise: Seq<char>) -> Seq<char> {
    match text {
        Some(text) => text,
        None => otherwise,
    }
}

/// Computes `text_or`.
pub fn or_text(text: &Option<String>, otherwise: &str) -> (r: String)
    ensures
        r@ == text_or(text.deep_view(), otherwise@),
{
    match text {
        Some(text) => text.dup(),
        None => otherwise.to_owned(),
    }
}

impl ResourceKeyView {
    /// The key of an object of a kind, of the group and with the namespace that are the default.
    pub open spec fn of_object(meta: ObjectMetaView, kind: Seq<char>) -> ResourceKeyView {
        ResourceKeyView {
            group: DEFAULT_GROUP_NAME@,
            namespace: text_or(meta.namespace, DEFAULT_NAMESPACE_NAME@),
            name: meta.any_name(),
            kind,
        }
    }
}

impl Ranked for ResourceKey {
    open spec fn rank(a: ResourceKeyView, b: ResourceKeyView) -> Rank {
        text_rank(a.group, b.group).or(text_rank(a.namespace, b.namespace)).or(
            text_rank(a.name, b.name),
        ).or(text_rank(a.kind, b.kind))
    }

    proof fn rank_reflexive(a: ResourceKeyView) {
        <String as Ranked>::rank_reflexive(a.group);
        <String as Ranked>::rank_reflexive(a.namespace);
        <String as Ranked>::rank_reflexive(a.name);
        <String as Ranked>::rank_reflexive(a.kind);
    }

    proof fn rank_flips(a: ResourceKeyView, b: ResourceKeyView) {
        <String as Ranked>::rank_flips(a.group, b.group);
        <String as Ranked>::rank_flips(a.namespace, b.namespace);
        <String as Ranked>::rank_flips(a.name, b.name);
        <String as Ranked>::rank_flips(a.kind, b.kind);
    }

    proof fn rank_chains(a: ResourceKeyView, b: ResourceKeyView, c: ResourceKeyView) {
        rank_laws::<String>(a.group, b.group, c.group);
        rank_laws::<String>(a.namespace, b.namespace, c.namespace);
        rank_laws::<String>(a.name, b.name, c.name);
        rank_laws::<String>(a.kind, b.kind, c.kind);
    }

    fn against(&self, other: &Self) -> (r: Rank) {
        match self.group.against(&other.group) {
            Rank::Equal => {},
            outcome => return outcome,
        }
        match self.namespace.against(&other.namespace) {
            Rank::Equal => {},
            outcome => return outcome,
        }
        match self.name.against(&other.name) {
            Rank::Equal => self.kind.against(&other.kind),
            outcome => outcome,
        }
    }
}

impl Linear for ResourceKey {
    proof fn rank_separates(a: ResourceKeyView, b: ResourceKeyView) {
        <String as Linear>::rank_separates(a.group, b.group);
        <String as Linear>::rank_separates(a.namespace, b.namespace);
        <String as Linear>::rank_separates(a.name, b.name);
        <String as Linear>::rank_separates(a.kind, b.kind);
    }
}

impl Default for ResourceKey {
    fn default() -> (r: Self)
        ensures
            r.deep_view() == (ResourceKeyView {
                group: DEFAULT_GROUP_NAME@,
                namespace: DEFAULT_NAMESPACE_NAME@,
                name: Seq::empty(),
                kind: DEFAULT_KIND_NAME@,
            }),
    {
        ResourceKey {
            group: DEFAULT_GROUP_NAME.to_owned(),
            namespace: DEFAULT_NAMESPACE_NAME.to_owned(),
            name: String::new(),
            kind: DEFAULT_KIND_NAME.to_owned(),
        }
    }
}

impl ResourceKey {
    /// The key of a gateway in the namespace that is the default.
    pub fn new(name: &str) -> (r: Self)
        ensures
            r.deep_view() == (ResourceKeyView {
                group: DEFAULT_GROUP_NAME@,
                namespace: DEFAULT_NAMESPACE_NAME@,
                name: name@,
                kind: DEFAULT_KIND_NAME@,
            }),
    {
        ResourceKey { name: name.to_owned(), ..ResourceKey::default() }
    }

    /// The key of a gateway in a namespace.
    pub fn namespaced(name: &str, namespace: &str) -> (r: Self)
        ensures
            r.deep_view() == (ResourceKeyView {
                group: DEFAULT_GROUP_NAME@,
                namespace: namespace@,
                name: name@,
                kind: DEFAULT_KIND_NAME@,
            }),
    {
        ResourceKey {
            name: name.to_owned(),
            namespace: namespace.to_owned(),
            ..ResourceKey::default()
        }
    }

    /// The identifier that the key is shown by.
    pub fn to_text(&self) -> (r: String)
        ensures
            r@ == id_of(self.name@, self.namespace@),
    {
        create_id(self.name.as_str(), self.namespace.as_str())
    }

    /// The key of an object of a kind.
    pub fn of_object(meta: &ObjectMeta, kind: &str) -> (r: Self)
        ensures
            r.deep_view() == ResourceKeyView::of_object(meta.deep_view(), kind@),
    {
        ResourceKey {
            group: DEFAULT_GROUP_NAME.to_owned(),
            namespace: or_text(&meta.namespace, DEFAULT_NAMESPACE_NAME),
            name: meta.name_any(),
            kind: kind.to_owned(),
        }
    }

    /// The key of the service that an object's metadata names: of the kind that is the default.
    pub fn of_service(meta: &ObjectMeta) -> (r: Self)
        ensures
            r.deep_view() == ResourceKeyView::of_object(meta.deep_view(), DEFAULT_KIND_NAME@),
    {
        Self::of_object(meta, DEFAULT_KIND_NAME)
    }

    /// The key of a gateway class.
    pub fn of_gateway_class(meta: &ObjectMeta) -> (r: Self)
        ensures
            r.deep_view() == ResourceKeyView::of_object(meta.deep_view(), "GatewayClass"@),
    {
        Self::of_object(meta, "GatewayClass")
    }

    /// The key of a gateway.
    pub fn of_gateway(meta: &ObjectMeta) -> (r: Self)
        ensures
            r.deep_view() == ResourceKeyView::of_object(meta.deep_view(), "Gateway"@),
    {
        Self::of_object(meta, "Gateway")
    }

    /// The key of an HTTP route.
    pub fn of_http_route(meta: &ObjectMeta) -> (r: Self)
        ensures
            r.deep_view() == ResourceKeyView::of_object(meta.deep_view(), "HTTPRoute"@),
    {
        Self::of_object(meta, "HTTPRoute")
    }

    /// The key of a gRPC route.
    pub fn of_grpc_route(meta: &ObjectMeta) -> (r: Self)
        ensures
            r.deep_view() == ResourceKeyView::of_object(meta.deep_view(), "GRPCRoute"@),
    {
        Self::of_object(meta, "GRPCRoute")
    }
}

impl From<(Option<String>, Option<String>, String, Option<String>)> for ResourceKey {
    /// The key of the parts of a reference, with what is the default for those left out.
    fn from(parts: (Option<String>, Option<String>, String, Option<String>)) -> (r: Self)
        ensures
            r.deep_view() == (ResourceKeyView {
                group: text_or(parts.0.deep_view(), DEFAULT_GROUP_NAME@),
                namespace: text_or(parts.1.deep_view(), DEFAULT_NAMESPACE_NAME@),
                name: parts.2@,
                kind: text_or(parts.3.deep_view(), DEFAULT_KIND_NAME@),
            }),
    {
        ResourceKey {
            group: or_text(&parts.0, DEFAULT_GROUP_NAME),
            namespace: or_text(&parts.1, DEFAULT_NAMESPACE_NAME),
            name: parts.2,
            kind: or_text(&parts.3, DEFAULT_KIND_NAME),
        }
    }
}

impl FromSpecImpl<(Option<String>, Option<String>, String, Option<String>)> for ResourceKey {
    open spec fn obeys_from_spec() -> bool {
        false
    }

    open spec fn from_spec(parts: (Option<String>, Option<String>, String, Option<String>)) -> Self {
        arbitrary()
    }
}

impl ResourceKeyView {
    /// The key of the backend that a route in a namespace refers to.
    pub open spec fn of_backend(
        backend: BackendReferenceView,
        namespace: Seq<char>,
    ) -> ResourceKeyView {
        ResourceKeyView {
            group: DEFAULT_GROUP_NAME@,
            namespace: text_or(backend.namespace, namespace),
            name: backend.name,
            kind: text_or(backend.kind, Seq::empty()),
        }
    }
}

impl<'a> From<(&'a BackendReference, String)> for ResourceKey {
    fn from(pair: (&'a BackendReference, String)) -> (r: Self)
        ensures
            r.deep_view() == ResourceKeyView::of_backend(pair.0.deep_view(), pair.1@),
    {
        let kind = match &pair.0.kind {
            Some(kind) => kind.dup(),
            None => String::new(),
        };
        ResourceKey {
            group: DEFAULT_GROUP_NAME.to_owned(),
            namespace: or_text(&pair.0.namespace, pair.1.as_str()),
            name: pair.0.name.dup(),
            kind,
        }
    }
}

impl<'a> FromSpecImpl<(&'a BackendReference, String)> for ResourceKey {
    open spec fn obeys_from_spec() -> bool {
        false
    }

    open spec fn from_spec(pair: (&'a BackendReference, String)) -> Self {
        arbitrary()
    }
}

/// The key of a backend, whose namespace may be left out.
#[derive(Debug, PartialEq, Eq, PartialOrd, Ord, Hash)]
pub struct BackendResourceKey {
    pub group: String,
    pub namespace: Option<String>,
    pub name: String,
    pub kind: String,
}

/// What a [`BackendResourceKey`] holds.
#[verifier::ext_equal]
pub struct BackendResourceKeyView {
    pub group: Seq<char>,
    pub namespace: Option<Seq<char>>,
    pub name: Seq<char>,
    pub kind: Seq<char>,
}

impl DeepView for BackendResourceKey {
    type V = BackendResourceKeyView;

    open spec fn deep_view(&self) -> BackendResourceKeyView {
        BackendResourceKeyView {
            group: self.group.deep_view(),
            namespace: self.namespace.deep_view(),
            name: self.name.deep_view(),
            kind: self.kind.deep_view(),
        }
    }
}

impl Model for BackendResourceKey {
    fn dup(&self) -> (r: Self) {
        BackendResourceKey {
            group: self.group.dup(),
            namespace: self.namespace.dup(),
            name: self.name.dup(),
            kind: self.kind.dup(),
        }
    }

    fn same(&self, other: &Self) -> (r: bool) {
        self.group.same(&other.group)
            && self.namespace.same(&other.namespace)
            && self.name.same(&other.name)
            && self.kind.same(&other.kind)
    }
}

impl BackendResourceKey {
    /// The namespace, if one is given.
    pub fn namespace(&self) -> (r: Option<&String>)
        ensures
            r.deep_view() == self.deep_view().namespace,
    {
        match &self.namespace {
            Some(namespace) => Some(namespace),
            None => None,
        }
    }

    /// The place of the namespace.
    pub fn namespace_mut(&mut self) -> (r: &mut Option<String>)
        ensures
            *r == old(self).namespace,
            final(self).namespace == *final(r),
            final(self).group == old(self).group,
            final(self).name == old(self).name,
            final(self).kind == old(self).kind,
    {
        &mut self.namespace
    }
}

impl<'a> From<&'a BackendReference> for BackendResourceKey {
    fn from(backend: &'a BackendReference) -> (r: Self)
        ensures
            r.deep_view() == (BackendResourceKeyView {
                group: DEFAULT_GROUP_NAME@,
                namespace: backend.deep_view().namespace,
                name: backend.name@,
                kind: text_or(backend.deep_view().kind, Seq::empty()),
            }),
    {
        let kind = match &backend.kind {
            Some(kind) => kind.dup(),
            None => String::new(),
        };
        BackendResourceKey {
            group: DEFAULT_GROUP_NAME.to_owned(),
            namespace: backend.namespace.dup(),
            name: backend.name.dup(),
            kind,
        }
    }
}

impl<'a> FromSpecImpl<&'a BackendReference> for BackendResourceKey {
    open spec fn obeys_from_spec() -> bool {
        false
    }

    open spec fn from_spec(backend: &'a BackendReference) -> Self {
        arbitrary()
    }
}

/// The part of a parent that a route refers to.
#[derive(Debug, PartialEq, Eq, PartialOrd, Ord, Hash)]
pub struct RouteRefKey {
    pub resource_key: ResourceKey,
    pub section_name: Option<String>,
    pub port: Option<i32>,
}

/// What a [`RouteRefKey`] holds.
#[verifier::ext_equal]
pub struct RouteRefKeyView {
    pub resource_key: ResourceKeyView,
    pub section_name: Option<Seq<char>>,
    pub port: Option<i32>,
}

impl DeepView for RouteRefKey {
    type V = RouteRefKeyView;

    open spec fn deep_view(&self) -> RouteRefKeyView {
        RouteRefKeyView {
            resource_key: self.resource_key.deep_view(),
            section_name: self.section_name.deep_view(),
            port: self.port.deep_view(),
        }
    }
}

impl Model for RouteRefKey {
    fn dup(&self) -> (r: Self) {
        RouteRefKey {
            resource_key: self.resource_key.dup(),
            section_name: self.section_name.dup(),
            port: self.port.dup(),
        }
    }

    fn same(&self, other: &Self) -> (r: bool) {
        self.resource_key.same(&other.resource_key)
            && self.section_name.same(&other.section_name)
            && self.port.same(&other.port)
    }
}

impl RouteRefKeyView {
    /// The part of a parent that a route in a namespace refers to.
    pub open spec fn of_parent(parent: RouteParentRefsView, namespace: Seq<char>) -> RouteRefKeyView {
        RouteRefKeyView {
            resource_key: ResourceKeyView {
                group: text_or(parent.group, DEFAULT_GROUP_NAME@),
                namespace: text_or(parent.namespace, namespace),
                name: parent.name,
                kind: text_or(parent.kind, DEFAULT_KIND_NAME@),
            },
            section_name: parent.section_name,
            port: parent.port,
        }
    }
}

impl RouteRefKey {
    /// A gateway as a whole, in the namespace that is the default.
    pub fn new(name: &str) -> (r: Self)
        ensures
            r.deep_view() == (RouteRefKeyView {
                resource_key: ResourceKeyView {
                    group: DEFAULT_GROUP_NAME@,
                    namespace: DEFAULT_NAMESPACE_NAME@,
                    name: name@,
                    kind: DEFAULT_KIND_NAME@,
                },
                section_name: None,
                port: None,
            }),
    {
        RouteRefKey { resource_key: ResourceKey::new(name), section_name: None, port: None }
    }

    /// A gateway as a whole, in a namespace.
    pub fn namespaced(name: &str, namespace: &str) -> (r: Self)
        ensures
            r.deep_view() == (RouteRefKeyView {
                resource_key: ResourceKeyView {
                    group: DEFAULT_GROUP_NAME@,
                    namespace: namespace@,
                    name: name@,
                    kind: DEFAULT_KIND_NAME@,
                },
                section_name: None,
                port: None,
            }),
    {
        RouteRefKey {
            resource_key: ResourceKey::namespaced(name, namespace),
            section_name: None,
            port: None,
        }
    }

    /// The key of the parent.
    pub fn as_ref(&self) -> (r: &ResourceKey)
        ensures
            *r == self.resource_key,
    {
        &self.resource_key
    }
}

impl<'a> From<(&'a RouteParentRefs, String)> for RouteRefKey {
    fn from(pair: (&'a RouteParentRefs, String)) -> (r: Self)
        ensures
            r.deep_view() == RouteRefKeyView::of_parent(pair.0.deep_view(), pair.1@),
    {
        RouteRefKey {
            resource_key: ResourceKey {
                group: or_text(&pair.0.group, DEFAULT_GROUP_NAME),
                namespace: or_text(&pair.0.namespace, pair.1.as_str()),
                name: pair.0.name.dup(),
                kind: or_text(&pair.0.kind, DEFAULT_KIND_NAME),
            },
            section_name: pair.0.section_name.dup(),
            port: pair.0.port.dup(),
        }
    }
}

impl<'a> FromSpecImpl<(&'a RouteParentRefs, String)> for RouteRefKey {
    open spec fn obeys_from_spec() -> bool {
        false
    }

    open spec fn from_spec(pair: (&'a RouteParentRefs, String)) -> Self {
        arbitrary()
    }
}

/// An identifier is the namespace, a dot and the name.
pub proof fn law_identifier(name: Seq<char>, namespace: Seq<char>)
    ensures
        id_of(name, namespace) == namespace + "."@ + name,
{
}

/// The key of an object has the name of the object, its namespace, or the one that is the default, and
/// the group of gateways.
pub proof fn law_key_of_object(meta: ObjectMetaView, kind: Seq<char>)
    ensures
        ({
            let key = ResourceKeyView::of_object(meta, kind);
            &&& key.kind == kind
            &&& key.group == "gateway.networking.k8s.io"@
            &&& meta.namespace is Some ==> key.namespace == meta.namespace->0
            &&& meta.namespace is None ==> key.namespace == "default"@
            &&& meta.name is Some ==> key.name == meta.name->0
            &&& meta.name is None && meta.generate_name is Some ==> key.name
                == meta.generate_name->0
            &&& meta.name is None && meta.generate_name is None ==> key.name.len() == 0
        }),
{
}

/// The key of a backend has its name, its kind, or none, and its namespace, or that of the route.
pub proof fn law_key_of_backend(backend: BackendReferenceView, namespace: Seq<char>)
    ensures
        ({
            let key = ResourceKeyView::of_backend(backend, namespace);
            &&& key.group == "gateway.networking.k8s.io"@
            &&& key.name == backend.name
            &&& backend.namespace is Some ==> key.namespace == backend.namespace->0
            &&& backend.namespace is None ==> key.namespace == namespace
            &&& backend.kind is Some ==> key.kind == backend.kind->0
            &&& backend.kind is None ==> key.kind.len() == 0
        }),
{
}

/// The part of a parent that a route refers to is that of the parent that it names: in the namespace of
/// the route where it names none, a gateway where it names no kind, with the section and the port that
/// it names.
pub proof fn law_part_of_parent(parent: RouteParentRefsView, namespace: Seq<char>)
    ensures
        ({
            let part = RouteRefKeyView::of_parent(parent, namespace);
            &&& part.resource_key.name == parent.name
            &&& parent.namespace is Some ==> part.resource_key.namespace == parent.namespace->0
            &&& parent.namespace is None ==> part.resource_key.namespace == namespace
            &&& parent.kind is Some ==> part.resource_key.kind == parent.kind->0
            &&& parent.kind is None ==> part.resource_key.kind == "Gateway"@
            &&& parent.group is Some ==> part.resource_key.group == parent.group->0
            &&& parent.group is None ==> part.resource_key.group == "gateway.networking.k8s.io"@
            &&& part.section_name == parent.section_name
            &&& part.port == parent.port
        }),
{
}

/// Keys stand in the order of their groups, then of their namespaces, then of their names, then of their
/// kinds.
pub proof fn law_keys_in_order(a: ResourceKeyView, b: ResourceKeyView)
    ensures
        text_rank(a.group, b.group) == Rank::Less ==> <ResourceKey as Ranked>::rank(a, b)
            == Rank::Less,
        a.group == b.group && text_rank(a.namespace, b.namespace) == Rank::Less
            ==> <ResourceKey as Ranked>::rank(a, b) == Rank::Less,
        a.group == b.group && a.namespace == b.namespace && text_rank(a.name, b.name) == Rank::Less
            ==> <ResourceKey as Ranked>::rank(a, b) == Rank::Less,
        a.group == b.group && a.namespace == b.namespace && a.name == b.name && text_rank(
            a.kind,
            b.kind,
        ) == Rank::Less ==> <ResourceKey as Ranked>::rank(a, b) == Rank::Less,
{
    <String as Ranked>::rank_reflexive(a.group);
    <String as Ranked>::rank_reflexive(a.namespace);
    <String as Ranked>::rank_reflexive(a.name);
}

/// A text that is given stands for itself; one that is left out for what stands in its place.
pub proof fn law_text_or_otherwise(text: Seq<char>, otherwise: Seq<char>)
    ensures
        text_or(Some(text), otherwise) == text,
        text_or(None, otherwise) == otherwise,
{
}

} // verus!
