//! Which objects gateways and their routes refer to, and which of the references are granted.
use vstd::prelude::*;
use crate::common::backend::{Backend, BackendTypeView, BackendView};
use crate::common::certificate::{Certificate, CertificateView};
use crate::common::gateway::{Gateway, GatewayView};
use crate::common::listener::{Listener, ListenerView, ProtocolType, TlsType, TlsTypeView};
use crate::common::resource_key::{ResourceKey, ResourceKeyView, or_text, text_or};
use crate::common::route::{Route, RouteView};
use crate::lists::{
    append_list,
    choose_list,
    chosen,
    chosen_contains,
    join_list,
    joined,
    joined_contains,
    map_list,
    no_items,
};
use crate::model::Model;
use crate::order::{Linear, Rank, Ranked, rank_laws};
use crate::ordered::{OrderedSet, increasing, law_set_of, set_of, values};

verus! {

/// A reference from an object to another, for a gateway.
#[derive(Debug, PartialEq, Eq, PartialOrd, Ord, Hash)]
pub struct ReferenceGrantRef {
    pub from: ResourceKey,
    pub to: ResourceKey,
    pub gateway_key: ResourceKey,
}

/// What a [`ReferenceGrantRef`] holds.
#[verifier::ext_equal]
pub struct ReferenceGrantRefView {
    pub from: ResourceKeyView,
    pub to: ResourceKeyView,
    pub gateway_key: ResourceKeyView,
}

impl DeepView for ReferenceGrantRef {
    type V = ReferenceGrantRefView;

    open spec fn deep_view(&self) -> ReferenceGrantRefView {
        ReferenceGrantRefView {
            from: self.from.deep_view(),
            to: self.to.deep_view(),
            gateway_key: self.gateway_key.deep_view(),
        }
    }
}

impl Model for ReferenceGrantRef {
    fn dup(&self) -> (r: Self) {
        ReferenceGrantRef {
            from: self.from.dup(),
            to: self.to.dup(),
            gateway_key: self.gateway_key.dup(),
        }
    }

    fn same(&self, other: &Self) -> (r: bool) {
        self.from.same(&other.from)
            && self.to.same(&other.to)
            && self.gateway_key.same(&other.gateway_key)
    }
}

impl Ranked for ReferenceGrantRef {
    open spec fn rank(a: ReferenceGrantRefView, b: ReferenceGrantRefView) -> Rank {
        <ResourceKey as Ranked>::rank(a.from, b.from).or(
            <ResourceKey as Ranked>::rank(a.to, b.to),
        ).or(<ResourceKey as Ranked>::rank(a.gateway_key, b.gateway_key))
    }

    proof fn rank_reflexive(a: ReferenceGrantRefView) {
        <ResourceKey as Ranked>::rank_reflexive(a.from);
        <ResourceKey as Ranked>::rank_reflexive(a.to);
        <ResourceKey as Ranked>::rank_reflexive(a.gateway_key);
    }

    proof fn rank_flips(a: ReferenceGrantRefView, b: ReferenceGrantRefView) {
        <ResourceKey as Ranked>::rank_flips(a.from, b.from);
        <ResourceKey as Ranked>::rank_flips(a.to, b.to);
        <ResourceKey as Ranked>::rank_flips(a.gateway_key, b.gateway_key);
    }

    proof fn rank_chains(
        a: ReferenceGrantRefView,
        b: ReferenceGrantRefView,
        c: ReferenceGrantRefView,
    ) {
        rank_laws::<ResourceKey>(a.from, b.from, c.from);
        rank_laws::<ResourceKey>(a.to, b.to, c.to);
        rank_laws::<ResourceKey>(a.gateway_key, b.gateway_key, c.gateway_key);
    }

    fn against(&self, other: &Self) -> (r: Rank) {
        match self.from.against(&other.from) {
            Rank::Equal => {},
            outcome => return outcome,
        }
        match self.to.against(&other.to) {
            Rank::Equal => self.gateway_key.against(&other.gateway_key),
            outcome => outcome,
        }
    }
}

impl Linear for ReferenceGrantRef {
    proof fn rank_separates(a: ReferenceGrantRefView, b: ReferenceGrantRefView) {
        <ResourceKey as Linear>::rank_separates(a.from, b.from);
        <ResourceKey as Linear>::rank_separates(a.to, b.to);
        <ResourceKey as Linear>::rank_separates(a.gateway_key, b.gateway_key);
    }
}

/// Whose references are granted: those of the objects of a kind in a namespace.
#[derive(Debug, PartialEq, Eq)]
pub struct ReferenceGrantFrom {
    pub group: String,
    pub kind: String,
    pub namespace: String,
}

/// What a [`ReferenceGrantFrom`] holds.
#[verifier::ext_equal]
pub struct ReferenceGrantFromView {
    pub group: Seq<char>,
    pub kind: Seq<char>,
    pub namespace: Seq<char>,
}

impl DeepView for ReferenceGrantFrom {
    type V = ReferenceGrantFromView;

    open spec fn deep_view(&self) -> ReferenceGrantFromView {
        ReferenceGrantFromView {
            group: self.group.deep_view(),
            kind: self.kind.deep_view(),
            namespace: self.namespace.deep_view(),
        }
    }
}

impl Model for ReferenceGrantFrom {
    fn dup(&self) -> (r: Self) {
        ReferenceGrantFrom {
            group: self.group.dup(),
            kind: self.kind.dup(),
            namespace: self.namespace.dup(),
        }
    }

    fn same(&self, other: &Self) -> (r: bool) {
        self.group.same(&other.group)
            && self.kind.same(&other.kind)
            && self.namespace.same(&other.namespace)
    }
}

/// What may be referred to: the object of a name, or all of a kind.
#[derive(Debug, PartialEq, Eq)]
pub struct ReferenceGrantTo {
    pub group: String,
    pub kind: String,
    pub name: Option<String>,
}

/// What a [`ReferenceGrantTo`] holds.
#[verifier::ext_equal]
pub struct ReferenceGrantToView {
    pub group: Seq<char>,
    pub kind: Seq<char>,
    pub name: Option<Seq<char>>,
}

impl DeepView for ReferenceGrantTo {
    type V = ReferenceGrantToView;

    open spec fn deep_view(&self) -> ReferenceGrantToView {
        ReferenceGrantToView {
            group: self.group.deep_view(),
            kind: self.kind.deep_view(),
            name: self.name.deep_view(),
        }
    }
}

impl Model for ReferenceGrantTo {
    fn dup(&self) -> (r: Self) {
        ReferenceGrantTo {
            group: self.group.dup(),
            kind: self.kind.dup(),
            name: self.name.dup(),
        }
    }

    fn same(&self, other: &Self) -> (r: bool) {
        self.group.same(&other.group)
            && self.kind.same(&other.kind)
            && self.name.same(&other.name)
    }
}

/// A grant of references.
#[derive(Debug, PartialEq, Eq)]
pub struct ReferenceGrant {
    pub from: Vec<ReferenceGrantFrom>,
    pub to: Vec<ReferenceGrantTo>,
}

/// What a [`ReferenceGrant`] holds.
#[verifier::ext_equal]
pub struct ReferenceGrantView {
    pub from: Seq<ReferenceGrantFromView>,
    pub to: Seq<ReferenceGrantToView>,
}

impl DeepView for ReferenceGrant {
    type V = ReferenceGrantView;

    open spec fn deep_view(&self) -> ReferenceGrantView {
        ReferenceGrantView {
            from: self.from.deep_view(),
            to: self.to.deep_view(),
        }
    }
}

impl Model for ReferenceGrant {
    fn dup(&self) -> (r: Self) {
        ReferenceGrant {
            from: self.from.dup(),
            to: self.to.dup(),
        }
    }

    fn same(&self, other: &Self) -> (r: bool) {
        self.from.same(&other.from)
            && self.to.same(&other.to)
    }
}

impl ReferenceGrantFromView {
    /// The key that the grant stands for, which has no name.
    pub open spec fn key(self) -> ResourceKeyView {
        ResourceKeyView {
            group: self.group,
            namespace: self.namespace,
            name: ""@,
            kind: self.kind,
        }
    }
}

impl ReferenceGrantToView {
    /// The key that the grant stands for, which has no namespace.
    pub open spec fn key(self) -> ResourceKeyView {
        ResourceKeyView {
            group: self.group,
            namespace: ""@,
            name: text_or(self.name, ""@),
            kind: self.kind,
        }
    }
}

impl ReferenceGrantFrom {
    /// The key that the grant stands for, which has no name.
    pub fn key(&self) -> (r: ResourceKey)
        ensures
            r.deep_view() == self.deep_view().key(),
    {
        ResourceKey {
            group: self.group.dup(),
            namespace: self.namespace.dup(),
            name: "".to_owned(),
            kind: self.kind.dup(),
        }
    }
}

impl ReferenceGrantTo {
    /// The key that the grant stands for, which has no namespace.
    pub fn key(&self) -> (r: ResourceKey)
        ensures
            r.deep_view() == self.deep_view().key(),
    {
        ResourceKey {
            group: self.group.dup(),
            namespace: "".to_owned(),
            name: or_text(&self.name, ""),
            kind: self.kind.dup(),
        }
    }
}

/// The key of a backend of which it is not known yet whether it is there.
pub open spec fn maybe_key() -> spec_fn(BackendView) -> Option<ResourceKeyView> {
    |backend: BackendView|
        match backend {
            BackendView::Maybe(typed) => Some(typed.key()),
            _ => None,
        }
}

fn key_of_maybe(backend: &Backend) -> (r: Option<ResourceKey>)
    ensures
        r.deep_view() == maybe_key()(backend.deep_view()),
{
    match backend {
        Backend::Maybe(typed) => Some(typed.resource_key()),
        _ => None,
    }
}

/// The keys of the backends of a route of which it is not known yet whether they are there.
pub open spec fn maybe_keys() -> spec_fn(RouteView) -> Seq<ResourceKeyView> {
    |route: RouteView| chosen(route.config.all_backends(), maybe_key())
}

fn keys_of_maybes(route: &Route) -> (r: Vec<ResourceKey>)
    ensures
        r.deep_view() == maybe_keys()(route.deep_view()),
{
    let backends = route.backends();
    choose_list(&backends, key_of_maybe, Ghost(maybe_key()))
}

/// The backends of the routes of a gateway that are to be looked for.
pub fn backend_references(linked_routes: &Vec<Route>) -> (r: OrderedSet<ResourceKey>)
    ensures
        r.deep_view() == set_of::<ResourceKey>(joined(linked_routes.deep_view(), maybe_keys())),
{
    let all = join_list(linked_routes, keys_of_maybes, Ghost(maybe_keys()));
    OrderedSet::gather(&all)
}

/// A reference to an object.
pub open spec fn reference_to(from: ResourceKeyView, gateway_key: ResourceKeyView) -> spec_fn(
    ResourceKeyView,
) -> ReferenceGrantRefView {
    |to: ResourceKeyView| ReferenceGrantRefView { from, to, gateway_key }
}

fn refer_to(from: &ResourceKey, gateway_key: &ResourceKey, keys: &Vec<ResourceKey>) -> (r: Vec<
    ReferenceGrantRef,
>)
    ensures
        r.deep_view() == keys.deep_view().map_values(
            reference_to(from.deep_view(), gateway_key.deep_view()),
        ),
{
    let ghost give = reference_to(from.deep_view(), gateway_key.deep_view());
    map_list(
        keys,
        |to: &ResourceKey| -> (y: ReferenceGrantRef)
            ensures y.deep_view() == reference_to(from.deep_view(), gateway_key.deep_view())(to.deep_view())
        {
            ReferenceGrantRef {
                from: from.dup(),
                to: to.dup(),
                gateway_key: gateway_key.dup(),
            }
        },
        Ghost(give),
    )
}

/// The references of a route to backends of which it is not known yet whether they are there.
pub open spec fn route_references(gateway_key: ResourceKeyView) -> spec_fn(RouteView) -> Seq<
    ReferenceGrantRefView,
> {
    |route: RouteView|
        maybe_keys()(route).map_values(reference_to(route.config.resource_key, gateway_key))
}

/// The key of a certificate.
pub open spec fn certificate_key() -> spec_fn(CertificateView) -> ResourceKeyView {
    |certificate: CertificateView| certificate.key()
}

fn key_of_certificate(certificate: &Certificate) -> (r: ResourceKey)
    ensures
        r.deep_view() == certificate_key()(certificate.deep_view()),
{
    certificate.resouce_key().dup()
}

/// The keys of the certificates that a listener ends connections with.
pub open spec fn terminating_keys(listener: ListenerView) -> Seq<ResourceKeyView> {
    if listener.speaks() == ProtocolType::Https || listener.speaks() == ProtocolType::Tls {
        match listener.made_of().config.tls_type {
            Some(TlsTypeView::Terminate(certificates)) => certificates.map_values(
                certificate_key(),
            ),
            _ => Seq::empty(),
        }
    } else {
        Seq::empty()
    }
}

fn keys_of_listener(listener: &Listener) -> (r: Vec<ResourceKey>)
    ensures
        r.deep_view() == terminating_keys(listener.deep_view()),
{
    let secure = match listener.protocol() {
        ProtocolType::Https => true,
        ProtocolType::Tls => true,
        _ => false,
    };
    if !secure {
        return no_items();
    }
    match &listener.data().config.tls_type {
        Some(TlsType::Terminate(certificates)) => map_list(
            certificates,
            key_of_certificate,
            Ghost(certificate_key()),
        ),
        _ => no_items(),
    }
}

/// The references of a gateway to the certificates of a listener.
pub open spec fn listener_references(gateway_key: ResourceKeyView) -> spec_fn(ListenerView) -> Seq<
    ReferenceGrantRefView,
> {
    |listener: ListenerView|
        terminating_keys(listener).map_values(reference_to(gateway_key, gateway_key))
}

/// All references of a gateway and of the routes that are linked to it.
pub open spec fn references_of(
    gateway: GatewayView,
    linked_routes: Seq<RouteView>,
) -> Seq<ReferenceGrantRefView> {
    joined(linked_routes, route_references(gateway.resource_key)) + joined(
        values(gateway.listeners),
        listener_references(gateway.resource_key),
    )
}

/// Lists all references of a gateway and of the routes that are linked to it.
pub fn search_references(gateway: &Gateway, linked_routes: &Vec<Route>) -> (r: OrderedSet<
    ReferenceGrantRef,
>)
    ensures
        r.deep_view() == set_of::<ReferenceGrantRef>(
            references_of(gateway.deep_view(), linked_routes.deep_view()),
        ),
        r.deep_view().to_set() == references_of(
            gateway.deep_view(),
            linked_routes.deep_view(),
        ).to_set(),
{
    let ghost key = gateway.deep_view().resource_key;
    let backends = join_list(
        linked_routes,
        |route: &Route| -> (y: Vec<ReferenceGrantRef>)
            ensures y.deep_view() == route_references(gateway.deep_view().resource_key)(route.deep_view())
        {
            let keys = keys_of_maybes(route);
            refer_to(route.resource_key(), gateway.key(), &keys)
        },
        Ghost(route_references(key)),
    );
    let listeners = gateway.listeners();
    let secrets = join_list(
        &listeners,
        |listener: &&Listener| -> (y: Vec<ReferenceGrantRef>)
            ensures y.deep_view() == listener_references(gateway.deep_view().resource_key)(listener.deep_view())
        {
            let keys = keys_of_listener(*listener);
            refer_to(gateway.key(), gateway.key(), &keys)
        },
        Ghost(listener_references(key)),
    );
    let all = append_list(backends, secrets);
    OrderedSet::gather(&all)
}

/// The references that a grant allows from one kind of objects, for a gateway.
pub open spec fn granted_from(to: Seq<ReferenceGrantToView>, gateway_key: ResourceKeyView) -> spec_fn(
    ReferenceGrantFromView,
) -> Seq<ReferenceGrantRefView> {
    |from: ReferenceGrantFromView|
        to.map_values(
            |to: ReferenceGrantToView|
                ReferenceGrantRefView { from: from.key(), to: to.key(), gateway_key },
        )
}

/// The references that a grant allows, for a gateway.
pub open spec fn granted_by(gateway_key: ResourceKeyView) -> spec_fn(ReferenceGrantView) -> Seq<
    ReferenceGrantRefView,
> {
    |grant: ReferenceGrantView| joined(grant.from, granted_from(grant.to, gateway_key))
}

fn grant_from(from: &ReferenceGrantFrom, to: &Vec<ReferenceGrantTo>, gateway_key: &ResourceKey) -> (r:
    Vec<ReferenceGrantRef>)
    ensures
        r.deep_view() == granted_from(to.deep_view(), gateway_key.deep_view())(from.deep_view()),
{
    let ghost source = from.deep_view();
    let ghost gateway = gateway_key.deep_view();
    let ghost give = |to: ReferenceGrantToView|
        ReferenceGrantRefView { from: source.key(), to: to.key(), gateway_key: gateway };
    let out = map_list(
        to,
        |to: &ReferenceGrantTo| -> (y: ReferenceGrantRef)
            ensures y.deep_view() == (ReferenceGrantRefView {
                from: from.deep_view().key(),
                to: to.deep_view().key(),
                gateway_key: gateway_key.deep_view(),
            })
        { ReferenceGrantRef { from: from.key(), to: to.key(), gateway_key: gateway_key.dup() } },
        Ghost(give),
    );
    assert(out.deep_view() =~= granted_from(to.deep_view(), gateway)(source));
    out
}

fn list_granted(grant: &ReferenceGrant, gateway_key: &ResourceKey) -> (r: Vec<ReferenceGrantRef>)
    ensures
        r.deep_view() == granted_by(gateway_key.deep_view())(grant.deep_view()),
{
    let ghost give = granted_from(grant.deep_view().to, gateway_key.deep_view());
    join_list(
        &grant.from,
        |from: &ReferenceGrantFrom| -> (y: Vec<ReferenceGrantRef>)
            ensures y.deep_view() == granted_from(grant.deep_view().to, gateway_key.deep_view())(from.deep_view())
        { grant_from(from, &grant.to, gateway_key) },
        Ghost(give),
    )
}

/// The references that were granted, where grants were listed for each of some references: `listed[i]`
/// has the grants in the namespace that reference `i` leads to, and nothing where they could not be
/// listed.
pub open spec fn configured(
    references: Seq<ReferenceGrantRefView>,
    listed: Seq<Option<Seq<ReferenceGrantView>>>,
) -> Seq<ReferenceGrantRefView>
    decreases references.len(),
{
    if references.len() == 0 {
        Seq::empty()
    } else {
        let i = references.len() - 1;
        let now = if i < listed.len() && listed[i] is Some {
            joined(listed[i]->0, granted_by(references.last().gateway_key))
        } else {
            Seq::empty()
        };
        configured(references.drop_last(), listed) + now
    }
}

fn list_configured(
    references: &Vec<ReferenceGrantRef>,
    listed: &Vec<Option<Vec<ReferenceGrant>>>,
) -> (r: Vec<ReferenceGrantRef>)
    ensures
        r.deep_view() == configured(references.deep_view(), listed.deep_view()),
{
    let ghost all = references.deep_view();
    let ghost grants = listed.deep_view();
    let mut out: Vec<ReferenceGrantRef> = no_items();
    let mut i: usize = 0;
    assert(all.take(0) =~= Seq::<ReferenceGrantRefView>::empty());
    while i < references.len()
        invariant
            i <= references.len(),
            all == references.deep_view(),
            grants == listed.deep_view(),
            out.deep_view() == configured(all.take(i as int), grants),
        decreases references.len() - i,
    {
        let key = &references[i].gateway_key;
        assert(all[i as int] == references[i as int].deep_view());
        assert(all.take(i + 1).drop_last() =~= all.take(i as int));
        let now: Vec<ReferenceGrantRef> = if i < listed.len() {
            assert(grants[i as int] == listed[i as int].deep_view());
            match &listed[i] {
                Some(found) => join_list(
                    found,
                    |grant: &ReferenceGrant| -> (y: Vec<ReferenceGrantRef>)
                        ensures y.deep_view() == granted_by(key.deep_view())(grant.deep_view())
                    { list_granted(grant, key) },
                    Ghost(granted_by(key.deep_view())),
                ),
                None => no_items(),
            }
        } else {
            no_items()
        };
        out = append_list(out, now);
        i = i + 1;
    }
    assert(all.take(i as int) =~= all);
    out
}

/// A reference that is among others.
pub open spec fn also_in(others: Seq<ReferenceGrantRefView>) -> spec_fn(
    ReferenceGrantRefView,
) -> Option<ReferenceGrantRefView> {
    |reference: ReferenceGrantRefView|
        if others.contains(reference) {
            Some(reference)
        } else {
            None
        }
}

/// A reference that is not among others.
pub open spec fn only_here(others: Seq<ReferenceGrantRefView>) -> spec_fn(
    ReferenceGrantRefView,
) -> Option<ReferenceGrantRefView> {
    |reference: ReferenceGrantRefView|
        if others.contains(reference) {
            None
        } else {
            Some(reference)
        }
}

fn list_shared(
    references: &OrderedSet<ReferenceGrantRef>,
    others: &OrderedSet<ReferenceGrantRef>,
) -> (r: Vec<ReferenceGrantRef>)
    ensures
        r.deep_view() == chosen(references.deep_view(), also_in(others.deep_view())),
{
    choose_list(
        references.items(),
        |reference: &ReferenceGrantRef| -> (y: Option<ReferenceGrantRef>)
            ensures y.deep_view() == also_in(others.deep_view())(reference.deep_view())
        {
            if others.contains(reference) {
                Some(reference.dup())
            } else {
                None
            }
        },
        Ghost(also_in(others.deep_view())),
    )
}

fn list_only(
    references: &OrderedSet<ReferenceGrantRef>,
    others: &OrderedSet<ReferenceGrantRef>,
) -> (r: Vec<ReferenceGrantRef>)
    ensures
        r.deep_view() == chosen(references.deep_view(), only_here(others.deep_view())),
{
    choose_list(
        references.items(),
        |reference: &ReferenceGrantRef| -> (y: Option<ReferenceGrantRef>)
            ensures y.deep_view() == only_here(others.deep_view())(reference.deep_view())
        {
            if others.contains(reference) {
                None
            } else {
                Some(reference.dup())
            }
        },
        Ghost(only_here(others.deep_view())),
    )
}

proof fn shared_is_intersection(
    references: Seq<ReferenceGrantRefView>,
    others: Seq<ReferenceGrantRefView>,
)
    ensures
        chosen(references, also_in(others)).to_set() == references.to_set().intersect(
            others.to_set(),
        ),
{
    let both = chosen(references, also_in(others));
    assert forall|x: ReferenceGrantRefView| both.contains(x) <==> references.contains(x)
        && others.contains(x) by {
        chosen_contains(references, also_in(others), x);
        if references.contains(x) && others.contains(x) {
            let k = choose|k: int| 0 <= k < references.len() && references[k] == x;
            assert(also_in(others)(references[k]) == Some(x));
        }
    }
    assert(both.to_set() =~= references.to_set().intersect(others.to_set()));
}

proof fn only_is_difference(
    references: Seq<ReferenceGrantRefView>,
    others: Seq<ReferenceGrantRefView>,
)
    ensures
        chosen(references, only_here(others)).to_set() == references.to_set().difference(
            others.to_set(),
        ),
{
    let left = chosen(references, only_here(others));
    assert forall|x: ReferenceGrantRefView| left.contains(x) <==> references.contains(x)
        && !others.contains(x) by {
        chosen_contains(references, only_here(others), x);
        if references.contains(x) && !others.contains(x) {
            let k = choose|k: int| 0 <= k < references.len() && references[k] == x;
            assert(only_here(others)(references[k]) == Some(x));
        }
    }
    assert(left.to_set() =~= references.to_set().difference(others.to_set()));
}

/// The references of gateways, and those of them that are granted.
#[derive(Debug)]
pub struct ReferenceGrantsResolver {
    references: OrderedSet<ReferenceGrantRef>,
    resolved_reference_grants: OrderedSet<ReferenceGrantRef>,
}

impl ReferenceGrantsResolver {
    /// The references, in increasing order.
    pub closed spec fn known(&self) -> Seq<ReferenceGrantRefView> {
        self.references.deep_view()
    }

    /// The references that are granted, in increasing order.
    pub closed spec fn granted(&self) -> Seq<ReferenceGrantRefView> {
        self.resolved_reference_grants.deep_view()
    }

    /// No references.
    pub fn new() -> (r: Self)
        ensures
            r.known() == Seq::<ReferenceGrantRefView>::empty(),
            r.granted() == Seq::<ReferenceGrantRefView>::empty(),
    {
        ReferenceGrantsResolver {
            references: OrderedSet::new(),
            resolved_reference_grants: OrderedSet::new(),
        }
    }

    /// The references, for each of which the grants in the namespace that it leads to are to be
    /// listed.
    pub fn references(&self) -> (r: &Vec<ReferenceGrantRef>)
        ensures
            r.deep_view() == self.known(),
    {
        self.references.items()
    }

    /// Adds references.
    pub fn add_references(&mut self, references: &OrderedSet<ReferenceGrantRef>)
        ensures
            final(self).known().to_set() == old(self).known().to_set().union(
                references.deep_view().to_set(),
            ),
            increasing::<ReferenceGrantRef>(final(self).known()),
            final(self).granted() == old(self).granted(),
    {
        self.references.insert_each(references.items());
    }

    /// Adds the references of a gateway and of the routes that are linked to it.
    pub fn add_references_by_gateway(&mut self, gateway: &Gateway, linked_routes: &Vec<Route>)
        ensures
            final(self).known().to_set() == old(self).known().to_set().union(
                references_of(gateway.deep_view(), linked_routes.deep_view()).to_set(),
            ),
            increasing::<ReferenceGrantRef>(final(self).known()),
            final(self).granted() == old(self).granted(),
    {
        let references = search_references(gateway, linked_routes);
        self.add_references(&references);
    }

    /// Forgets the references of a gateway and of the routes that are linked to it.
    pub fn delete_references_by_gateway(&mut self, gateway: &Gateway, linked_routes: &Vec<Route>)
        ensures
            final(self).known().to_set() == old(self).known().to_set().difference(
                references_of(gateway.deep_view(), linked_routes.deep_view()).to_set(),
            ),
            increasing::<ReferenceGrantRef>(final(self).known()),
            final(self).granted() == old(self).granted(),
    {
        let gone = search_references(gateway, linked_routes);
        let left = list_only(&self.references, &gone);
        proof {
            only_is_difference(self.references.deep_view(), gone.deep_view());
        }
        self.references = OrderedSet::gather(&left);
    }

    /// Takes the grants that were listed for the references: `listed[i]` has those in the namespace that
    /// reference `i` leads to, and nothing where they could not be listed. A reference is granted where
    /// it is among what is configured. The references of which that changed are given back.
    pub fn resolve_internal(&mut self, listed: &Vec<Option<Vec<ReferenceGrant>>>) -> (r: OrderedSet<
        ReferenceGrantRef,
    >)
        ensures
            final(self).known() == old(self).known(),
            final(self).granted().to_set() == old(self).known().to_set().intersect(
                configured(old(self).known(), listed.deep_view()).to_set(),
            ),
            increasing::<ReferenceGrantRef>(final(self).granted()),
            r.deep_view().to_set() == final(self).granted().to_set().difference(
                old(self).granted().to_set(),
            ).union(old(self).granted().to_set().difference(final(self).granted().to_set())),
            increasing::<ReferenceGrantRef>(r.deep_view()),
    {
        let list = list_configured(self.references.items(), listed);
        let grants = OrderedSet::gather(&list);
        let shared = list_shared(&self.references, &grants);
        let allowed = OrderedSet::gather(&shared);
        let added = list_only(&allowed, &self.resolved_reference_grants);
        let removed = list_only(&self.resolved_reference_grants, &allowed);
        let ghost first = added.deep_view();
        let ghost second = removed.deep_view();
        let changed = append_list(added, removed);
        proof {
            shared_is_intersection(self.references.deep_view(), grants.deep_view());
            only_is_difference(allowed.deep_view(), self.resolved_reference_grants.deep_view());
            only_is_difference(self.resolved_reference_grants.deep_view(), allowed.deep_view());
            assert((first + second).to_set() =~= first.to_set().union(second.to_set())) by {
                assert forall|x: ReferenceGrantRefView| (first + second).contains(x)
                    <==> first.contains(x) || second.contains(x) by {
                    if first.contains(x) {
                        let k = choose|k: int| 0 <= k < first.len() && first[k] == x;
                        assert((first + second)[k] == x);
                    }
                    if second.contains(x) {
                        let k = choose|k: int| 0 <= k < second.len() && second[k] == x;
                        assert((first + second)[first.len() + k] == x);
                    }
                }
            }
        }
        self.resolved_reference_grants = allowed;
        OrderedSet::gather(&changed)
    }

    /// Whether a reference is granted.
    pub fn is_allowed(&self, from: &ResourceKey, to: &ResourceKey, gateway_key: &ResourceKey) -> (r:
        bool)
        ensures
            r == self.granted().contains(
                ReferenceGrantRefView {
                    from: from.deep_view(),
                    to: to.deep_view(),
                    gateway_key: gateway_key.deep_view(),
                },
            ),
    {
        let reference = ReferenceGrantRef {
            from: from.dup(),
            to: to.dup(),
            gateway_key: gateway_key.dup(),
        };
        self.resolved_reference_grants.contains(&reference)
    }

    /// Whether no reference is granted.
    pub fn nothing_granted(&self) -> (r: bool)
        ensures
            r == (self.granted().len() == 0),
    {
        self.resolved_reference_grants.len() == 0
    }
}

/// Only references that gateways have are ever granted, and only where a grant that could be listed
/// says so: where nothing could be listed, nothing is granted.
pub proof fn law_nothing_granted_unlisted(
    references: Seq<ReferenceGrantRefView>,
    listed: Seq<Option<Seq<ReferenceGrantView>>>,
)
    requires
        forall|i: int| 0 <= i < listed.len() ==> (#[trigger] listed[i]) is None,
    ensures
        configured(references, listed).len() == 0,
    decreases references.len(),
{
    if references.len() > 0 {
        law_nothing_granted_unlisted(references.drop_last(), listed);
    }
}

/// A gateway refers to every certificate of each of its listeners that speaks HTTPS or TLS and ends it.
pub proof fn law_certificates_are_referred_to(
    gateway: GatewayView,
    linked_routes: Seq<RouteView>,
    l: int,
    certificates: Seq<CertificateView>,
    certificate: CertificateView,
)
    requires
        0 <= l < gateway.listeners.len(),
        gateway.listeners[l].1 is Https || gateway.listeners[l].1 is Tls,
        gateway.listeners[l].1.made_of().config.tls_type == Some(TlsTypeView::Terminate(certificates)),
        certificates.contains(certificate),
    ensures
        references_of(gateway, linked_routes).contains(
            ReferenceGrantRefView {
                from: gateway.resource_key,
                to: certificate.key(),
                gateway_key: gateway.resource_key,
            },
        ),
        set_of::<ReferenceGrantRef>(references_of(gateway, linked_routes)).contains(
            ReferenceGrantRefView {
                from: gateway.resource_key,
                to: certificate.key(),
                gateway_key: gateway.resource_key,
            },
        ),
{
    let listeners = values(gateway.listeners);
    let give = listener_references(gateway.resource_key);
    let reference = ReferenceGrantRefView {
        from: gateway.resource_key,
        to: certificate.key(),
        gateway_key: gateway.resource_key,
    };
    assert(listeners[l] == gateway.listeners[l].1);
    let c = choose|c: int| 0 <= c < certificates.len() && certificates[c] == certificate;
    assert(give(listeners[l])[c] == reference);
    assert(give(listeners[l]).contains(reference));
    joined_contains(listeners, give, reference);
    let first = joined(linked_routes, route_references(gateway.resource_key));
    let second = joined(listeners, give);
    let k = choose|k: int| 0 <= k < second.len() && second[k] == reference;
    assert((first + second)[first.len() + k] == reference);
    law_set_of::<ReferenceGrantRef>(references_of(gateway, linked_routes));
    assert(references_of(gateway, linked_routes).to_set().contains(reference));
}

/// A route refers, for its gateway, to every backend of which it is not known yet whether it is there.
pub proof fn law_backends_are_referred_to(
    gateway: GatewayView,
    linked_routes: Seq<RouteView>,
    r: int,
    typed: BackendTypeView,
)
    requires
        0 <= r < linked_routes.len(),
        linked_routes[r].config.all_backends().contains(BackendView::Maybe(typed)),
    ensures
        references_of(gateway, linked_routes).contains(
            ReferenceGrantRefView {
                from: linked_routes[r].config.resource_key,
                to: typed.key(),
                gateway_key: gateway.resource_key,
            },
        ),
        set_of::<ReferenceGrantRef>(references_of(gateway, linked_routes)).contains(
            ReferenceGrantRefView {
                from: linked_routes[r].config.resource_key,
                to: typed.key(),
                gateway_key: gateway.resource_key,
            },
        ),
        set_of::<ResourceKey>(joined(linked_routes, maybe_keys())).contains(typed.key()),
{
    let give = route_references(gateway.resource_key);
    let backends = linked_routes[r].config.all_backends();
    let b = choose|b: int| 0 <= b < backends.len() && backends[b] == BackendView::Maybe(typed);
    assert(maybe_key()(backends[b]) == Some(typed.key()));
    chosen_contains(backends, maybe_key(), typed.key());
    let found = maybe_keys()(linked_routes[r]);
    let i = choose|i: int| 0 <= i < found.len() && found[i] == typed.key();
    let reference = ReferenceGrantRefView {
        from: linked_routes[r].config.resource_key,
        to: typed.key(),
        gateway_key: gateway.resource_key,
    };
    assert(give(linked_routes[r])[i] == reference);
    assert(give(linked_routes[r]).contains(reference));
    joined_contains(linked_routes, give, reference);
    let first = joined(linked_routes, give);
    let second = joined(values(gateway.listeners), listener_references(gateway.resource_key));
    let k = choose|k: int| 0 <= k < first.len() && first[k] == reference;
    assert((first + second)[k] == reference);
    law_set_of::<ReferenceGrantRef>(references_of(gateway, linked_routes));
    assert(references_of(gateway, linked_routes).to_set().contains(reference));
    joined_contains(linked_routes, maybe_keys(), typed.key());
    law_set_of::<ResourceKey>(joined(linked_routes, maybe_keys()));
    assert(joined(linked_routes, maybe_keys()).to_set().contains(typed.key()));
}

/// There are no other references: each is for the gateway, and from the gateway to such a certificate
/// or from a route to such a backend.
pub proof fn law_no_other_reference(
    gateway: GatewayView,
    linked_routes: Seq<RouteView>,
    reference: ReferenceGrantRefView,
)
    requires
        references_of(gateway, linked_routes).contains(reference),
    ensures
        reference.gateway_key == gateway.resource_key,
        (reference.from == gateway.resource_key && exists|
            l: int,
            certificates: Seq<CertificateView>,
            certificate: CertificateView,
        |
            0 <= l < gateway.listeners.len() && (gateway.listeners[l].1 is Https
                || gateway.listeners[l].1 is Tls) && (
            #[trigger] gateway.listeners[l]).1.made_of().config.tls_type == Some(
                TlsTypeView::Terminate(certificates),
            ) && #[trigger] certificates.contains(certificate) && certificate.key() == reference.to)
            || (exists|r: int, typed: BackendTypeView|
            0 <= r < linked_routes.len() && reference.from == linked_routes[r].config.resource_key
                && #[trigger] linked_routes[r].config.all_backends().contains(
                BackendView::Maybe(typed),
            ) && typed.key() == reference.to),
{
    let listeners = values(gateway.listeners);
    let first = joined(linked_routes, route_references(gateway.resource_key));
    let second = joined(listeners, listener_references(gateway.resource_key));
    let k = choose|k: int| 0 <= k < (first + second).len() && (first + second)[k] == reference;
    if k < first.len() {
        assert(first[k] == reference);
        assert(first.contains(reference));
        let give = route_references(gateway.resource_key);
        joined_contains(linked_routes, give, reference);
        let r = choose|r: int|
            0 <= r < linked_routes.len() && #[trigger] give(linked_routes[r]).contains(reference);
        let all = give(linked_routes[r]);
        let i = choose|i: int| 0 <= i < all.len() && all[i] == reference;
        let found = maybe_keys()(linked_routes[r]);
        assert(found[i] == reference.to);
        assert(found.contains(reference.to));
        let backends = linked_routes[r].config.all_backends();
        chosen_contains(backends, maybe_key(), reference.to);
        let b = choose|b: int|
            0 <= b < backends.len() && #[trigger] maybe_key()(backends[b]) == Some(reference.to);
        let typed = backends[b]->Maybe_0;
        assert(backends[b] == BackendView::Maybe(typed));
        assert(linked_routes[r].config.all_backends().contains(BackendView::Maybe(typed)));
    } else {
        assert(second[k - first.len()] == reference);
        assert(second.contains(reference));
        let give = listener_references(gateway.resource_key);
        joined_contains(listeners, give, reference);
        let l = choose|l: int|
            0 <= l < listeners.len() && #[trigger] give(listeners[l]).contains(reference);
        let all = give(listeners[l]);
        let i = choose|i: int| 0 <= i < all.len() && all[i] == reference;
        assert(listeners[l] == gateway.listeners[l].1);
        assert(terminating_keys(listeners[l])[i] == reference.to);
        let certificates = listeners[l].made_of().config.tls_type->0->Terminate_0;
        assert(gateway.listeners[l].1.made_of().config.tls_type == Some(
            TlsTypeView::Terminate(certificates),
        ));
        assert(certificates.contains(certificates[i]));
        assert(certificates[i].key() == reference.to);
    }
}

/// A backend that is to be looked for is one of a linked route of which it is not known yet whether it
/// is there.
pub proof fn law_looked_for_backend(linked_routes: Seq<RouteView>, key: ResourceKeyView)
    requires
        set_of::<ResourceKey>(joined(linked_routes, maybe_keys())).contains(key),
    ensures
        exists|r: int, typed: BackendTypeView|
            0 <= r < linked_routes.len() && #[trigger] linked_routes[r].config.all_backends().contains(
                BackendView::Maybe(typed),
            ) && typed.key() == key,
{
    let all = joined(linked_routes, maybe_keys());
    law_set_of::<ResourceKey>(all);
    assert(set_of::<ResourceKey>(all).to_set().contains(key));
    assert(all.to_set().contains(key));
    joined_contains(linked_routes, maybe_keys(), key);
    let r = choose|r: int|
        0 <= r < linked_routes.len() && #[trigger] maybe_keys()(linked_routes[r]).contains(key);
    let backends = linked_routes[r].config.all_backends();
    chosen_contains(backends, maybe_key(), key);
    let b = choose|b: int|
        0 <= b < backends.len() && #[trigger] maybe_key()(backends[b]) == Some(key);
    let typed = backends[b]->Maybe_0;
    assert(backends[b] == BackendView::Maybe(typed));
    assert(linked_routes[r].config.all_backends().contains(BackendView::Maybe(typed)));
}

/// A grant allows exactly the references from each of the kinds of objects that it names to each of the
/// targets that it names.
pub proof fn law_grant_allows(
    grant: ReferenceGrantView,
    gateway_key: ResourceKeyView,
    reference: ReferenceGrantRefView,
)
    ensures
        granted_by(gateway_key)(grant).contains(reference) <==> reference.gateway_key == gateway_key
            && exists|i: int, j: int|
            0 <= i < grant.from.len() && 0 <= j < grant.to.len() && {
                let from = #[trigger] grant.from[i];
                let to = #[trigger] grant.to[j];
                &&& reference.from.group == from.group
                &&& reference.from.kind == from.kind
                &&& reference.from.namespace == from.namespace
                &&& reference.from.name == ""@
                &&& reference.to.group == to.group
                &&& reference.to.kind == to.kind
                &&& reference.to.namespace == ""@
                &&& to.name is Some ==> reference.to.name == to.name->0
                &&& to.name is None ==> reference.to.name == ""@
            },
{
    let give = granted_from(grant.to, gateway_key);
    joined_contains(grant.from, give, reference);
    if granted_by(gateway_key)(grant).contains(reference) {
        let i = choose|i: int|
            0 <= i < grant.from.len() && #[trigger] give(grant.from[i]).contains(reference);
        let all = give(grant.from[i]);
        let j = choose|j: int| 0 <= j < all.len() && all[j] == reference;
        assert(reference.from == grant.from[i].key());
        assert(reference.to == grant.to[j].key());
    }
    if reference.gateway_key == gateway_key && exists|i: int, j: int|
        0 <= i < grant.from.len() && 0 <= j < grant.to.len() && reference.from
            == (#[trigger] grant.from[i]).key() && reference.to == (#[trigger] grant.to[j]).key() {
        let (i, j) = choose|i: int, j: int|
            0 <= i < grant.from.len() && 0 <= j < grant.to.len() && reference.from
                == (#[trigger] grant.from[i]).key() && reference.to == (
            #[trigger] grant.to[j]).key();
        assert(give(grant.from[i])[j] == reference);
        assert(give(grant.from[i]).contains(reference));
    }
    assert forall|i: int, j: int|
        0 <= i < grant.from.len() && 0 <= j < grant.to.len() && {
            let from = #[trigger] grant.from[i];
            let to = #[trigger] grant.to[j];
            &&& reference.from.group == from.group
            &&& reference.from.kind == from.kind
            &&& reference.from.namespace == from.namespace
            &&& reference.from.name == ""@
            &&& reference.to.group == to.group
            &&& reference.to.kind == to.kind
            &&& reference.to.namespace == ""@
            &&& to.name is Some ==> reference.to.name == to.name->0
            &&& to.name is None ==> reference.to.name == ""@
        } implies reference.from == grant.from[i].key() && reference.to == grant.to[j].key() by {}
}

/// What is configured is what the grants allow that were listed for a reference, for the gateway of that
/// reference.
pub proof fn law_configured(
    references: Seq<ReferenceGrantRefView>,
    listed: Seq<Option<Seq<ReferenceGrantView>>>,
    reference: ReferenceGrantRefView,
)
    ensures
        configured(references, listed).contains(reference) <==> exists|i: int, g: int|
            0 <= i < references.len() && i < listed.len() && listed[i] is Some && 0 <= g
                < listed[i]->0.len() && #[trigger] granted_by(references[i].gateway_key)(
                listed[i]->0[g],
            ).contains(reference),
    decreases references.len(),
{
    if references.len() > 0 {
        let shorter = references.drop_last();
        let last = references.len() - 1;
        law_configured(shorter, listed, reference);
        let before = configured(shorter, listed);
        let now = if last < listed.len() && listed[last] is Some {
            joined(listed[last]->0, granted_by(references.last().gateway_key))
        } else {
            Seq::empty()
        };
        assert(configured(references, listed) == before + now);
        assert((before + now).contains(reference) <==> before.contains(reference) || now.contains(
            reference,
        )) by {
            if before.contains(reference) {
                let k = choose|k: int| 0 <= k < before.len() && before[k] == reference;
                assert((before + now)[k] == reference);
            }
            if now.contains(reference) {
                let k = choose|k: int| 0 <= k < now.len() && now[k] == reference;
                assert((before + now)[before.len() + k] == reference);
            }
        }
        if last < listed.len() && listed[last] is Some {
            joined_contains(listed[last]->0, granted_by(references.last().gateway_key), reference);
        }
        if before.contains(reference) {
            let (i, g) = choose|i: int, g: int|
                0 <= i < shorter.len() && i < listed.len() && listed[i] is Some && 0 <= g
                    < listed[i]->0.len() && #[trigger] granted_by(shorter[i].gateway_key)(
                    listed[i]->0[g],
                ).contains(reference);
            assert(granted_by(references[i].gateway_key)(listed[i]->0[g]).contains(reference));
        }
        if now.contains(reference) {
            let g = choose|g: int|
                0 <= g < listed[last]->0.len() && #[trigger] granted_by(
                    references.last().gateway_key,
                )(listed[last]->0[g]).contains(reference);
            assert(granted_by(references[last].gateway_key)(listed[last]->0[g]).contains(reference));
        }
        if exists|i: int, g: int|
            0 <= i < references.len() && i < listed.len() && listed[i] is Some && 0 <= g
                < listed[i]->0.len() && #[trigger] granted_by(references[i].gateway_key)(
                listed[i]->0[g],
            ).contains(reference) {
            let (i, g) = choose|i: int, g: int|
                0 <= i < references.len() && i < listed.len() && listed[i] is Some && 0 <= g
                    < listed[i]->0.len() && #[trigger] granted_by(references[i].gateway_key)(
                    listed[i]->0[g],
                ).contains(reference);
            if i < last {
                assert(granted_by(shorter[i].gateway_key)(listed[i]->0[g]).contains(reference));
            } else {
                assert(granted_by(references.last().gateway_key)(listed[last]->0[g]).contains(
                    reference,
                ));
            }
        }
    }
}

/// References stand to each other by what refers, then by what is referred to, then by the gateway.
pub proof fn law_references_in_order(a: ReferenceGrantRefView, b: ReferenceGrantRefView)
    ensures
        ({
            let from = <ResourceKey as Ranked>::rank(a.from, b.from);
            let to = <ResourceKey as Ranked>::rank(a.to, b.to);
            let gateway = <ResourceKey as Ranked>::rank(a.gateway_key, b.gateway_key);
            let all = <ReferenceGrantRef as Ranked>::rank(a, b);
            &&& from != Rank::Equal ==> all == from
            &&& from == Rank::Equal && to != Rank::Equal ==> all == to
            &&& from == Rank::Equal && to == Rank::Equal ==> all == gateway
        }),
{
}

} // verus!
