//! Gateways.
use core::cmp::Ordering;
use vstd::prelude::*;
use vstd::std_specs::cmp::{PartialEqSpec, PartialEqSpecImpl, PartialOrdSpec, PartialOrdSpecImpl};
use vstd::std_specs::convert::TryFromSpecImpl;
use crate::common::address::{GatewayAddress, GatewayAddressView};
use crate::common::kube::{GatewayListener, GatewayListenerView, KubeGateway, KubeGatewayView};
use crate::common::listener::{Listener, ListenerError, ListenerView, http_rules_of, sort_http_rules};
use crate::common::resource_key::{ResourceKey, ResourceKeyView};
use crate::common::route::{EffectiveRoutingRule, RouteView};
use crate::common::route_set::{RouteSet, law_with_routes, route_keys, with_routes};
use crate::common::verify::{VerifiyItems, law_verify_parts, successes};
use crate::identifiers::{parse_uuid, uuid_of};
use crate::model::Model;
use crate::order::{Rank, Ranked};
use crate::ordered::{
    OrderedMap,
    OrderedSet,
    increasing,
    keys,
    law_put,
    law_stored,
    law_stored_keys,
    put,
    slot_bounds,
    stored,
    stored_is_of_pairs,
    table,
    values,
};
use crate::text::text_is;

verus! {

/// The data plane that a gateway is made of.
#[derive(Clone, Copy, Debug, PartialEq, Eq, Structural)]
pub enum GatewayImplementationType {
    Envoy,
    Agentgateway,
}

impl DeepView for GatewayImplementationType {
    type V = GatewayImplementationType;

    open spec fn deep_view(&self) -> GatewayImplementationType {
        *self
    }
}

impl Model for GatewayImplementationType {
    fn dup(&self) -> (r: Self) {
        *self
    }

    fn same(&self, other: &Self) -> (r: bool) {
        *self == *other
    }
}

/// The data plane that goes by a name: Envoy where none is given.
pub open spec fn implementation_named(name: Option<Seq<char>>) -> Option<GatewayImplementationType> {
    match name {
        None => Some(GatewayImplementationType::Envoy),
        Some(name) => if name == "agentgateway"@ {
            Some(GatewayImplementationType::Agentgateway)
        } else if name == "envoy"@ {
            Some(GatewayImplementationType::Envoy)
        } else {
            None
        },
    }
}

impl<'a> TryFrom<Option<&'a String>> for GatewayImplementationType {
    type Error = String;

    /// The data plane that goes by a name.
    fn try_from(value: Option<&'a String>) -> (r: Result<Self, String>)
        ensures
            match implementation_named(value.deep_view()) {
                Some(implementation) => r matches Ok(x) && x == implementation,
                None => r matches Err(text) && text@ == "Invalid backend type "@,
            },
    {
        match value {
            None => Ok(GatewayImplementationType::Envoy),
            Some(name) => {
                if text_is(name.as_str(), "agentgateway") {
                    Ok(GatewayImplementationType::Agentgateway)
                } else if text_is(name.as_str(), "envoy") {
                    Ok(GatewayImplementationType::Envoy)
                } else {
                    Err("Invalid backend type ".to_owned())
                }
            },
        }
    }
}

impl<'a> TryFromSpecImpl<Option<&'a String>> for GatewayImplementationType {
    open spec fn obeys_try_from_spec() -> bool {
        false
    }

    open spec fn try_from_spec(value: Option<&'a String>) -> Result<Self, String> {
        arbitrary()
    }
}

/// Why a gateway cannot be read.
#[derive(Debug, PartialEq, Eq)]
pub enum GatewayError {
    ConversionProblem(String),
}

/// What a [`GatewayError`] holds.
#[verifier::ext_equal]
pub enum GatewayErrorView {
    ConversionProblem(Seq<char>),
}

impl DeepView for GatewayError {
    type V = GatewayErrorView;

    open spec fn deep_view(&self) -> GatewayErrorView {
        match self {
            GatewayError::ConversionProblem(x0) => GatewayErrorView::ConversionProblem(x0.deep_view()),
        }
    }
}

impl Model for GatewayError {
    fn dup(&self) -> (r: Self) {
        match self {
            GatewayError::ConversionProblem(x0) => GatewayError::ConversionProblem(x0.dup()),
        }
    }

    fn same(&self, other: &Self) -> (r: bool) {
        match (self, other) {
            (GatewayError::ConversionProblem(x0), GatewayError::ConversionProblem(x0_)) => x0.same(x0_),
        }
    }
}

/// A gateway.
#[derive(Debug)]
pub struct Gateway {
    pub id: u128,
    pub resource_key: ResourceKey,
    pub addresses: OrderedSet<GatewayAddress>,
    pub listeners: OrderedMap<String, Listener>,
    pub orphaned_routes: RouteSet,
    pub backend_type: GatewayImplementationType,
}

/// What a [`Gateway`] holds.
#[verifier::ext_equal]
pub struct GatewayView {
    pub id: u128,
    pub resource_key: ResourceKeyView,
    pub addresses: Seq<GatewayAddressView>,
    pub listeners: Seq<(Seq<char>, ListenerView)>,
    pub orphaned_routes: Seq<RouteView>,
    pub backend_type: GatewayImplementationType,
}

impl DeepView for Gateway {
    type V = GatewayView;

    open spec fn deep_view(&self) -> GatewayView {
        GatewayView {
            id: self.id.deep_view(),
            resource_key: self.resource_key.deep_view(),
            addresses: self.addresses.deep_view(),
            listeners: self.listeners.deep_view(),
            orphaned_routes: self.orphaned_routes.deep_view(),
            backend_type: self.backend_type.deep_view(),
        }
    }
}

impl Model for Gateway {
    fn dup(&self) -> (r: Self) {
        Gateway {
            id: self.id.dup(),
            resource_key: self.resource_key.dup(),
            addresses: self.addresses.dup(),
            listeners: self.listeners.dup(),
            orphaned_routes: self.orphaned_routes.dup(),
            backend_type: self.backend_type.dup(),
        }
    }

    fn same(&self, other: &Self) -> (r: bool) {
        self.id.same(&other.id)
            && self.resource_key.same(&other.resource_key)
            && self.addresses.same(&other.addresses)
            && self.listeners.same(&other.listeners)
            && self.orphaned_routes.same(&other.orphaned_routes)
            && self.backend_type.same(&other.backend_type)
    }
}

/// How two gateways stand to each other: by their keys.
pub open spec fn gateway_rank(a: GatewayView, b: GatewayView) -> Rank {
    <ResourceKey as Ranked>::rank(a.resource_key, b.resource_key)
}

impl PartialEq for Gateway {
    fn eq(&self, other: &Self) -> (r: bool) {
        self.resource_key.same(&other.resource_key)
    }
}

impl PartialEqSpecImpl for Gateway {
    open spec fn obeys_eq_spec() -> bool {
        true
    }

    open spec fn eq_spec(&self, other: &Self) -> bool {
        self.resource_key.deep_view() == other.resource_key.deep_view()
    }
}

impl PartialOrd for Gateway {
    fn partial_cmp(&self, other: &Self) -> (r: Option<Ordering>) {
        Some(self.resource_key.against(&other.resource_key).to_named())
    }
}

impl PartialOrdSpecImpl for Gateway {
    open spec fn obeys_partial_cmp_spec() -> bool {
        true
    }

    open spec fn partial_cmp_spec(&self, other: &Self) -> Option<Ordering> {
        Some(gateway_rank(self.deep_view(), other.deep_view()).named())
    }
}

/// The resolved routes of listeners, those of later ones in place of those of earlier ones.
pub open spec fn resolved_of(listeners: Seq<ListenerView>) -> Seq<RouteView>
    decreases listeners.len(),
{
    if listeners.len() == 0 {
        Seq::empty()
    } else {
        with_routes(
            resolved_of(listeners.drop_last()),
            listeners.last().made_of().resolved_routes,
        )
    }
}

/// The routes of listeners that are not resolved, those of later ones in place of those of earlier
/// ones.
pub open spec fn unresolved_of(listeners: Seq<ListenerView>) -> Seq<RouteView>
    decreases listeners.len(),
{
    if listeners.len() == 0 {
        Seq::empty()
    } else {
        with_routes(
            unresolved_of(listeners.drop_last()),
            listeners.last().made_of().unresolved_routes,
        )
    }
}

impl GatewayView {
    /// Whether the listeners stand under their own names, in the order of the names.
    pub open spec fn keeps_names(self) -> bool {
        &&& increasing::<String>(keys(self.listeners))
        &&& forall|i: int|
            0 <= i < self.listeners.len() ==> (#[trigger] self.listeners[i]).0
                == self.listeners[i].1.made_of().config.name
    }
}

impl Gateway {
    /// The name of the gateway.
    pub fn name(&self) -> (r: &str)
        ensures
            r@ == self.resource_key.name@,
    {
        self.resource_key.name.as_str()
    }

    /// The namespace of the gateway.
    pub fn namespace(&self) -> (r: &str)
        ensures
            r@ == self.resource_key.namespace@,
    {
        self.resource_key.namespace.as_str()
    }

    /// The key of the gateway.
    pub fn key(&self) -> (r: &ResourceKey)
        ensures
            *r == self.resource_key,
    {
        &self.resource_key
    }

    /// The identifier of the gateway.
    pub fn id(&self) -> (r: u128)
        ensures
            r == self.id,
    {
        self.id
    }

    /// The listeners, in the order of their names.
    pub fn listeners(&self) -> (r: Vec<&Listener>)
        ensures
            r.deep_view() == values(self.deep_view().listeners),
    {
        self.listeners.values()
    }

    /// The listener with a name.
    pub fn listener(&self, name: &str) -> (r: Option<&Listener>)
        ensures
            table(self.deep_view().listeners).contains_key(name@) <==> r is Some,
            r matches Some(listener) ==> listener.deep_view() == table(
                self.deep_view().listeners,
            )[name@],
    {
        self.listeners.get(&name.to_owned())
    }

    /// Takes a listener, in place of the one with its name.
    pub fn set_listener(&mut self, listener: Listener)
        ensures
            final(self).deep_view() == (GatewayView {
                listeners: put::<String, ListenerView>(
                    old(self).deep_view().listeners,
                    listener.deep_view().made_of().config.name,
                    listener.deep_view(),
                ),
                ..old(self).deep_view()
            }),
            old(self).deep_view().keeps_names() ==> final(self).deep_view().keeps_names(),
    {
        proof {
            let before = self.deep_view().listeners;
            let name = listener.deep_view().made_of().config.name;
            if self.deep_view().keeps_names() {
                law_put::<String, ListenerView>(before, name, listener.deep_view());
                slot_bounds::<String>(keys(before), name);
            }
        }
        let name = listener.name().to_owned();
        self.listeners.insert(name, listener);
    }

    /// The addresses of the gateway.
    pub fn addresses(&self) -> (r: &OrderedSet<GatewayAddress>)
        ensures
            *r == self.addresses,
    {
        &self.addresses
    }

    /// The place of the addresses.
    pub fn addresses_mut(&mut self) -> (r: &mut OrderedSet<GatewayAddress>)
        ensures
            *r == old(self).addresses,
            *final(self) == (Gateway { addresses: *final(r), ..*old(self) }),
    {
        &mut self.addresses
    }

    /// The routes of all listeners: those that are resolved, and those that are not.
    pub fn routes(&self) -> (r: (RouteSet, RouteSet))
        ensures
            r.0.deep_view() == resolved_of(values(self.deep_view().listeners)),
            r.1.deep_view() == unresolved_of(values(self.deep_view().listeners)),
    {
        let listeners = self.listeners();
        let ghost all = values(self.deep_view().listeners);
        let mut resolved = RouteSet::new();
        let mut unresolved = RouteSet::new();
        let mut i: usize = 0;
        assert(all.take(0) =~= Seq::<ListenerView>::empty());
        while i < listeners.len()
            invariant
                i <= listeners.len(),
                listeners.deep_view() == all,
                resolved.deep_view() == resolved_of(all.take(i as int)),
                unresolved.deep_view() == unresolved_of(all.take(i as int)),
            decreases listeners.len() - i,
        {
            let data = listeners[i].data();
            assert(all[i as int] == listeners[i as int].deep_view());
            resolved.append(&data.resolved_routes);
            unresolved.append(&data.unresolved_routes);
            assert(all.take(i + 1).drop_last() =~= all.take(i as int));
            i = i + 1;
        }
        assert(all.take(i as int) =~= all);
        (resolved, unresolved)
    }

    /// The ways in which the routes of all listeners take HTTP requests, in the order in which they
    /// are tried.
    pub fn effective_matching_rules(&self) -> (r: Vec<EffectiveRoutingRule>)
        ensures
            r.deep_view() == http_rules_of(
                resolved_of(values(self.deep_view().listeners)),
                unresolved_of(values(self.deep_view().listeners)),
            ),
    {
        let (resolved, unresolved) = self.routes();
        sort_http_rules(&resolved.items(), &unresolved.items())
    }

    /// The routes that no listener takes.
    pub fn orphaned_routes(&self) -> (r: &RouteSet)
        ensures
            *r == self.orphaned_routes,
    {
        &self.orphaned_routes
    }

    /// The place of the routes that no listener takes.
    pub fn orphaned_routes_mut(&mut self) -> (r: &mut RouteSet)
        ensures
            *r == old(self).orphaned_routes,
            *final(self) == (Gateway { orphaned_routes: *final(r), ..*old(self) }),
    {
        &mut self.orphaned_routes
    }

    /// The data plane that the gateway is made of.
    pub fn backend_type(&self) -> (r: &GatewayImplementationType)
        ensures
            *r == self.backend_type,
    {
        &self.backend_type
    }

    /// The place of the data plane.
    pub fn backend_type_mut(&mut self) -> (r: &mut GatewayImplementationType)
        ensures
            *r == old(self).backend_type,
            *final(self) == (Gateway { backend_type: *final(r), ..*old(self) }),
    {
        &mut self.backend_type
    }
}

/// Whether every listener can be read.
pub open spec fn all_read(listeners: Seq<GatewayListenerView>) -> bool {
    forall|i: int| 0 <= i < listeners.len() ==> (#[trigger] listeners[i]).read() is Ok
}

/// The listeners that were read, under their names.
pub open spec fn listeners_read(listeners: Seq<GatewayListenerView>) -> Seq<
    (Seq<char>, ListenerView),
> {
    Seq::new(
        listeners.len(),
        |i: int| (listeners[i].name, listeners[i].read()->Ok_0),
    )
}

impl KubeGatewayView {
    /// The gateway that was read, with the identifier that its text spells.
    pub open spec fn read(
        self,
        id: Option<u128>,
        backend_type: GatewayImplementationType,
    ) -> Result<GatewayView, GatewayErrorView> {
        match id {
            None => Err(GatewayErrorView::ConversionProblem("Can't parse uuid"@)),
            Some(id) => if all_read(self.listeners) {
                Ok(
                    GatewayView {
                        id,
                        resource_key: ResourceKeyView::of_object(self.metadata, "Gateway"@),
                        addresses: Seq::empty(),
                        listeners: stored::<String, ListenerView>(listeners_read(self.listeners)),
                        orphaned_routes: Seq::empty(),
                        backend_type,
                    },
                )
            } else {
                Err(GatewayErrorView::ConversionProblem("Misconfigured listeners"@))
            },
        }
    }

    /// The text of the identifier.
    pub open spec fn uid(self) -> Seq<char> {
        match self.metadata.uid {
            Some(uid) => uid,
            None => Seq::empty(),
        }
    }
}

fn read_listeners(listeners: &Vec<GatewayListener>) -> (r: Vec<Result<Listener, ListenerError>>)
    ensures
        r.len() == listeners.len(),
        forall|i: int|
            0 <= i < listeners.len() ==> match listeners.deep_view()[i].read() {
                Ok(read) => (#[trigger] r[i]) is Ok && r[i]->Ok_0.deep_view() == read,
                Err(error) => r[i] is Err,
            },
{
    let mut out: Vec<Result<Listener, ListenerError>> = Vec::new();
    let mut i: usize = 0;
    while i < listeners.len()
        invariant
            i <= listeners.len(),
            out.len() == i,
            forall|j: int|
                0 <= j < i ==> match listeners.deep_view()[j].read() {
                    Ok(read) => (#[trigger] out[j]) is Ok && out[j]->Ok_0.deep_view() == read,
                    Err(error) => out[j] is Err,
                },
        decreases listeners.len() - i,
    {
        let read = Listener::try_from(&listeners[i]);
        assert(listeners.deep_view()[i as int] == listeners[i as int].deep_view());
        out.push(read);
        i = i + 1;
    }
    out
}

proof fn all_succeed(items: Seq<Result<Listener, ListenerError>>)
    requires
        forall|i: int| 0 <= i < items.len() ==> items[i] is Ok,
    ensures
        successes(items).len() == items.len(),
        forall|i: int| 0 <= i < items.len() ==> successes(items)[i] == (#[trigger] items[i])->Ok_0,
    decreases items.len(),
{
    if items.len() > 0 {
        let shorter = items.drop_last();
        assert forall|i: int| 0 <= i < shorter.len() implies shorter[i] is Ok by {
            assert(items[i] is Ok);
        }
        all_succeed(shorter);
        assert(items[items.len() - 1] is Ok);
        assert forall|i: int| 0 <= i < items.len() implies successes(items)[i] == (
        #[trigger] items[i])->Ok_0 by {
            if i < shorter.len() {
                assert(shorter[i] == items[i]);
            }
        }
    }
}

/// A listener that was read has the name that it had.
pub proof fn law_read_keeps_name(listener: GatewayListenerView)
    requires
        listener.read() is Ok,
    ensures
        listener.read()->Ok_0.made_of().config.name == listener.name,
        listener.read()->Ok_0.made_of().config.port == listener.port,
        listener.read()->Ok_0.made_of().config.hostname == listener.hostname,
{
}

impl Gateway {
    /// Reads a gateway of the cluster, with the identifier that its text spells.
    pub fn read(
        gateway: &KubeGateway,
        id: Option<u128>,
        backend_type: GatewayImplementationType,
    ) -> (r: Result<Gateway, GatewayError>)
        ensures
            match gateway.deep_view().read(id, backend_type) {
                Ok(read) => r is Ok && r->Ok_0.deep_view() == read && read.keeps_names(),
                Err(error) => r is Err && r->Err_0.deep_view() == error,
            },
    {
        let id: u128 = match id {
            Some(id) => id,
            None => return Err(GatewayError::ConversionProblem("Can't parse uuid".to_owned())),
        };
        let results = read_listeners(&gateway.listeners);
        let ghost all = gateway.deep_view().listeners;
        proof {
            law_verify_parts(results@);
            assert(all_read(all) <==> forall|i: int| 0 <= i < results@.len() ==> results@[i] is Ok) by {
                if all_read(all) {
                    assert forall|i: int| 0 <= i < results@.len() implies results@[i] is Ok by {
                        assert(all[i].read() is Ok);
                    }
                } else {
                    let i = choose|i: int|
                        0 <= i < all.len() && !((#[trigger] all[i]).read() is Ok);
                    assert(results@[i] is Err);
                }
            }
        }
        let ghost outcomes = results@;
        let (read, errors) = VerifiyItems::verify(results);
        if errors.len() > 0 {
            return Err(GatewayError::ConversionProblem("Misconfigured listeners".to_owned()));
        }
        let ghost views = Seq::new(all.len(), |j: int| all[j].read()->Ok_0);
        proof {
            all_succeed(outcomes);
            assert forall|j: int| 0 <= j < all.len() implies read.deep_view()[j] == views[j] by {
                assert(outcomes[j] is Ok);
                assert(read@[j] == outcomes[j]->Ok_0);
            }
            assert(read.deep_view() =~= views);
            assert forall|j: int| 0 <= j < all.len() implies (#[trigger] views[j]).made_of().config.name
                == all[j].name by {
                law_read_keeps_name(all[j]);
            }
        }
        let mut listeners: OrderedMap<String, Listener> = OrderedMap::new();
        let ghost pairs = listeners_read(all);
        let mut i: usize = 0;
        assert(pairs.take(0) =~= Seq::<(Seq<char>, ListenerView)>::empty());
        while i < read.len()
            invariant
                i <= read.len(),
                read.deep_view() == views,
                pairs.len() == views.len(),
                forall|j: int|
                    0 <= j < pairs.len() ==> #[trigger] pairs[j] == (
                        views[j].made_of().config.name,
                        views[j],
                    ),
                listeners.deep_view() == stored::<String, ListenerView>(pairs.take(i as int)),
            decreases read.len() - i,
        {
            let name = read[i].name().to_owned();
            let listener = read[i].dup();
            assert(views[i as int] == read[i as int].deep_view());
            assert(pairs.take(i + 1).drop_last() =~= pairs.take(i as int));
            listeners.insert(name, listener);
            i = i + 1;
        }
        assert(pairs.take(i as int) =~= pairs);
        proof {
            law_stored_keys::<String, ListenerView>(pairs);
            let held = listeners.deep_view();
            assert forall|k: int| 0 <= k < held.len() implies (#[trigger] held[k]).0
                == held[k].1.made_of().config.name by {
                stored_is_of_pairs::<String, ListenerView>(pairs, k);
                let j = choose|j: int| 0 <= j < pairs.len() && pairs[j] == held[k];
                assert(pairs[j] == (views[j].made_of().config.name, views[j]));
            }
        }
        Ok(
            Gateway {
                id,
                resource_key: ResourceKey::of_gateway(&gateway.metadata),
                addresses: OrderedSet::new(),
                listeners,
                orphaned_routes: RouteSet::new(),
                backend_type,
            },
        )
    }
}

impl<'a> TryFrom<(&'a KubeGateway, GatewayImplementationType)> for Gateway {
    type Error = GatewayError;

    /// Reads a gateway of the cluster that is made of a data plane.
    fn try_from(pair: (&'a KubeGateway, GatewayImplementationType)) -> (r: Result<
        Self,
        GatewayError,
    >)
        ensures
            match pair.0.deep_view().read(uuid_of(pair.0.deep_view().uid()), pair.1) {
                Ok(read) => r is Ok && r->Ok_0.deep_view() == read && read.keeps_names(),
                Err(error) => r is Err && r->Err_0.deep_view() == error,
            },
    {
        let id: Option<u128> = match &pair.0.metadata.uid {
            Some(uid) => parse_uuid(uid.as_str()),
            None => parse_uuid(String::new().as_str()),
        };
        Gateway::read(pair.0, id, pair.1)
    }
}

impl<'a> TryFromSpecImpl<(&'a KubeGateway, GatewayImplementationType)> for Gateway {
    open spec fn obeys_try_from_spec() -> bool {
        false
    }

    open spec fn try_from_spec(pair: (&'a KubeGateway, GatewayImplementationType)) -> Result<
        Self,
        GatewayError,
    > {
        arbitrary()
    }
}

impl<'a> TryFrom<&'a KubeGateway> for Gateway {
    type Error = GatewayError;

    /// Reads a gateway of the cluster that is made of Envoy.
    fn try_from(gateway: &'a KubeGateway) -> (r: Result<Self, GatewayError>)
        ensures
            match gateway.deep_view().read(
                uuid_of(gateway.deep_view().uid()),
                GatewayImplementationType::Envoy,
            ) {
                Ok(read) => r is Ok && r->Ok_0.deep_view() == read && read.keeps_names(),
                Err(error) => r is Err && r->Err_0.deep_view() == error,
            },
    {
        Gateway::try_from((gateway, GatewayImplementationType::Envoy))
    }
}

impl<'a> TryFromSpecImpl<&'a KubeGateway> for Gateway {
    open spec fn obeys_try_from_spec() -> bool {
        false
    }

    open spec fn try_from_spec(gateway: &'a KubeGateway) -> Result<Self, GatewayError> {
        arbitrary()
    }
}

/// A data plane goes by its name; Envoy goes without one too. No other name stands for one.
pub proof fn law_implementation_named(name: Seq<char>)
    ensures
        implementation_named(None) == Some(GatewayImplementationType::Envoy),
        name == "envoy"@ ==> implementation_named(Some(name)) == Some(
            GatewayImplementationType::Envoy,
        ),
        name == "agentgateway"@ ==> implementation_named(Some(name)) == Some(
            GatewayImplementationType::Agentgateway,
        ),
        name != "envoy"@ && name != "agentgateway"@ ==> implementation_named(Some(name)) is None,
{
    reveal_strlit("envoy");
    reveal_strlit("agentgateway");
    assert("envoy"@.len() != "agentgateway"@.len());
}

/// A gateway can be read where its identifier is one and each of its listeners can be read. It has the
/// key of the gateway of the cluster, each listener under its name, and nothing else yet.
pub proof fn law_gateway_read(
    gateway: KubeGatewayView,
    id: Option<u128>,
    backend_type: GatewayImplementationType,
)
    ensures
        gateway.read(id, backend_type) is Ok <==> id is Some && forall|i: int|
            0 <= i < gateway.listeners.len() ==> (#[trigger] gateway.listeners[i]).read() is Ok,
        id is None ==> gateway.read(id, backend_type) == Err::<GatewayView, GatewayErrorView>(
            GatewayErrorView::ConversionProblem("Can't parse uuid"@),
        ),
        id is Some && gateway.read(id, backend_type) is Err ==> gateway.read(id, backend_type)
            == Err::<GatewayView, GatewayErrorView>(
            GatewayErrorView::ConversionProblem("Misconfigured listeners"@),
        ),
        gateway.read(id, backend_type) matches Ok(read) ==> {
            &&& Some(read.id) == id
            &&& read.backend_type == backend_type
            &&& read.resource_key.name == gateway.metadata.any_name()
            &&& read.resource_key.kind == "Gateway"@
            &&& gateway.metadata.namespace is Some ==> read.resource_key.namespace
                == gateway.metadata.namespace->0
            &&& gateway.metadata.namespace is None ==> read.resource_key.namespace == "default"@
            &&& read.addresses.len() == 0
            &&& read.orphaned_routes.len() == 0
            &&& increasing::<String>(keys(read.listeners))
        },
{
    law_stored_keys::<String, ListenerView>(listeners_read(gateway.listeners));
}

/// A gateway that was read has each listener of the gateway of the cluster under its name: the last of
/// those that have one name.
pub proof fn law_gateway_has_listener(
    gateway: KubeGatewayView,
    id: u128,
    backend_type: GatewayImplementationType,
    i: int,
)
    requires
        gateway.read(Some(id), backend_type) is Ok,
        0 <= i < gateway.listeners.len(),
        forall|j: int|
            i < j < gateway.listeners.len() ==> (#[trigger] gateway.listeners[j]).name
                != gateway.listeners[i].name,
    ensures
        table(gateway.read(Some(id), backend_type)->Ok_0.listeners).contains_key(
            gateway.listeners[i].name,
        ),
        table(gateway.read(Some(id), backend_type)->Ok_0.listeners)[gateway.listeners[i].name]
            == gateway.listeners[i].read()->Ok_0,
{
    let pairs = listeners_read(gateway.listeners);
    assert forall|j: int| i < j < pairs.len() implies (#[trigger] pairs[j]).0 != pairs[i].0 by {
        assert(gateway.listeners[j].name != gateway.listeners[i].name);
    }
    law_stored::<String, ListenerView>(pairs, i);
}

/// The resolved routes of listeners are routes that are resolved at a listener, and for each of those
/// there is one with its key.
pub proof fn law_resolved_of(listeners: Seq<ListenerView>)
    ensures
        increasing::<ResourceKey>(route_keys(resolved_of(listeners))),
        forall|route: RouteView| #[trigger]
            resolved_of(listeners).contains(route) ==> exists|l: int|
                0 <= l < listeners.len() && (
                #[trigger] listeners[l]).made_of().resolved_routes.contains(route),
        forall|l: int, route: RouteView|
            0 <= l < listeners.len() && #[trigger] listeners[l].made_of().resolved_routes.contains(
                route,
            ) ==> exists|k: int|
                0 <= k < resolved_of(listeners).len() && (#[trigger] resolved_of(
                    listeners,
                )[k]).config.resource_key == route.config.resource_key,
    decreases listeners.len(),
{
    if listeners.len() > 0 {
        let shorter = listeners.drop_last();
        let before = resolved_of(shorter);
        let last = listeners.last().made_of().resolved_routes;
        let after = resolved_of(listeners);
        law_resolved_of(shorter);
        law_with_routes(before, last);
        assert forall|route: RouteView| #[trigger] after.contains(route) implies exists|l: int|
            0 <= l < listeners.len() && (#[trigger] listeners[l]).made_of().resolved_routes.contains(
                route,
            ) by {
            if last.contains(route) {
                assert(listeners[listeners.len() - 1] == listeners.last());
            } else {
                assert(before.contains(route));
                let l = choose|l: int|
                    0 <= l < shorter.len() && (
                    #[trigger] shorter[l]).made_of().resolved_routes.contains(route);
                assert(listeners[l] == shorter[l]);
            }
        }
        assert forall|l: int, route: RouteView|
            0 <= l < listeners.len() && #[trigger] listeners[l].made_of().resolved_routes.contains(
                route,
            ) implies exists|k: int|
            0 <= k < after.len() && (#[trigger] after[k]).config.resource_key
                == route.config.resource_key by {
            let key = route.config.resource_key;
            if l < shorter.len() {
                assert(listeners[l] == shorter[l]);
                assert(shorter[l].made_of().resolved_routes.contains(route));
                let k = choose|k: int|
                    0 <= k < before.len() && (#[trigger] before[k]).config.resource_key == key;
                key_is_kept(before, last, before[k]);
            } else {
                let i = choose|i: int| 0 <= i < last.len() && last[i] == route;
                key_is_put(before, last, i);
            }
        }
    }
}

/// The routes of listeners that are not resolved are routes that are not resolved at a listener, and for
/// each of those there is one with its key.
pub proof fn law_unresolved_of(listeners: Seq<ListenerView>)
    ensures
        increasing::<ResourceKey>(route_keys(unresolved_of(listeners))),
        forall|route: RouteView| #[trigger]
            unresolved_of(listeners).contains(route) ==> exists|l: int|
                0 <= l < listeners.len() && (
                #[trigger] listeners[l]).made_of().unresolved_routes.contains(route),
        forall|l: int, route: RouteView|
            0 <= l < listeners.len() && #[trigger] listeners[l].made_of().unresolved_routes.contains(
                route,
            ) ==> exists|k: int|
                0 <= k < unresolved_of(listeners).len() && (#[trigger] unresolved_of(
                    listeners,
                )[k]).config.resource_key == route.config.resource_key,
    decreases listeners.len(),
{
    if listeners.len() > 0 {
        let shorter = listeners.drop_last();
        let before = unresolved_of(shorter);
        let last = listeners.last().made_of().unresolved_routes;
        let after = unresolved_of(listeners);
        law_unresolved_of(shorter);
        law_with_routes(before, last);
        assert forall|route: RouteView| #[trigger] after.contains(route) implies exists|l: int|
            0 <= l < listeners.len() && (
            #[trigger] listeners[l]).made_of().unresolved_routes.contains(route) by {
            if last.contains(route) {
                assert(listeners[listeners.len() - 1] == listeners.last());
            } else {
                assert(before.contains(route));
                let l = choose|l: int|
                    0 <= l < shorter.len() && (
                    #[trigger] shorter[l]).made_of().unresolved_routes.contains(route);
                assert(listeners[l] == shorter[l]);
            }
        }
        assert forall|l: int, route: RouteView|
            0 <= l < listeners.len() && #[trigger] listeners[l].made_of().unresolved_routes.contains(
                route,
            ) implies exists|k: int|
            0 <= k < after.len() && (#[trigger] after[k]).config.resource_key
                == route.config.resource_key by {
            let key = route.config.resource_key;
            if l < shorter.len() {
                assert(listeners[l] == shorter[l]);
                assert(shorter[l].made_of().unresolved_routes.contains(route));
                let k = choose|k: int|
                    0 <= k < before.len() && (#[trigger] before[k]).config.resource_key == key;
                key_is_kept(before, last, before[k]);
            } else {
                let i = choose|i: int| 0 <= i < last.len() && last[i] == route;
                key_is_put(before, last, i);
            }
        }
    }
}

proof fn key_is_put(routes: Seq<RouteView>, others: Seq<RouteView>, i: int)
    requires
        increasing::<ResourceKey>(route_keys(routes)),
        0 <= i < others.len(),
    ensures
        exists|k: int|
            0 <= k < with_routes(routes, others).len() && (#[trigger] with_routes(
                routes,
                others,
            )[k]).config.resource_key == others[i].config.resource_key,
    decreases others.len() - i,
{
    let after = with_routes(routes, others);
    law_with_routes(routes, others);
    if forall|j: int|
        i < j < others.len() ==> (#[trigger] others[j]).config.resource_key
            != others[i].config.resource_key {
        assert(after.contains(others[i]));
        let k = choose|k: int| 0 <= k < after.len() && after[k] == others[i];
        assert(after[k].config.resource_key == others[i].config.resource_key);
    } else {
        let j = choose|j: int|
            i < j < others.len() && (#[trigger] others[j]).config.resource_key
                == others[i].config.resource_key;
        key_is_put(routes, others, j);
    }
}

proof fn key_is_kept(routes: Seq<RouteView>, others: Seq<RouteView>, route: RouteView)
    requires
        increasing::<ResourceKey>(route_keys(routes)),
        routes.contains(route),
    ensures
        exists|k: int|
            0 <= k < with_routes(routes, others).len() && (#[trigger] with_routes(
                routes,
                others,
            )[k]).config.resource_key == route.config.resource_key,
{
    let after = with_routes(routes, others);
    law_with_routes(routes, others);
    if forall|i: int|
        0 <= i < others.len() ==> (#[trigger] others[i]).config.resource_key
            != route.config.resource_key {
        assert(after.contains(route));
        let k = choose|k: int| 0 <= k < after.len() && after[k] == route;
        assert(after[k].config.resource_key == route.config.resource_key);
    } else {
        let i = choose|i: int|
            0 <= i < others.len() && (#[trigger] others[i]).config.resource_key
                == route.config.resource_key;
        key_is_put(routes, others, i);
    }
}

/// Two gateways are the same where their keys are, and stand to each other as these do.
pub proof fn law_gateways_told_apart(a: Gateway, b: Gateway)
    ensures
        PartialEqSpec::eq_spec(&a, &b) <==> a.resource_key.deep_view() == b.resource_key.deep_view(),
        gateway_rank(a.deep_view(), b.deep_view()) == Rank::Less
            ==> PartialOrdSpec::partial_cmp_spec(&a, &b) == Some(Ordering::Less),
        gateway_rank(a.deep_view(), b.deep_view()) == Rank::Equal
            ==> PartialOrdSpec::partial_cmp_spec(&a, &b) == Some(Ordering::Equal),
        gateway_rank(a.deep_view(), b.deep_view()) == Rank::Greater
            ==> PartialOrdSpec::partial_cmp_spec(&a, &b) == Some(Ordering::Greater),
{
}

/// Gateways stand to each other as their keys do, whatever else they hold.
pub proof fn law_gateways_in_order(a: GatewayView, b: GatewayView)
    ensures
        gateway_rank(a, b) == <ResourceKey as Ranked>::rank(a.resource_key, b.resource_key),
{
}

/// A gateway is identified by what the cluster gave it, and by nothing where it gave it nothing.
pub proof fn law_identifier_of_gateway(gateway: KubeGatewayView)
    ensures
        gateway.metadata.uid is Some ==> gateway.uid() == gateway.metadata.uid->0,
        gateway.metadata.uid is None ==> gateway.uid().len() == 0,
{
}

} // verus!
