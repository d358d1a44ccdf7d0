//! The delta discovery service: clients are told of what is new and of what is gone.
use vstd::prelude::*;
use crate::backends::agentgateway::nonces::{Nonces, kept};
use crate::backends::agentgateway::resources::{
    Address,
    AddressType,
    AddressTypeView,
    AddressView,
    Kind,
    KindView,
    Resource,
    ResourceView,
};
use crate::backends::envoy::ads::{
    AdsClient,
    AdsClientView,
    AdsClients,
    Node,
    NodeView,
    client_at,
    client_ids,
    connected,
    create_gateway_id,
    disconnected,
    knows,
    law_client_is_found,
    law_clients_of_gateway,
    serving,
    updated,
};
use crate::common::resource_key::{ResourceKey, ResourceKeyView, id_of};
use crate::identifiers::{fresh_text, fresh_uuid, uuid_of};
use crate::lists::{choose_list, chosen, chosen_contains, law_chosen_of_all, map_list, no_items};
use crate::model::Model;
use crate::ordered::{
    OrderedMap,
    drop_key,
    increasing,
    keys,
    law_drop_key,
    law_put,
    put,
    put_each,
    table,
};
use crate::text::{cat, cat3, count_text, decimal, law_text_is_split, pieces, split, text_is};

verus! {

/// The type of the resources.
pub const RESOURCE_URL: &'static str = "type.googleapis.com/agentgateway.dev.resource.Resource";

/// The type of the addresses.
pub const ADDRESS_URL: &'static str = "type.googleapis.com/agentgateway.dev.workload.Address";

/// What the service is told to do: new resources, or new workloads, of a gateway.
#[derive(Debug, PartialEq, Eq)]
pub enum ServerAction {
    UpdateResources { gateway_id: ResourceKey, resources: Vec<Resource> },
    UpdateWorkloads { gateway_id: ResourceKey, workloads: Vec<Address> },
}

/// What a [`ServerAction`] holds.
#[verifier::ext_equal]
pub enum ServerActionView {
    UpdateResources { gateway_id: ResourceKeyView, resources: Seq<ResourceView> },
    UpdateWorkloads { gateway_id: ResourceKeyView, workloads: Seq<AddressView> },
}

impl DeepView for ServerAction {
    type V = ServerActionView;

    open spec fn deep_view(&self) -> ServerActionView {
        match self {
            ServerAction::UpdateResources { gateway_id, resources } => ServerActionView::UpdateResources { gateway_id: gateway_id.deep_view(), resources: resources.deep_view() },
            ServerAction::UpdateWorkloads { gateway_id, workloads } => ServerActionView::UpdateWorkloads { gateway_id: gateway_id.deep_view(), workloads: workloads.deep_view() },
        }
    }
}

impl Model for ServerAction {
    fn dup(&self) -> (r: Self) {
        match self {
            ServerAction::UpdateResources { gateway_id, resources } => ServerAction::UpdateResources { gateway_id: gateway_id.dup(), resources: resources.dup() },
            ServerAction::UpdateWorkloads { gateway_id, workloads } => ServerAction::UpdateWorkloads { gateway_id: gateway_id.dup(), workloads: workloads.dup() },
        }
    }

    fn same(&self, other: &Self) -> (r: bool) {
        match (self, other) {
            (ServerAction::UpdateResources { gateway_id, resources }, ServerAction::UpdateResources { gateway_id: gateway_id_, resources: resources_ }) => gateway_id.same(gateway_id_) && resources.same(resources_),
            (ServerAction::UpdateWorkloads { gateway_id, workloads }, ServerAction::UpdateWorkloads { gateway_id: gateway_id_, workloads: workloads_ }) => gateway_id.same(gateway_id_) && workloads.same(workloads_),
            _ => false,
        }
    }
}

impl ServerActionView {
    /// The identifier of the gateway.
    pub open spec fn gateway(self) -> Seq<char> {
        match self {
            ServerActionView::UpdateResources { gateway_id, .. } => id_of(
                gateway_id.name,
                gateway_id.namespace,
            ),
            ServerActionView::UpdateWorkloads { gateway_id, .. } => id_of(
                gateway_id.name,
                gateway_id.namespace,
            ),
        }
    }
}

/// The resources and the workloads of a gateway, or those that a client has.
#[derive(Debug, PartialEq, Eq)]
pub struct ManagedResources {
    pub all_resources: Vec<Resource>,
    pub all_workloads: Vec<Address>,
}

/// What a [`ManagedResources`] holds.
#[verifier::ext_equal]
pub struct ManagedResourcesView {
    pub all_resources: Seq<ResourceView>,
    pub all_workloads: Seq<AddressView>,
}

impl DeepView for ManagedResources {
    type V = ManagedResourcesView;

    open spec fn deep_view(&self) -> ManagedResourcesView {
        ManagedResourcesView {
            all_resources: self.all_resources.deep_view(),
            all_workloads: self.all_workloads.deep_view(),
        }
    }
}

impl Model for ManagedResources {
    fn dup(&self) -> (r: Self) {
        ManagedResources {
            all_resources: self.all_resources.dup(),
            all_workloads: self.all_workloads.dup(),
        }
    }

    fn same(&self, other: &Self) -> (r: bool) {
        self.all_resources.same(&other.all_resources)
            && self.all_workloads.same(&other.all_workloads)
    }
}

/// Neither resources nor workloads.
pub open spec fn nothing_managed() -> ManagedResourcesView {
    ManagedResourcesView { all_resources: Seq::empty(), all_workloads: Seq::empty() }
}

impl ManagedResourcesView {
    /// What there is after an update: the resources, or the workloads, are new.
    pub open spec fn renewed(self, action: ServerActionView) -> ManagedResourcesView {
        match action {
            ServerActionView::UpdateResources { resources, .. } => ManagedResourcesView {
                all_resources: resources,
                ..self
            },
            ServerActionView::UpdateWorkloads { workloads, .. } => ManagedResourcesView {
                all_workloads: workloads,
                ..self
            },
        }
    }

    /// Whether an update has as many resources, or workloads, as there are.
    pub open spec fn fits(self, action: ServerActionView) -> bool {
        match action {
            ServerActionView::UpdateResources { resources, .. } => self.all_resources.len()
                == resources.len(),
            ServerActionView::UpdateWorkloads { workloads, .. } => self.all_workloads.len()
                == workloads.len(),
        }
    }
}

/// What is managed under a name.
pub open spec fn managed_at(
    entries: Seq<(Seq<char>, ManagedResourcesView)>,
    name: Seq<char>,
) -> ManagedResourcesView {
    if table(entries).contains_key(name) {
        table(entries)[name]
    } else {
        nothing_managed()
    }
}

fn managed_of(entries: &OrderedMap<String, ManagedResources>, name: &String) -> (r: ManagedResources)
    ensures
        r.deep_view() == managed_at(entries.deep_view(), name@),
{
    match entries.get(name) {
        Some(managed) => managed.dup(),
        None => ManagedResources { all_resources: no_items(), all_workloads: no_items() },
    }
}

fn renew(managed: ManagedResources, action: &ServerAction) -> (r: ManagedResources)
    ensures
        r.deep_view() == managed.deep_view().renewed(action.deep_view()),
{
    match action {
        ServerAction::UpdateResources { resources, .. } => ManagedResources {
            all_resources: resources.dup(),
            all_workloads: managed.all_workloads,
        },
        ServerAction::UpdateWorkloads { workloads, .. } => ManagedResources {
            all_resources: managed.all_resources,
            all_workloads: workloads.dup(),
        },
    }
}

/// A value that is not among others.
pub open spec fn not_in<A>(others: Seq<A>) -> spec_fn(A) -> Option<A> {
    |item: A|
        if others.contains(item) {
            None
        } else {
            Some(item)
        }
}

/// The values of a list that are not in another, in their order.
pub open spec fn missing<A>(this: Seq<A>, other: Seq<A>) -> Seq<A> {
    chosen(this, not_in(other))
}

fn is_in<T: Model>(item: &T, others: &Vec<T>) -> (r: bool)
    ensures
        r == others.deep_view().contains(item.deep_view()),
{
    let mut i: usize = 0;
    while i < others.len()
        invariant
            i <= others.len(),
            forall|j: int| 0 <= j < i ==> #[trigger] others.deep_view()[j] != item.deep_view(),
        decreases others.len() - i,
    {
        assert(others.deep_view()[i as int] == others[i as int].deep_view());
        if others[i].same(item) {
            return true;
        }
        i = i + 1;
    }
    false
}

/// The values of a list that are not in another, in their order.
pub fn difference<T: Model>(this: &Vec<T>, other: &Vec<T>) -> (r: Vec<T>)
    ensures
        r.deep_view() == missing(this.deep_view(), other.deep_view()),
{
    choose_list(
        this,
        |item: &T| -> (y: Option<T>)
            ensures y.deep_view() == not_in(other.deep_view())(item.deep_view())
        {
            if is_in(item, other) {
                None
            } else {
                Some(item.dup())
            }
        },
        Ghost(not_in(other.deep_view())),
    )
}

/// What is new and, by name, what is gone.
pub struct Delta<T> {
    pub to_add: Vec<T>,
    pub to_remove: Vec<String>,
}

/// The name that a resource is removed by.
pub open spec fn resource_name() -> spec_fn(ResourceView) -> Option<Seq<char>> {
    |resource: ResourceView|
        match resource.kind {
            Some(KindView::Bind(bind)) => Some("bind/"@ + bind.key),
            Some(KindView::Listener(listener)) => Some("listener/"@ + listener.key),
            Some(KindView::Route(route)) => Some("route/"@ + route.key),
            Some(KindView::Backend(backend)) => Some("backend/"@ + backend.name),
            Some(KindView::Policy(policy)) => Some("policy/"@ + policy.name),
            Some(KindView::TcpRoute(route)) => Some("tcproute/"@ + route.key),
            None => None,
        }
}

fn name_resource(resource: &Resource) -> (r: Option<String>)
    ensures
        r.deep_view() == resource_name()(resource.deep_view()),
{
    match &resource.kind {
        Some(Kind::Bind(bind)) => Some(cat("bind/", bind.key.as_str())),
        Some(Kind::Listener(listener)) => Some(cat("listener/", listener.key.as_str())),
        Some(Kind::Route(route)) => Some(cat("route/", route.key.as_str())),
        Some(Kind::Backend(backend)) => Some(cat("backend/", backend.name.as_str())),
        Some(Kind::Policy(policy)) => Some(cat("policy/", policy.name.as_str())),
        Some(Kind::TcpRoute(route)) => Some(cat("tcproute/", route.key.as_str())),
        None => None,
    }
}

/// The name that an address is removed by.
pub open spec fn address_name() -> spec_fn(AddressView) -> Option<Seq<char>> {
    |address: AddressView|
        match address.address_type {
            Some(AddressTypeView::Workload(workload)) => Some("address/"@ + workload.uid),
            Some(AddressTypeView::Service(service)) => Some(
                "address/"@ + service.name + "/"@ + service.namespace,
            ),
            None => None,
        }
}

fn name_address(address: &Address) -> (r: Option<String>)
    ensures
        r.deep_view() == address_name()(address.deep_view()),
{
    match &address.address_type {
        Some(AddressType::Workload(workload)) => Some(cat("address/", workload.uid.as_str())),
        Some(AddressType::Service(service)) => {
            let start = cat3("address/", service.name.as_str(), "/");
            Some(cat(start.as_str(), service.namespace.as_str()))
        },
        None => None,
    }
}

impl ManagedResources {
    /// Takes new resources. What is new and what is gone is given back.
    pub fn cache_resources_and_calculate_delta(&mut self, new_resources: Vec<Resource>) -> (r: Delta<
        Resource,
    >)
        ensures
            final(self).deep_view() == (ManagedResourcesView {
                all_resources: new_resources.deep_view(),
                ..old(self).deep_view()
            }),
            r.to_add.deep_view() == missing(
                new_resources.deep_view(),
                old(self).deep_view().all_resources,
            ),
            r.to_remove.deep_view() == chosen(
                missing(old(self).deep_view().all_resources, new_resources.deep_view()),
                resource_name(),
            ),
    {
        let to_add = difference(&new_resources, &self.all_resources);
        let gone = difference(&self.all_resources, &new_resources);
        let to_remove = choose_list(&gone, name_resource, Ghost(resource_name()));
        self.all_resources = new_resources;
        Delta { to_add, to_remove }
    }

    /// Takes new workloads. What is new and what is gone is given back.
    pub fn cache_workloads_and_calculate_delta(&mut self, new_workloads: Vec<Address>) -> (r: Delta<
        Address,
    >)
        ensures
            final(self).deep_view() == (ManagedResourcesView {
                all_workloads: new_workloads.deep_view(),
                ..old(self).deep_view()
            }),
            r.to_add.deep_view() == missing(
                new_workloads.deep_view(),
                old(self).deep_view().all_workloads,
            ),
            r.to_remove.deep_view() == chosen(
                missing(old(self).deep_view().all_workloads, new_workloads.deep_view()),
                address_name(),
            ),
    {
        let to_add = difference(&new_workloads, &self.all_workloads);
        let gone = difference(&self.all_workloads, &new_workloads);
        let to_remove = choose_list(&gone, name_address, Ghost(address_name()));
        self.all_workloads = new_workloads;
        Delta { to_add, to_remove }
    }
}

/// What a client is told of.
#[derive(Debug, PartialEq, Eq)]
pub enum Message {
    Resource(Resource),
    Address(Address),
}

/// What a [`Message`] holds.
#[verifier::ext_equal]
pub enum MessageView {
    Resource(ResourceView),
    Address(AddressView),
}

impl DeepView for Message {
    type V = MessageView;

    open spec fn deep_view(&self) -> MessageView {
        match self {
            Message::Resource(x0) => MessageView::Resource(x0.deep_view()),
            Message::Address(x0) => MessageView::Address(x0.deep_view()),
        }
    }
}

impl Model for Message {
    fn dup(&self) -> (r: Self) {
        match self {
            Message::Resource(x0) => Message::Resource(x0.dup()),
            Message::Address(x0) => Message::Address(x0.dup()),
        }
    }

    fn same(&self, other: &Self) -> (r: bool) {
        match (self, other) {
            (Message::Resource(x0), Message::Resource(x0_)) => x0.same(x0_),
            (Message::Address(x0), Message::Address(x0_)) => x0.same(x0_),
            _ => false,
        }
    }
}

/// A message under a name, with its type.
#[derive(Debug, PartialEq, Eq)]
pub struct DeltaResource {
    pub name: String,
    pub type_url: String,
    pub message: Message,
}

/// What a [`DeltaResource`] holds.
#[verifier::ext_equal]
pub struct DeltaResourceView {
    pub name: Seq<char>,
    pub type_url: Seq<char>,
    pub message: MessageView,
}

impl DeepView for DeltaResource {
    type V = DeltaResourceView;

    open spec fn deep_view(&self) -> DeltaResourceView {
        DeltaResourceView {
            name: self.name.deep_view(),
            type_url: self.type_url.deep_view(),
            message: self.message.deep_view(),
        }
    }
}

impl Model for DeltaResource {
    fn dup(&self) -> (r: Self) {
        DeltaResource {
            name: self.name.dup(),
            type_url: self.type_url.dup(),
            message: self.message.dup(),
        }
    }

    fn same(&self, other: &Self) -> (r: bool) {
        self.name.same(&other.name)
            && self.type_url.same(&other.type_url)
            && self.message.same(&other.message)
    }
}

/// What a client is told: what is new and, by name, what is gone.
#[derive(Debug, PartialEq, Eq)]
pub struct DeltaDiscoveryResponse {
    pub type_url: String,
    pub resources: Vec<DeltaResource>,
    pub nonce: String,
    pub removed_resources: Vec<String>,
}

/// What a [`DeltaDiscoveryResponse`] holds.
#[verifier::ext_equal]
pub struct DeltaDiscoveryResponseView {
    pub type_url: Seq<char>,
    pub resources: Seq<DeltaResourceView>,
    pub nonce: Seq<char>,
    pub removed_resources: Seq<Seq<char>>,
}

impl DeepView for DeltaDiscoveryResponse {
    type V = DeltaDiscoveryResponseView;

    open spec fn deep_view(&self) -> DeltaDiscoveryResponseView {
        DeltaDiscoveryResponseView {
            type_url: self.type_url.deep_view(),
            resources: self.resources.deep_view(),
            nonce: self.nonce.deep_view(),
            removed_resources: self.removed_resources.deep_view(),
        }
    }
}

impl Model for DeltaDiscoveryResponse {
    fn dup(&self) -> (r: Self) {
        DeltaDiscoveryResponse {
            type_url: self.type_url.dup(),
            resources: self.resources.dup(),
            nonce: self.nonce.dup(),
            removed_resources: self.removed_resources.dup(),
        }
    }

    fn same(&self, other: &Self) -> (r: bool) {
        self.type_url.same(&other.type_url)
            && self.resources.same(&other.resources)
            && self.nonce.same(&other.nonce)
            && self.removed_resources.same(&other.removed_resources)
    }
}

/// What a client asks: what went wrong if something did, the nonce of what it confirms, where it runs,
/// and the type that it asks for.
#[derive(Debug, PartialEq, Eq)]
pub struct DeltaDiscoveryRequest {
    pub error_detail: Option<String>,
    pub response_nonce: String,
    pub node: Option<Node>,
    pub type_url: String,
}

/// What a [`DeltaDiscoveryRequest`] holds.
#[verifier::ext_equal]
pub struct DeltaDiscoveryRequestView {
    pub error_detail: Option<Seq<char>>,
    pub response_nonce: Seq<char>,
    pub node: Option<NodeView>,
    pub type_url: Seq<char>,
}

impl DeepView for DeltaDiscoveryRequest {
    type V = DeltaDiscoveryRequestView;

    open spec fn deep_view(&self) -> DeltaDiscoveryRequestView {
        DeltaDiscoveryRequestView {
            error_detail: self.error_detail.deep_view(),
            response_nonce: self.response_nonce.deep_view(),
            node: self.node.deep_view(),
            type_url: self.type_url.deep_view(),
        }
    }
}

impl Model for DeltaDiscoveryRequest {
    fn dup(&self) -> (r: Self) {
        DeltaDiscoveryRequest {
            error_detail: self.error_detail.dup(),
            response_nonce: self.response_nonce.dup(),
            node: self.node.dup(),
            type_url: self.type_url.dup(),
        }
    }

    fn same(&self, other: &Self) -> (r: bool) {
        self.error_detail.same(&other.error_detail)
            && self.response_nonce.same(&other.response_nonce)
            && self.node.same(&other.node)
            && self.type_url.same(&other.type_url)
    }
}

/// A resource as it is told of.
pub open spec fn told_resource() -> spec_fn(ResourceView) -> DeltaResourceView {
    |resource: ResourceView|
        DeltaResourceView {
            name: RESOURCE_URL@,
            type_url: RESOURCE_URL@,
            message: MessageView::Resource(resource),
        }
}

/// An address as it is told of.
pub open spec fn told_address() -> spec_fn(AddressView) -> DeltaResourceView {
    |address: AddressView|
        DeltaResourceView {
            name: ADDRESS_URL@,
            type_url: ADDRESS_URL@,
            message: MessageView::Address(address),
        }
}

fn tell_resource(resource: &Resource) -> (r: DeltaResource)
    ensures
        r.deep_view() == told_resource()(resource.deep_view()),
{
    DeltaResource {
        name: RESOURCE_URL.to_owned(),
        type_url: RESOURCE_URL.to_owned(),
        message: Message::Resource(resource.dup()),
    }
}

fn tell_address(address: &Address) -> (r: DeltaResource)
    ensures
        r.deep_view() == told_address()(address.deep_view()),
{
    DeltaResource {
        name: ADDRESS_URL.to_owned(),
        type_url: ADDRESS_URL.to_owned(),
        message: Message::Address(address.dup()),
    }
}

impl ManagedResourcesView {
    /// What a client that has this is told where there is an update: what it lacks, and the names of
    /// what is gone.
    pub open spec fn told_of(
        self,
        action: ServerActionView,
        nonce: Seq<char>,
    ) -> DeltaDiscoveryResponseView {
        match action {
            ServerActionView::UpdateResources { resources, .. } => DeltaDiscoveryResponseView {
                type_url: RESOURCE_URL@,
                resources: missing(resources, self.all_resources).map_values(told_resource()),
                nonce,
                removed_resources: chosen(missing(self.all_resources, resources), resource_name()),
            },
            ServerActionView::UpdateWorkloads { workloads, .. } => DeltaDiscoveryResponseView {
                type_url: ADDRESS_URL@,
                resources: missing(workloads, self.all_workloads).map_values(told_address()),
                nonce,
                removed_resources: chosen(missing(self.all_workloads, workloads), address_name()),
            },
        }
    }

    /// What a client that has this is told where it asks for a type: all of it.
    pub open spec fn told_all(
        self,
        type_url: Seq<char>,
        nonce: Seq<char>,
    ) -> DeltaDiscoveryResponseView {
        DeltaDiscoveryResponseView {
            type_url,
            resources: if type_url == RESOURCE_URL@ {
                self.all_resources.map_values(told_resource())
            } else if type_url == ADDRESS_URL@ {
                self.all_workloads.map_values(told_address())
            } else {
                Seq::empty()
            },
            nonce,
            removed_resources: Seq::empty(),
        }
    }
}

/// Tells a client of an update. It has the update then. The nonce is random.
fn tell(had: &mut ManagedResources, action: &ServerAction) -> (r: DeltaDiscoveryResponse)
    ensures
        final(had).deep_view() == old(had).deep_view().renewed(action.deep_view()),
        r.deep_view() == old(had).deep_view().told_of(action.deep_view(), r.nonce@),
        uuid_of(r.nonce@) is Some,
{
    match action {
        ServerAction::UpdateResources { resources, .. } => {
            let delta = had.cache_resources_and_calculate_delta(resources.dup());
            DeltaDiscoveryResponse {
                type_url: RESOURCE_URL.to_owned(),
                resources: map_list(&delta.to_add, tell_resource, Ghost(told_resource())),
                nonce: fresh_text(),
                removed_resources: delta.to_remove,
            }
        },
        ServerAction::UpdateWorkloads { workloads, .. } => {
            let delta = had.cache_workloads_and_calculate_delta(workloads.dup());
            DeltaDiscoveryResponse {
                type_url: ADDRESS_URL.to_owned(),
                resources: map_list(&delta.to_add, tell_address, Ghost(told_address())),
                nonce: fresh_text(),
                removed_resources: delta.to_remove,
            }
        },
    }
}

/// Tells a client of all that it has of a type. The nonce is random.
fn tell_all(had: &ManagedResources, type_url: &str) -> (r: DeltaDiscoveryResponse)
    ensures
        r.deep_view() == had.deep_view().told_all(type_url@, r.nonce@),
        uuid_of(r.nonce@) is Some,
{
    let resources = if text_is(type_url, RESOURCE_URL) {
        map_list(&had.all_resources, tell_resource, Ghost(told_resource()))
    } else if text_is(type_url, ADDRESS_URL) {
        map_list(&had.all_workloads, tell_address, Ghost(told_address()))
    } else {
        no_items()
    };
    DeltaDiscoveryResponse {
        type_url: type_url.to_owned(),
        resources,
        nonce: fresh_text(),
        removed_resources: no_items(),
    }
}

/// The clients, what each of them has, and what there is for each gateway.
#[verifier::ext_equal]
pub struct AgentState {
    pub clients: Seq<AdsClientView>,
    pub cached: Seq<(Seq<char>, ManagedResourcesView)>,
    pub managed: Seq<(Seq<char>, ManagedResourcesView)>,
}

/// What a client has after an update.
pub open spec fn recached(
    cached: Seq<(Seq<char>, ManagedResourcesView)>,
    action: ServerActionView,
) -> spec_fn(AdsClientView) -> (Seq<char>, ManagedResourcesView) {
    |client: AdsClientView|
        (client.client_id, managed_at(cached, client.client_id).renewed(action))
}

impl DeltaDiscoveryRequestView {
    /// Whether it asks for something: nothing went wrong, and it is not the confirmation of an answer.
    pub open spec fn asks(self) -> bool {
        self.error_detail is None && self.response_nonce.len() == 0
    }
}

impl AgentState {
    /// Whether no two clients connect from one place, and what they have and what there is for the
    /// gateways are in order.
    pub open spec fn in_order(self) -> bool {
        &&& client_ids(self.clients).no_duplicates()
        &&& increasing::<String>(keys(self.cached))
        &&& increasing::<String>(keys(self.managed))
    }

    /// The clients that serve the gateway of an update.
    pub open spec fn served(self, action: ServerActionView) -> Seq<AdsClientView> {
        chosen(self.clients, serving(action.gateway()))
    }

    /// Whether an update can be taken: where there is something for the gateway already, there are as
    /// many resources, or workloads, as before.
    pub open spec fn takes(self, action: ServerActionView) -> bool {
        table(self.managed).contains_key(action.gateway()) ==> table(
            self.managed,
        )[action.gateway()].fits(action)
    }

    /// The state after an update: the gateway, and the clients that serve it, have what is new.
    pub open spec fn after(self, action: ServerActionView) -> AgentState {
        AgentState {
            clients: self.clients,
            cached: put_each::<String, ManagedResourcesView>(
                self.cached,
                self.served(action).map_values(recached(self.cached, action)),
            ),
            managed: put::<String, ManagedResourcesView>(
                self.managed,
                action.gateway(),
                managed_at(self.managed, action.gateway()).renewed(action),
            ),
        }
    }

    /// The node whose gateway is to be looked up for a request of a client.
    pub open spec fn node_for(
        self,
        client_id: Seq<char>,
        request: DeltaDiscoveryRequestView,
    ) -> Option<NodeView> {
        if request.asks() && knows(self.clients, client_id) {
            request.node
        } else {
            None
        }
    }

    /// The state after a request of a client whose gateway was found. A client that asks for the first
    /// time serves the gateway from then on, and has what there is for it.
    pub open spec fn asked(
        self,
        client_id: Seq<char>,
        gateway_id: Option<Seq<char>>,
        request: DeltaDiscoveryRequestView,
    ) -> AgentState {
        let client = client_at(self.clients, client_id);
        if self.node_for(client_id, request) is Some && gateway_id is Some && client.gateway_id
            is None {
            AgentState {
                clients: updated(self.clients, AdsClientView { gateway_id, ..client }),
                cached: if table(self.managed).contains_key(gateway_id->0) {
                    put::<String, ManagedResourcesView>(
                        self.cached,
                        client_id,
                        table(self.managed)[gateway_id->0],
                    )
                } else {
                    self.cached
                },
                managed: self.managed,
            }
        } else {
            self
        }
    }

    /// Whether a request of a client is answered.
    pub open spec fn answers(
        self,
        client_id: Seq<char>,
        gateway_id: Option<Seq<char>>,
        request: DeltaDiscoveryRequestView,
    ) -> bool {
        self.node_for(client_id, request) is Some && gateway_id is Some
    }

    /// The state after a client has connected: it has nothing.
    pub open spec fn joined_by(self, client_id: Seq<char>) -> AgentState {
        AgentState {
            clients: connected(self.clients, AdsClientView::new(client_id)),
            cached: drop_key::<String, ManagedResourcesView>(self.cached, client_id),
            managed: self.managed,
        }
    }

    /// The state after a client has gone. What there is for the gateway that it served goes with it.
    pub open spec fn left_by(self, client_id: Seq<char>) -> AgentState {
        let client = client_at(self.clients, client_id);
        AgentState {
            clients: disconnected(self.clients, client_id),
            cached: drop_key::<String, ManagedResourcesView>(self.cached, client_id),
            managed: if knows(self.clients, client_id) && client.gateway_id is Some {
                drop_key::<String, ManagedResourcesView>(self.managed, client.gateway_id->0)
            } else {
                self.managed
            },
        }
    }
}

/// Whether each of some clients, in their order, is told of an update.
pub open spec fn told_each(
    sent: Seq<(Seq<char>, DeltaDiscoveryResponseView)>,
    clients: Seq<AdsClientView>,
    cached: Seq<(Seq<char>, ManagedResourcesView)>,
    action: ServerActionView,
) -> bool {
    &&& sent.len() == clients.len()
    &&& forall|i: int|
        0 <= i < sent.len() ==> {
            &&& (#[trigger] sent[i]).0 == clients[i].client_id
            &&& sent[i].1 == managed_at(cached, clients[i].client_id).told_of(
                action,
                sent[i].1.nonce,
            )
            &&& uuid_of(sent[i].1.nonce) is Some
        }
}

/// The discovery service.
pub struct AggregateServer {
    ads_clients: AdsClients,
    cached: OrderedMap<String, ManagedResources>,
    managed_resources: OrderedMap<String, ManagedResources>,
    nonces: Nonces,
}

impl AggregateServer {
    /// What the service holds.
    pub closed spec fn state(&self) -> AgentState {
        AgentState {
            clients: self.ads_clients.list(),
            cached: self.cached.deep_view(),
            managed: self.managed_resources.deep_view(),
        }
    }

    /// The nonces that the service remembers, each under itself.
    pub closed spec fn remembered(&self) -> Map<u128, u128> {
        self.nonces.held()
    }

    /// A service that holds nothing.
    pub fn new() -> (r: Self)
        ensures
            r.state() == (AgentState {
                clients: Seq::empty(),
                cached: Seq::empty(),
                managed: Seq::empty(),
            }),
            r.state().in_order(),
            r.remembered() == Map::<u128, u128>::empty(),
    {
        AggregateServer {
            ads_clients: AdsClients::new(),
            cached: OrderedMap::new(),
            managed_resources: OrderedMap::new(),
            nonces: Nonces::new(),
        }
    }

    /// Whether an update can be taken.
    pub fn takes(&self, action: &ServerAction) -> (r: bool)
        ensures
            r == self.state().takes(action.deep_view()),
    {
        match action {
            ServerAction::UpdateResources { gateway_id, resources } => {
                let gateway = create_gateway_id(gateway_id);
                match self.managed_resources.get(&gateway) {
                    Some(managed) => managed.all_resources.len() == resources.len(),
                    None => true,
                }
            },
            ServerAction::UpdateWorkloads { gateway_id, workloads } => {
                let gateway = create_gateway_id(gateway_id);
                match self.managed_resources.get(&gateway) {
                    Some(managed) => managed.all_workloads.len() == workloads.len(),
                    None => true,
                }
            },
        }
    }

    /// Takes an update. What is to be sent to the clients that serve the gateway is given back, each
    /// with the place that the client connects from.
    pub fn update(&mut self, action: &ServerAction) -> (r: Vec<(String, DeltaDiscoveryResponse)>)
        requires
            old(self).state().takes(action.deep_view()),
        ensures
            final(self).state() == old(self).state().after(action.deep_view()),
            final(self).state().in_order(),
            final(self).remembered() == old(self).remembered(),
            told_each(
                r.deep_view(),
                old(self).state().served(action.deep_view()),
                old(self).state().cached,
                action.deep_view(),
            ),
    {
        let gateway = match action {
            ServerAction::UpdateResources { gateway_id, .. } => create_gateway_id(gateway_id),
            ServerAction::UpdateWorkloads { gateway_id, .. } => create_gateway_id(gateway_id),
        };
        let ghost now = action.deep_view();
        let clients = self.ads_clients.get_clients_by_gateway_id(gateway.as_str());
        let ghost served = clients.deep_view();
        let ghost had = self.cached.deep_view();
        let ghost give = recached(had, now);
        let managed = managed_of(&self.managed_resources, &gateway);
        self.managed_resources.insert(gateway.dup(), renew(managed, action));
        let mut out: Vec<(String, DeltaDiscoveryResponse)> = Vec::new();
        let mut fresh: Vec<(String, ManagedResources)> = Vec::new();
        let mut i: usize = 0;
        while i < clients.len()
            invariant
                i <= clients.len(),
                clients.deep_view() == served,
                had == self.cached.deep_view(),
                now == action.deep_view(),
                give == recached(had, now),
                told_each(out.deep_view(), served.take(i as int), had, now),
                fresh.deep_view() == served.take(i as int).map_values(give),
            decreases clients.len() - i,
        {
            let ghost sent = out.deep_view();
            let ghost made = fresh.deep_view();
            assert(served[i as int] == clients[i as int].deep_view());
            assert(served.take(i as int).push(served[i as int]) =~= served.take(i + 1));
            let mut own = managed_of(&self.cached, &clients[i].client_id);
            let response = tell(&mut own, action);
            let entry = (clients[i].client_id.dup(), response);
            let kept = (clients[i].client_id.dup(), own);
            out.push(entry);
            fresh.push(kept);
            assert(out.deep_view() =~= sent.push(entry.deep_view()));
            assert(fresh.deep_view() =~= made.push(kept.deep_view()));
            i = i + 1;
            assert(fresh.deep_view() =~= served.take(i as int).map_values(give));
        }
        assert(served.take(i as int) =~= served);
        self.cached.insert_each(&fresh);
        proof {
            use_type_invariant(&self.ads_clients);
            use_type_invariant(&self.cached);
            use_type_invariant(&self.managed_resources);
        }
        out
    }

    /// Takes up a client that connects. It must be known where it connects from.
    pub fn connect(&mut self, remote_addr: Option<String>) -> (r: Result<String, &'static str>)
        ensures
            final(self).remembered() == old(self).remembered(),
            match remote_addr {
                Some(client_id) => r is Ok && r->Ok_0@ == client_id@ && final(self).state() == old(
                    self,
                ).state().joined_by(client_id@),
                None => r is Err && r->Err_0@ == "Invalid remote IP address"@
                    && final(self).state() == old(self).state(),
            },
            final(self).state().in_order(),
    {
        proof {
            use_type_invariant(&self.ads_clients);
            use_type_invariant(&self.cached);
            use_type_invariant(&self.managed_resources);
        }
        match remote_addr {
            Some(client_id) => {
                self.ads_clients.add_or_replace_client(AdsClient::new(client_id.dup()));
                let _ = self.cached.remove(&client_id);
                proof {
                    use_type_invariant(&self.cached);
                }
                Ok(client_id)
            },
            None => Err("Invalid remote IP address"),
        }
    }

    /// The node whose gateway is to be looked up for a request of a client.
    pub fn node_for<'a>(&self, client_id: &str, request: &'a DeltaDiscoveryRequest) -> (r: Option<
        &'a Node,
    >)
        ensures
            r.deep_view() == self.state().node_for(client_id@, request.deep_view()),
    {
        if request.error_detail.is_some() || request.response_nonce.as_str().unicode_len() > 0 {
            return None;
        }
        match self.ads_clients.get_client_by_client_id(client_id) {
            Some(_) => request.node.as_ref(),
            None => None,
        }
    }

    /// Takes a request of a client. `gateway_id` is the gateway of the node that the request names,
    /// where there is one. What is to be sent back is given back.
    pub fn request(
        &mut self,
        client_id: &str,
        gateway_id: Option<String>,
        request: &DeltaDiscoveryRequest,
    ) -> (r: Option<DeltaDiscoveryResponse>)
        ensures
            final(self).state() == old(self).state().asked(
                client_id@,
                gateway_id.deep_view(),
                request.deep_view(),
            ),
            if old(self).state().answers(client_id@, gateway_id.deep_view(), request.deep_view()) {
                &&& r is Some
                &&& r->0.deep_view() == managed_at(
                    final(self).state().cached,
                    client_id@,
                ).told_all(request.type_url@, r->0.nonce@)
                &&& uuid_of(r->0.nonce@) is Some
                &&& exists|nonce: u128|
                    kept(old(self).remembered(), final(self).remembered(), nonce, nonce)
            } else {
                r is None && final(self).remembered() == old(self).remembered()
            },
            final(self).state().in_order(),
    {
        proof {
            use_type_invariant(&self.ads_clients);
            use_type_invariant(&self.cached);
            use_type_invariant(&self.managed_resources);
        }
        if self.node_for(client_id, request).is_none() {
            return None;
        }
        let gateway = match gateway_id {
            Some(gateway) => gateway,
            None => {
                return None;
            },
        };
        let mut client = match self.ads_clients.get_client_by_client_id(client_id) {
            Some(client) => client,
            None => {
                return None;
            },
        };
        let own = client_id.to_owned();
        if client.gateway_id.is_none() {
            client.set_gateway_id(gateway.as_str());
            self.ads_clients.update_client(&client);
            match self.managed_resources.get(&gateway) {
                Some(managed) => {
                    self.cached.insert(own.dup(), managed.dup());
                },
                None => {},
            }
        }
        let nonce: u128 = fresh_uuid();
        self.nonces.remember(nonce);
        proof {
            use_type_invariant(&self.cached);
        }
        assert(kept(old(self).remembered(), self.remembered(), nonce, nonce));
        let had = managed_of(&self.cached, &own);
        Some(tell_all(&had, request.type_url.as_str()))
    }

    /// Forgets a client that has gone.
    pub fn close(&mut self, client_id: &str)
        ensures
            final(self).state() == old(self).state().left_by(client_id@),
            final(self).state().in_order(),
            final(self).remembered() == old(self).remembered(),
    {
        let own = client_id.to_owned();
        match self.ads_clients.get_client_by_client_id(client_id) {
            Some(client) => match client.gateway_id {
                Some(gateway) => {
                    let _ = self.managed_resources.remove(&gateway);
                },
                None => {},
            },
            None => {},
        }
        self.ads_clients.remove_client(client_id);
        let _ = self.cached.remove(&own);
        proof {
            use_type_invariant(&self.ads_clients);
            use_type_invariant(&self.cached);
            use_type_invariant(&self.managed_resources);
        }
    }
}

/// The name of the pod and the namespace in the identifier of a node, which has the form
/// `agentgateway~address~pod.namespace~domain`.
pub open spec fn parsed_id(id: Seq<char>) -> Result<(Seq<char>, Seq<char>), Seq<char>> {
    let parts = pieces(id, '~');
    if parts.len() < 3 {
        Err("Invalid node id format"@)
    } else {
        let names = pieces(parts[2], '.');
        if names.len() < 2 {
            Err("No namespace provided"@)
        } else {
            Ok((names[0], names[1]))
        }
    }
}

/// The name of the pod and the namespace in the identifier of a node.
pub fn parse_agengateway_id(id: &str) -> (r: Result<(String, String), &'static str>)
    ensures
        match parsed_id(id@) {
            Ok(names) => r is Ok && r->Ok_0.deep_view() == names,
            Err(error) => r is Err && r->Err_0@ == error,
        },
{
    let parts = split(id, '~');
    if parts.len() < 3 {
        return Err("Invalid node id format");
    }
    assert(parts.deep_view()[2] == parts[2]@);
    let names = split(parts[2].as_str(), '.');
    if names.len() < 2 {
        return Err("No namespace provided");
    }
    assert(names.deep_view()[0] == names[0]@);
    assert(names.deep_view()[1] == names[1]@);
    Ok((names[0].dup(), names[1].dup()))
}

/// The other way of asking, for all resources at once, is not supported.
pub fn stream_aggregated_resources() -> (r: Result<(), &'static str>)
    ensures
        r is Err,
        r->Err_0@ == "AggregateServer::stream_aggregated_resources not supported"@,
{
    Err("AggregateServer::stream_aggregated_resources not supported")
}

/// How a list of texts shows itself, with quotation marks around each.
pub uninterp spec fn texts_shown(texts: Seq<Seq<char>>) -> Seq<char>;

/// The text that `std::format` gives for a list of texts where they are shown for debugging: a function
/// of the texts.
#[verifier::external_body]
fn show_texts(texts: &Vec<String>) -> (r: String)
    ensures
        r@ == texts_shown(texts.deep_view()),
{
    format!("{texts:?}")
}

/// The text that a resource is shown by. `detail` is what is shown of all that is in a route or a
/// backend.
pub open spec fn printed(resource: ResourceView, detail: Seq<char>) -> Seq<char> {
    match resource.kind {
        Some(KindView::Bind(bind)) => "Resource: Bind key="@ + bind.key,
        Some(KindView::Listener(listener)) => "Resource: Listener bind_key="@ + listener.bind_key
            + " listener_key="@ + listener.key + " "@,
        Some(KindView::Route(route)) => "Resource: Route listener_key="@ + route.listener_key
            + " route_key="@ + route.key + " "@ + detail,
        Some(KindView::Backend(backend)) => "Resource: Backend backend_name="@ + backend.name + " "@
            + detail,
        Some(KindView::Policy(policy)) => "Resource: Policy policy_name="@ + policy.name,
        Some(KindView::TcpRoute(route)) => "Resource: TCPRoute listener_name="@ + route.listener_key
            + " tcp_route_key="@ + route.key,
        None => "Unknown"@,
    }
}

/// The text that a resource is shown by.
pub fn print_resource(resource: &Resource, detail: &str) -> (r: String)
    ensures
        r@ == printed(resource.deep_view(), detail@),
{
    match &resource.kind {
        Some(Kind::Bind(bind)) => cat("Resource: Bind key=", bind.key.as_str()),
        Some(Kind::Listener(listener)) => {
            let start = cat3("Resource: Listener bind_key=", listener.bind_key.as_str(), " listener_key=");
            cat3(start.as_str(), listener.key.as_str(), " ")
        },
        Some(Kind::Route(route)) => {
            let start = cat3("Resource: Route listener_key=", route.listener_key.as_str(), " route_key=");
            let middle = cat3(start.as_str(), route.key.as_str(), " ");
            cat(middle.as_str(), detail)
        },
        Some(Kind::Backend(backend)) => {
            let start = cat3("Resource: Backend backend_name=", backend.name.as_str(), " ");
            cat(start.as_str(), detail)
        },
        Some(Kind::Policy(policy)) => cat("Resource: Policy policy_name=", policy.name.as_str()),
        Some(Kind::TcpRoute(route)) => {
            let start = cat3(
                "Resource: TCPRoute listener_name=",
                route.listener_key.as_str(),
                " tcp_route_key=",
            );
            cat(start.as_str(), route.key.as_str())
        },
        None => "Unknown".to_owned(),
    }
}

/// What is shown of all that is in the resource at a place.
pub open spec fn detail_at(details: Seq<Seq<char>>, i: int) -> Seq<char> {
    if i < details.len() {
        details[i]
    } else {
        ""@
    }
}

impl ServerActionView {
    /// The text that the action is shown by. `details` says, resource by resource, what is shown of all
    /// that is in a route or a backend.
    pub open spec fn shown(self, details: Seq<Seq<char>>) -> Seq<char> {
        match self {
            ServerActionView::UpdateResources { resources, .. } => {
                let texts = Seq::new(
                    resources.len(),
                    |i: int| printed(resources[i], detail_at(details, i)),
                );
                "ServerAction::UpdateResources {gateway_id: "@ + self.gateway() + ", resources: "@
                    + texts_shown(texts) + " }"@
            },
            ServerActionView::UpdateWorkloads { workloads, .. } => {
                "ServerAction::UpdateAddresses {gateway_id: "@ + self.gateway() + ", workloads: "@
                    + decimal(workloads.len() as int) + " }"@
            },
        }
    }
}

fn print_resources(resources: &Vec<Resource>, details: &Vec<String>) -> (r: Vec<String>)
    ensures
        r.deep_view() == Seq::new(
            resources.deep_view().len(),
            |i: int| printed(resources.deep_view()[i], detail_at(details.deep_view(), i)),
        ),
{
    let ghost all = resources.deep_view();
    let ghost told = details.deep_view();
    let mut out: Vec<String> = Vec::new();
    let mut i: usize = 0;
    while i < resources.len()
        invariant
            i <= resources.len(),
            all == resources.deep_view(),
            told == details.deep_view(),
            out.deep_view() == Seq::new(
                i as nat,
                |k: int| printed(all[k], detail_at(told, k)),
            ),
        decreases resources.len() - i,
    {
        let ghost before = out.deep_view();
        assert(all[i as int] == resources[i as int].deep_view());
        let text = if i < details.len() {
            assert(told[i as int] == details[i as int]@);
            print_resource(&resources[i], details[i].as_str())
        } else {
            print_resource(&resources[i], "")
        };
        out.push(text);
        assert(out.deep_view() =~= before.push(text@));
        i = i + 1;
        assert(out.deep_view() =~= Seq::new(
            i as nat,
            |k: int| printed(all[k], detail_at(told, k)),
        ));
    }
    out
}

impl ServerAction {
    /// The text that the action is shown by.
    pub fn to_text(&self, details: &Vec<String>) -> (r: String)
        ensures
            r@ == self.deep_view().shown(details.deep_view()),
    {
        match self {
            ServerAction::UpdateResources { gateway_id, resources } => {
                let gateway = gateway_id.to_text();
                let texts = print_resources(resources, details);
                let list = show_texts(&texts);
                let start = cat3(
                    "ServerAction::UpdateResources {gateway_id: ",
                    gateway.as_str(),
                    ", resources: ",
                );
                cat3(start.as_str(), list.as_str(), " }")
            },
            ServerAction::UpdateWorkloads { gateway_id, workloads } => {
                let gateway = gateway_id.to_text();
                let count = count_text(workloads.len());
                let start = cat3(
                    "ServerAction::UpdateAddresses {gateway_id: ",
                    gateway.as_str(),
                    ", workloads: ",
                );
                cat3(start.as_str(), count.as_str(), " }")
            },
        }
    }
}

/// A client that adds what it is told is new, and drops what it is told is gone, has exactly what is
/// current.
pub proof fn law_delta_brings_up_to_date<A>(had: Seq<A>, current: Seq<A>, item: A)
    ensures
        current.contains(item) <==> missing(current, had).contains(item) || (had.contains(item)
            && !missing(had, current).contains(item)),
{
    chosen_contains(current, not_in(had), item);
    chosen_contains(had, not_in(current), item);
    if current.contains(item) && !had.contains(item) {
        let k = choose|k: int| 0 <= k < current.len() && current[k] == item;
        assert(not_in(had)(current[k]) == Some(item));
    }
    if had.contains(item) && !current.contains(item) {
        let k = choose|k: int| 0 <= k < had.len() && had[k] == item;
        assert(not_in(current)(had[k]) == Some(item));
    }
}

proof fn nothing_missing<A>(items: Seq<A>)
    ensures
        missing(items, items) == Seq::<A>::empty(),
{
    let left = missing(items, items);
    if left.len() > 0 {
        let item = left[0];
        assert(left.contains(item));
        chosen_contains(items, not_in(items), item);
        let k = choose|k: int| 0 <= k < items.len() && #[trigger] not_in(items)(items[k]) == Some(item);
        assert(items.contains(items[k]));
    }
    assert(left =~= Seq::<A>::empty());
}

/// A client is told nothing by an update that it has already.
pub proof fn law_repeated_update_tells_nothing(
    had: ManagedResourcesView,
    action: ServerActionView,
    nonce: Seq<char>,
)
    ensures
        had.renewed(action).told_of(action, nonce).resources.len() == 0,
        had.renewed(action).told_of(action, nonce).removed_resources.len() == 0,
{
    match action {
        ServerActionView::UpdateResources { resources, .. } => {
            nothing_missing(resources);
        },
        ServerActionView::UpdateWorkloads { workloads, .. } => {
            nothing_missing(workloads);
        },
    }
}

proof fn put_each_increases(
    entries: Seq<(Seq<char>, ManagedResourcesView)>,
    pairs: Seq<(Seq<char>, ManagedResourcesView)>,
)
    requires
        increasing::<String>(keys(entries)),
    ensures
        increasing::<String>(keys(put_each::<String, ManagedResourcesView>(entries, pairs))),
    decreases pairs.len(),
{
    if pairs.len() > 0 {
        put_each_increases(entries, pairs.drop_last());
        law_put::<String, ManagedResourcesView>(
            put_each::<String, ManagedResourcesView>(entries, pairs.drop_last()),
            pairs.last().0,
            pairs.last().1,
        );
    }
}

/// A client that asks for the first time after an update of its gateway is told of all that there is
/// for the gateway, the update included.
pub proof fn law_first_request_reads_update(
    state: AgentState,
    action: ServerActionView,
    client_id: Seq<char>,
    request: DeltaDiscoveryRequestView,
)
    requires
        state.in_order(),
        state.node_for(client_id, request) is Some,
        client_at(state.clients, client_id).gateway_id is None,
    ensures
        managed_at(
            state.after(action).asked(client_id, Some(action.gateway()), request).cached,
            client_id,
        ) == managed_at(state.managed, action.gateway()).renewed(action),
{
    let after = state.after(action);
    put_each_increases(
        state.cached,
        state.served(action).map_values(recached(state.cached, action)),
    );
    law_put::<String, ManagedResourcesView>(
        state.managed,
        action.gateway(),
        managed_at(state.managed, action.gateway()).renewed(action),
    );
    law_put::<String, ManagedResourcesView>(
        after.cached,
        client_id,
        table(after.managed)[action.gateway()],
    );
}

/// A client that connects again has nothing.
pub proof fn law_connecting_starts_anew(state: AgentState, client_id: Seq<char>)
    requires
        state.in_order(),
    ensures
        managed_at(state.joined_by(client_id).cached, client_id) == nothing_managed(),
{
    law_drop_key::<String, ManagedResourcesView>(state.cached, client_id);
}

/// Updates are about the gateway that they name, by its namespace and its name.
pub proof fn law_gateway_of_update(
    gateway_id: ResourceKeyView,
    resources: Seq<ResourceView>,
    workloads: Seq<AddressView>,
)
    ensures
        (ServerActionView::UpdateResources { gateway_id, resources }).gateway() == gateway_id.namespace
            + "."@ + gateway_id.name,
        (ServerActionView::UpdateWorkloads { gateway_id, workloads }).gateway() == gateway_id.namespace
            + "."@ + gateway_id.name,
{
}

/// An update of resources replaces the resources and leaves the workloads; one of workloads replaces
/// these and leaves the resources. An update fits where it has as many as there are.
pub proof fn law_renewed(
    had: ManagedResourcesView,
    gateway_id: ResourceKeyView,
    resources: Seq<ResourceView>,
    workloads: Seq<AddressView>,
)
    ensures
        ({
            let first = ServerActionView::UpdateResources { gateway_id, resources };
            let second = ServerActionView::UpdateWorkloads { gateway_id, workloads };
            &&& had.renewed(first).all_resources == resources
            &&& had.renewed(first).all_workloads == had.all_workloads
            &&& had.renewed(second).all_workloads == workloads
            &&& had.renewed(second).all_resources == had.all_resources
            &&& had.fits(first) <==> had.all_resources.len() == resources.len()
            &&& had.fits(second) <==> had.all_workloads.len() == workloads.len()
        }),
        nothing_managed().all_resources.len() == 0,
        nothing_managed().all_workloads.len() == 0,
{
}

/// What is missing is what is in the one list and not in the other, in its order.
pub proof fn law_missing<A>(this: Seq<A>, other: Seq<A>, item: A)
    ensures
        missing(this, other).contains(item) <==> this.contains(item) && !other.contains(item),
        (forall|i: int| 0 <= i < this.len() ==> !other.contains(#[trigger] this[i])) ==> missing(
            this,
            other,
        ) == this,
{
    chosen_contains(this, not_in(other), item);
    if this.contains(item) && !other.contains(item) {
        let i = choose|i: int| 0 <= i < this.len() && this[i] == item;
        assert(not_in(other)(this[i]) == Some(item));
    }
    if missing(this, other).contains(item) {
        let i = choose|i: int|
            0 <= i < this.len() && #[trigger] not_in(other)(this[i]) == Some(item);
        assert(this[i] == item);
    }
    if forall|i: int| 0 <= i < this.len() ==> !other.contains(#[trigger] this[i]) {
        assert forall|i: int| 0 <= i < this.len() implies #[trigger] not_in(other)(this[i]) == Some(
            this[i],
        ) by {
            assert(!other.contains(this[i]));
        }
        law_chosen_of_all(this, not_in(other));
        assert(missing(this, other) =~= this);
    }
}

/// A resource is removed by its kind and its key, or its name; one of no kind by nothing.
pub proof fn law_resource_is_named(resource: ResourceView)
    ensures
        resource.kind is None ==> resource_name()(resource) is None,
        resource.kind matches Some(KindView::Bind(bind)) ==> resource_name()(resource) == Some(
            "bind/"@ + bind.key,
        ),
        resource.kind matches Some(KindView::Listener(listener)) ==> resource_name()(resource)
            == Some("listener/"@ + listener.key),
        resource.kind matches Some(KindView::Route(route)) ==> resource_name()(resource) == Some(
            "route/"@ + route.key,
        ),
        resource.kind matches Some(KindView::Backend(backend)) ==> resource_name()(resource) == Some(
            "backend/"@ + backend.name,
        ),
        resource.kind matches Some(KindView::Policy(policy)) ==> resource_name()(resource) == Some(
            "policy/"@ + policy.name,
        ),
        resource.kind matches Some(KindView::TcpRoute(route)) ==> resource_name()(resource) == Some(
            "tcproute/"@ + route.key,
        ),
{
}

/// An address is removed by the identifier of its workload, or by the name and the namespace of its
/// service.
pub proof fn law_address_is_named(address: AddressView)
    ensures
        address.address_type is None ==> address_name()(address) is None,
        address.address_type matches Some(AddressTypeView::Workload(workload)) ==> address_name()(
            address,
        ) == Some("address/"@ + workload.uid),
        address.address_type matches Some(AddressTypeView::Service(service)) ==> address_name()(
            address,
        ) == Some("address/"@ + service.name + "/"@ + service.namespace),
{
}

/// A client that has something is told, of an update of resources, of exactly those that it lacks, and
/// by their names of those that are gone.
pub proof fn law_told_of_resources(
    had: ManagedResourcesView,
    gateway_id: ResourceKeyView,
    resources: Seq<ResourceView>,
    nonce: Seq<char>,
    resource: ResourceView,
)
    ensures
        ({
            let action = ServerActionView::UpdateResources { gateway_id, resources };
            let told = had.told_of(action, nonce);
            let url = "type.googleapis.com/agentgateway.dev.resource.Resource"@;
            &&& told.type_url == url
            &&& told.nonce == nonce
            &&& resources.contains(resource) && !had.all_resources.contains(resource)
                <==> told.resources.contains(
                DeltaResourceView {
                    name: url,
                    type_url: url,
                    message: MessageView::Resource(resource),
                },
            )
            &&& had.all_resources.contains(resource) && !resources.contains(resource)
                && resource_name()(resource) is Some ==> told.removed_resources.contains(
                resource_name()(resource)->0,
            )
        }),
{
    let url = "type.googleapis.com/agentgateway.dev.resource.Resource"@;
    let message = DeltaResourceView {
        name: url,
        type_url: url,
        message: MessageView::Resource(resource),
    };
    let new = missing(resources, had.all_resources);
    let gone = missing(had.all_resources, resources);
    let told = new.map_values(told_resource());
    law_missing(resources, had.all_resources, resource);
    law_missing(had.all_resources, resources, resource);
    if new.contains(resource) {
        let i = choose|i: int| 0 <= i < new.len() && new[i] == resource;
        assert(told[i] == message);
    }
    if told.contains(message) {
        let i = choose|i: int| 0 <= i < told.len() && told[i] == message;
        assert(told_resource()(new[i]) == message);
        assert(new[i] == resource);
    }
    if gone.contains(resource) && resource_name()(resource) is Some {
        let i = choose|i: int| 0 <= i < gone.len() && gone[i] == resource;
        assert(resource_name()(gone[i]) == Some(resource_name()(resource)->0));
        chosen_contains(gone, resource_name(), resource_name()(resource)->0);
    }
}

/// A client that has something is told, of an update of workloads, of exactly those that it lacks, and
/// by their names of those that are gone.
pub proof fn law_told_of_workloads(
    had: ManagedResourcesView,
    gateway_id: ResourceKeyView,
    workloads: Seq<AddressView>,
    nonce: Seq<char>,
    address: AddressView,
)
    ensures
        ({
            let action = ServerActionView::UpdateWorkloads { gateway_id, workloads };
            let told = had.told_of(action, nonce);
            let url = "type.googleapis.com/agentgateway.dev.workload.Address"@;
            &&& told.type_url == url
            &&& told.nonce == nonce
            &&& workloads.contains(address) && !had.all_workloads.contains(address)
                <==> told.resources.contains(
                DeltaResourceView {
                    name: url,
                    type_url: url,
                    message: MessageView::Address(address),
                },
            )
            &&& had.all_workloads.contains(address) && !workloads.contains(address)
                && address_name()(address) is Some ==> told.removed_resources.contains(
                address_name()(address)->0,
            )
        }),
{
    let url = "type.googleapis.com/agentgateway.dev.workload.Address"@;
    let message = DeltaResourceView {
        name: url,
        type_url: url,
        message: MessageView::Address(address),
    };
    let new = missing(workloads, had.all_workloads);
    let gone = missing(had.all_workloads, workloads);
    let told = new.map_values(told_address());
    law_missing(workloads, had.all_workloads, address);
    law_missing(had.all_workloads, workloads, address);
    if new.contains(address) {
        let i = choose|i: int| 0 <= i < new.len() && new[i] == address;
        assert(told[i] == message);
    }
    if told.contains(message) {
        let i = choose|i: int| 0 <= i < told.len() && told[i] == message;
        assert(told_address()(new[i]) == message);
        assert(new[i] == address);
    }
    if gone.contains(address) && address_name()(address) is Some {
        let i = choose|i: int| 0 <= i < gone.len() && gone[i] == address;
        assert(address_name()(gone[i]) == Some(address_name()(address)->0));
        chosen_contains(gone, address_name(), address_name()(address)->0);
    }
}

/// A client that asks for a type is told of all that it has of the type, in its order, and of nothing
/// that is gone. It has nothing of any type but those of resources and addresses.
pub proof fn law_told_all(had: ManagedResourcesView, type_url: Seq<char>, nonce: Seq<char>)
    ensures
        ({
            let told = had.told_all(type_url, nonce);
            let resources = "type.googleapis.com/agentgateway.dev.resource.Resource"@;
            let addresses = "type.googleapis.com/agentgateway.dev.workload.Address"@;
            &&& told.type_url == type_url
            &&& told.nonce == nonce
            &&& told.removed_resources.len() == 0
            &&& type_url == resources ==> told.resources.len() == had.all_resources.len()
            &&& type_url == resources ==> forall|i: int|
                0 <= i < had.all_resources.len() ==> (#[trigger] told.resources[i]).message
                    == MessageView::Resource(had.all_resources[i]) && told.resources[i].name
                    == resources && told.resources[i].type_url == resources
            &&& type_url == addresses ==> told.resources.len() == had.all_workloads.len()
            &&& type_url == addresses ==> forall|i: int|
                0 <= i < had.all_workloads.len() ==> (#[trigger] told.resources[i]).message
                    == MessageView::Address(had.all_workloads[i]) && told.resources[i].name
                    == addresses && told.resources[i].type_url == addresses
            &&& type_url != resources && type_url != addresses ==> told.resources.len() == 0
        }),
{
    reveal_strlit("type.googleapis.com/agentgateway.dev.resource.Resource");
    reveal_strlit("type.googleapis.com/agentgateway.dev.workload.Address");
    assert("type.googleapis.com/agentgateway.dev.resource.Resource"@.len()
        != "type.googleapis.com/agentgateway.dev.workload.Address"@.len());
}

/// A request asks for something where nothing went wrong and it confirms no answer. The gateway is then
/// looked up of the node that it names, where the client is known.
pub proof fn law_request_asks(
    state: AgentState,
    client_id: Seq<char>,
    gateway_id: Option<Seq<char>>,
    request: DeltaDiscoveryRequestView,
)
    ensures
        request.asks() <==> request.error_detail is None && request.response_nonce.len() == 0,
        request.asks() && knows(state.clients, client_id) ==> state.node_for(client_id, request)
            == request.node,
        !request.asks() || !knows(state.clients, client_id) ==> state.node_for(client_id, request) is None,
        state.answers(client_id, gateway_id, request) <==> request.asks() && knows(
            state.clients,
            client_id,
        ) && request.node is Some && gateway_id is Some,
        !state.answers(client_id, gateway_id, request) ==> state.asked(
            client_id,
            gateway_id,
            request,
        ) == state,
{
}

/// A client that asks for the first time serves the gateway from then on, and has what there is for it.
/// One that asks again changes nothing.
pub proof fn law_asked(
    state: AgentState,
    client_id: Seq<char>,
    gateway_id: Seq<char>,
    request: DeltaDiscoveryRequestView,
    k: int,
)
    requires
        state.in_order(),
        state.answers(client_id, Some(gateway_id), request),
        0 <= k < state.clients.len(),
        state.clients[k].client_id == client_id,
    ensures
        ({
            let after = state.asked(client_id, Some(gateway_id), request);
            &&& after.managed == state.managed
            &&& state.clients[k].gateway_id is Some ==> after == state
            &&& state.clients[k].gateway_id is None ==> after.clients.len() == state.clients.len()
            &&& state.clients[k].gateway_id is None ==> after.clients[k].gateway_id == Some(gateway_id)
            &&& state.clients[k].gateway_id is None ==> after.clients[k].client_id == client_id
            &&& state.clients[k].gateway_id is None ==> forall|i: int|
                0 <= i < state.clients.len() && state.clients[i].client_id != client_id
                    ==> #[trigger] after.clients[i] == state.clients[i]
            &&& state.clients[k].gateway_id is None && table(state.managed).contains_key(gateway_id)
                ==> table(after.cached) == table(state.cached).insert(
                client_id,
                table(state.managed)[gateway_id],
            )
            &&& state.clients[k].gateway_id is None && !table(state.managed).contains_key(gateway_id)
                ==> after.cached == state.cached
        }),
{
    law_client_is_found(state.clients, client_id, k);
    if table(state.managed).contains_key(gateway_id) {
        law_put::<String, ManagedResourcesView>(
            state.cached,
            client_id,
            table(state.managed)[gateway_id],
        );
    }
}

/// An update is taken where nothing is known of the gateway, or where it has as many resources, or
/// workloads, as before. What there is for the gateway is renewed by it, and nothing of other gateways.
pub proof fn law_update(state: AgentState, action: ServerActionView)
    requires
        state.in_order(),
    ensures
        !table(state.managed).contains_key(action.gateway()) ==> state.takes(action),
        table(state.managed).contains_key(action.gateway()) ==> (state.takes(action) <==> table(
            state.managed,
        )[action.gateway()].fits(action)),
        state.after(action).clients == state.clients,
        table(state.managed).contains_key(action.gateway()) ==> table(state.after(action).managed)
            == table(state.managed).insert(
            action.gateway(),
            table(state.managed)[action.gateway()].renewed(action),
        ),
        !table(state.managed).contains_key(action.gateway()) ==> table(state.after(action).managed)
            == table(state.managed).insert(action.gateway(), nothing_managed().renewed(action)),
{
    law_put::<String, ManagedResourcesView>(
        state.managed,
        action.gateway(),
        managed_at(state.managed, action.gateway()).renewed(action),
    );
}

/// Each client that serves the gateway of an update has it then; what all others have stays as it is.
pub proof fn law_update_is_cached(state: AgentState, action: ServerActionView, client_id: Seq<char>)
    requires
        state.in_order(),
    ensures
        (exists|i: int|
            0 <= i < state.clients.len() && (#[trigger] state.clients[i]).client_id == client_id
                && state.clients[i].gateway_id == Some(action.gateway())) ==> managed_at(
            state.after(action).cached,
            client_id,
        ) == managed_at(state.cached, client_id).renewed(action),
        (forall|i: int|
            0 <= i < state.clients.len() && (#[trigger] state.clients[i]).client_id == client_id
                ==> state.clients[i].gateway_id != Some(action.gateway())) ==> managed_at(
            state.after(action).cached,
            client_id,
        ) == managed_at(state.cached, client_id),
{
    let served = state.served(action);
    let give = recached(state.cached, action);
    let pairs = served.map_values(give);
    caches_each(state.cached, state.cached, served, action, client_id);
    if exists|i: int|
        0 <= i < state.clients.len() && (#[trigger] state.clients[i]).client_id == client_id
            && state.clients[i].gateway_id == Some(action.gateway()) {
        let i = choose|i: int|
            0 <= i < state.clients.len() && (#[trigger] state.clients[i]).client_id == client_id
                && state.clients[i].gateway_id == Some(action.gateway());
        law_clients_of_gateway(state.clients, action.gateway(), state.clients[i]);
        assert(state.clients.contains(state.clients[i]));
        let k = choose|k: int| 0 <= k < served.len() && served[k] == state.clients[i];
        assert(served[k].client_id == client_id);
    } else {
        assert forall|k: int| 0 <= k < served.len() implies (#[trigger] served[k]).client_id
            != client_id by {
            law_clients_of_gateway(state.clients, action.gateway(), served[k]);
            assert(served.contains(served[k]));
            let i = choose|i: int| 0 <= i < state.clients.len() && state.clients[i] == served[k];
            assert(state.clients[i].gateway_id == Some(action.gateway()));
        }
    }
}

proof fn caches_each(
    entries: Seq<(Seq<char>, ManagedResourcesView)>,
    cached: Seq<(Seq<char>, ManagedResourcesView)>,
    served: Seq<AdsClientView>,
    action: ServerActionView,
    client_id: Seq<char>,
)
    requires
        increasing::<String>(keys(entries)),
    ensures
        ({
            let after = put_each::<String, ManagedResourcesView>(
                entries,
                served.map_values(recached(cached, action)),
            );
            &&& increasing::<String>(keys(after))
            &&& (exists|k: int| 0 <= k < served.len() && (#[trigger] served[k]).client_id == client_id)
                ==> managed_at(after, client_id) == managed_at(cached, client_id).renewed(action)
            &&& (forall|k: int| 0 <= k < served.len() ==> (#[trigger] served[k]).client_id != client_id)
                ==> managed_at(after, client_id) == managed_at(entries, client_id)
        }),
    decreases served.len(),
{
    let pairs = served.map_values(recached(cached, action));
    if served.len() > 0 {
        let shorter = served.drop_last();
        let before = put_each::<String, ManagedResourcesView>(
            entries,
            shorter.map_values(recached(cached, action)),
        );
        caches_each(entries, cached, shorter, action, client_id);
        assert(pairs.drop_last() =~= shorter.map_values(recached(cached, action)));
        assert(pairs.last() == recached(cached, action)(served.last()));
        law_put::<String, ManagedResourcesView>(before, pairs.last().0, pairs.last().1);
        if exists|k: int| 0 <= k < served.len() && (#[trigger] served[k]).client_id == client_id {
            let k = choose|k: int| 0 <= k < served.len() && (#[trigger] served[k]).client_id == client_id;
            if served.last().client_id != client_id {
                assert(shorter[k].client_id == client_id);
            }
        }
        if forall|k: int| 0 <= k < served.len() ==> (#[trigger] served[k]).client_id != client_id {
            assert(served[served.len() - 1].client_id != client_id);
            assert forall|k: int| 0 <= k < shorter.len() implies (#[trigger] shorter[k]).client_id
                != client_id by {
                assert(served[k].client_id != client_id);
            }
        }
    }
}

/// A client that has gone is forgotten with all that it had, and with what there is for the gateway that
/// it served. What there is for others stays.
pub proof fn law_client_leaves(state: AgentState, client_id: Seq<char>, k: int)
    requires
        state.in_order(),
        0 <= k < state.clients.len(),
        state.clients[k].client_id == client_id,
    ensures
        ({
            let after = state.left_by(client_id);
            &&& after.clients == disconnected(state.clients, client_id)
            &&& table(after.cached) == table(state.cached).remove(client_id)
            &&& state.clients[k].gateway_id is None ==> after.managed == state.managed
            &&& state.clients[k].gateway_id is Some ==> table(after.managed) == table(
                state.managed,
            ).remove(state.clients[k].gateway_id->0)
        }),
{
    law_client_is_found(state.clients, client_id, k);
    law_drop_key::<String, ManagedResourcesView>(state.cached, client_id);
    if state.clients[k].gateway_id is Some {
        law_drop_key::<String, ManagedResourcesView>(
            state.managed,
            state.clients[k].gateway_id->0,
        );
    }
}

/// The identifier of a node names the pod and its namespace in its third part, before and behind a dot.
pub proof fn law_identifier_is_parsed(
    kind: Seq<char>,
    address: Seq<char>,
    pod: Seq<char>,
    namespace: Seq<char>,
    domain: Seq<char>,
)
    requires
        !kind.contains('~'),
        !address.contains('~'),
        !pod.contains('~') && !pod.contains('.'),
        !namespace.contains('~') && !namespace.contains('.'),
    ensures
        parsed_id(
            kind + seq!['~'] + (address + seq!['~'] + ((pod + seq!['.'] + namespace) + seq!['~']
                + domain)),
        ) == Ok::<(Seq<char>, Seq<char>), Seq<char>>((pod, namespace)),
{
    let third = pod + seq!['.'] + namespace;
    let last = third + seq!['~'] + domain;
    let rest = address + seq!['~'] + last;
    let id = kind + seq!['~'] + rest;
    assert(!third.contains('~')) by {
        assert forall|i: int| 0 <= i < third.len() implies third[i] != '~' by {
            if i < pod.len() {
                assert(third[i] == pod[i]);
                assert(pod.contains(pod[i]));
            } else if i > pod.len() {
                assert(third[i] == namespace[i - pod.len() - 1]);
                assert(namespace.contains(namespace[i - pod.len() - 1]));
            }
        }
    }
    law_text_is_split(kind, rest, '~');
    law_text_is_split(address, last, '~');
    law_text_is_split(third, domain, '~');
    let parts = pieces(id, '~');
    assert(parts =~= seq![kind] + (seq![address] + (seq![third] + pieces(domain, '~'))));
    assert(parts[2] == third);
    law_text_is_split(domain, domain, '~');
    law_text_is_split(pod, namespace, '.');
    law_text_is_split(namespace, namespace, '.');
    assert(pieces(third, '.') =~= seq![pod, namespace]);
}

/// An identifier of fewer than three parts, or whose third part has no dot, is refused.
pub proof fn law_identifier_is_refused(id: Seq<char>)
    ensures
        pieces(id, '~').len() < 3 ==> parsed_id(id) == Err::<(Seq<char>, Seq<char>), Seq<char>>(
            "Invalid node id format"@,
        ),
        pieces(id, '~').len() >= 3 && !pieces(id, '~')[2].contains('.') ==> parsed_id(id) == Err::<
            (Seq<char>, Seq<char>),
            Seq<char>,
        >("No namespace provided"@),
{
    if pieces(id, '~').len() >= 3 {
        let third = pieces(id, '~')[2];
        law_text_is_split(third, third, '.');
    }
}

/// What an action is shown by: its gateway, and its resources each by its text, or the number of its
/// workloads.
pub proof fn law_action_is_shown(
    gateway_id: ResourceKeyView,
    resources: Seq<ResourceView>,
    workloads: Seq<AddressView>,
    details: Seq<Seq<char>>,
    texts: Seq<Seq<char>>,
)
    requires
        details.len() == resources.len(),
        texts.len() == resources.len(),
        forall|i: int|
            0 <= i < resources.len() ==> #[trigger] texts[i] == printed(resources[i], details[i]),
    ensures
        (ServerActionView::UpdateResources { gateway_id, resources }).shown(details)
            == "ServerAction::UpdateResources {gateway_id: "@ + (gateway_id.namespace + "."@
            + gateway_id.name) + ", resources: "@ + texts_shown(texts) + " }"@,
        (ServerActionView::UpdateWorkloads { gateway_id, workloads }).shown(details)
            == "ServerAction::UpdateAddresses {gateway_id: "@ + (gateway_id.namespace + "."@
            + gateway_id.name) + ", workloads: "@ + decimal(workloads.len() as int) + " }"@,
{
    let all = Seq::new(
        resources.len(),
        |i: int| printed(resources[i], detail_at(details, i)),
    );
    assert(all =~= texts);
}

/// The text of a resource names its kind and its key, and for a route and a backend goes on with what is
/// shown of it.
pub proof fn law_resource_is_printed(resource: ResourceView, detail: Seq<char>)
    ensures
        resource.kind is None ==> printed(resource, detail) == "Unknown"@,
        resource.kind matches Some(KindView::Bind(bind)) ==> printed(resource, detail)
            == "Resource: Bind key="@ + bind.key,
        resource.kind matches Some(KindView::Listener(listener)) ==> printed(resource, detail)
            == "Resource: Listener bind_key="@ + listener.bind_key + " listener_key="@ + listener.key
            + " "@,
        resource.kind matches Some(KindView::Route(route)) ==> printed(resource, detail)
            == "Resource: Route listener_key="@ + route.listener_key + " route_key="@ + route.key
            + " "@ + detail,
        resource.kind matches Some(KindView::Backend(backend)) ==> printed(resource, detail)
            == "Resource: Backend backend_name="@ + backend.name + " "@ + detail,
        resource.kind matches Some(KindView::Policy(policy)) ==> printed(resource, detail)
            == "Resource: Policy policy_name="@ + policy.name,
        resource.kind matches Some(KindView::TcpRoute(route)) ==> printed(resource, detail)
            == "Resource: TCPRoute listener_name="@ + route.listener_key + " tcp_route_key="@
            + route.key,
{
}

/// Each client of the gateway is told, in their order, of what the update changes for it.
pub proof fn law_each_is_told(
    sent: Seq<(Seq<char>, DeltaDiscoveryResponseView)>,
    clients: Seq<AdsClientView>,
    cached: Seq<(Seq<char>, ManagedResourcesView)>,
    action: ServerActionView,
    i: int,
)
    requires
        told_each(sent, clients, cached, action),
        0 <= i < clients.len(),
    ensures
        sent.len() == clients.len(),
        sent[i].0 == clients[i].client_id,
        uuid_of(sent[i].1.nonce) is Some,
        table(cached).contains_key(clients[i].client_id) ==> sent[i].1 == table(
            cached,
        )[clients[i].client_id].told_of(action, sent[i].1.nonce),
        !table(cached).contains_key(clients[i].client_id) ==> sent[i].1
            == nothing_managed().told_of(action, sent[i].1.nonce),
{
}

} // verus!
