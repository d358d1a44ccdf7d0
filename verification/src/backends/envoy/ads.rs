//! The clients of the discovery service, with the versions that they were told of.
use vstd::prelude::*;
use crate::backends::envoy::model::TypeUrl;
use crate::backends::envoy::resources::{AnyResource, AnyResourceView, Resource, ResourceView};
use crate::common::resource_key::{ResourceKey, create_id, id_of};
use crate::identifiers::{fresh_text, uuid_of};
use crate::lists::{
    all_list,
    choose_list,
    chosen,
    chosen_contains,
    each,
    law_chosen_of_all,
    map_list,
};
use crate::model::Model;
use crate::ordered::{OrderedMap, table};
use crate::text::{count_text, decimal};

verus! {

/// The kinds of resources that clients are told of.
#[derive(Clone, Copy, Debug, PartialEq, Eq, Structural)]
pub enum ResourceKind {
    Cluster,
    Listener,
}

impl DeepView for ResourceKind {
    type V = ResourceKind;

    open spec fn deep_view(&self) -> ResourceKind {
        *self
    }
}

impl Model for ResourceKind {
    fn dup(&self) -> (r: Self) {
        *self
    }

    fn same(&self, other: &Self) -> (r: bool) {
        *self == *other
    }
}

impl ResourceKind {
    /// The type of the resources.
    pub open spec fn kind_url(self) -> Seq<char> {
        match self {
            ResourceKind::Cluster => TypeUrl::Cluster.url(),
            ResourceKind::Listener => TypeUrl::Listener.url(),
        }
    }

    /// The type of the resources.
    pub fn to_text(&self) -> (r: &'static str)
        ensures
            r@ == self.kind_url(),
    {
        match self {
            ResourceKind::Cluster => TypeUrl::Cluster.to_text(),
            ResourceKind::Listener => TypeUrl::Listener.to_text(),
        }
    }
}

/// The versions of clusters and of listeners.
#[derive(Debug, PartialEq, Eq)]
pub struct AckVersions {
    pub cluster: u32,
    pub listener: u32,
}

/// What a [`AckVersions`] holds.
#[verifier::ext_equal]
pub struct AckVersionsView {
    pub cluster: u32,
    pub listener: u32,
}

impl DeepView for AckVersions {
    type V = AckVersionsView;

    open spec fn deep_view(&self) -> AckVersionsView {
        AckVersionsView {
            cluster: self.cluster.deep_view(),
            listener: self.listener.deep_view(),
        }
    }
}

impl Model for AckVersions {
    fn dup(&self) -> (r: Self) {
        AckVersions {
            cluster: self.cluster.dup(),
            listener: self.listener.dup(),
        }
    }

    fn same(&self, other: &Self) -> (r: bool) {
        self.cluster.same(&other.cluster)
            && self.listener.same(&other.listener)
    }
}

impl Default for AckVersions {
    fn default() -> (r: Self)
        ensures
            r.cluster == 0,
            r.listener == 0,
    {
        AckVersions { cluster: 0, listener: 0 }
    }
}

impl AckVersionsView {
    /// The version of a kind.
    pub open spec fn of(self, kind: ResourceKind) -> u32 {
        match kind {
            ResourceKind::Cluster => self.cluster,
            ResourceKind::Listener => self.listener,
        }
    }

    /// The versions with another one of a kind.
    pub open spec fn with(self, kind: ResourceKind, version: u32) -> AckVersionsView {
        match kind {
            ResourceKind::Cluster => AckVersionsView { cluster: version, ..self },
            ResourceKind::Listener => AckVersionsView { listener: version, ..self },
        }
    }
}

impl AckVersions {
    /// Raises both versions.
    pub fn raise(&mut self, rhs: u32)
        requires
            old(self).cluster + rhs <= u32::MAX,
            old(self).listener + rhs <= u32::MAX,
        ensures
            final(self).cluster == old(self).cluster + rhs,
            final(self).listener == old(self).listener + rhs,
    {
        self.cluster = self.cluster + rhs;
        self.listener = self.listener + rhs;
    }

    /// Raises both versions by one.
    pub fn inc(&mut self)
        requires
            old(self).cluster < u32::MAX,
            old(self).listener < u32::MAX,
        ensures
            final(self).cluster == old(self).cluster + 1,
            final(self).listener == old(self).listener + 1,
    {
        self.raise(1);
    }

    /// The version of the listeners.
    pub fn listener(&self) -> (r: u32)
        ensures
            r == self.listener,
    {
        self.listener
    }

    /// The version of the clusters.
    pub fn cluster(&self) -> (r: u32)
        ensures
            r == self.cluster,
    {
        self.cluster
    }

    /// The version of a kind.
    pub fn of(&self, kind: ResourceKind) -> (r: u32)
        ensures
            r == self.deep_view().of(kind),
    {
        match kind {
            ResourceKind::Cluster => self.cluster,
            ResourceKind::Listener => self.listener,
        }
    }

    /// The versions with another one of a kind.
    pub fn with(&self, kind: ResourceKind, version: u32) -> (r: AckVersions)
        ensures
            r.deep_view() == self.deep_view().with(kind, version),
    {
        match kind {
            ResourceKind::Cluster => AckVersions { cluster: version, listener: self.listener },
            ResourceKind::Listener => AckVersions { cluster: self.cluster, listener: version },
        }
    }
}

/// A client: where it connects from, what it was told of, and the gateway that it serves.
#[derive(Debug, PartialEq, Eq)]
pub struct AdsClient {
    pub client_id: String,
    pub ack_versions: AckVersions,
    pub gateway_id: Option<String>,
}

/// What a [`AdsClient`] holds.
#[verifier::ext_equal]
pub struct AdsClientView {
    pub client_id: Seq<char>,
    pub ack_versions: AckVersionsView,
    pub gateway_id: Option<Seq<char>>,
}

impl DeepView for AdsClient {
    type V = AdsClientView;

    open spec fn deep_view(&self) -> AdsClientView {
        AdsClientView {
            client_id: self.client_id.deep_view(),
            ack_versions: self.ack_versions.deep_view(),
            gateway_id: self.gateway_id.deep_view(),
        }
    }
}

impl Model for AdsClient {
    fn dup(&self) -> (r: Self) {
        AdsClient {
            client_id: self.client_id.dup(),
            ack_versions: self.ack_versions.dup(),
            gateway_id: self.gateway_id.dup(),
        }
    }

    fn same(&self, other: &Self) -> (r: bool) {
        self.client_id.same(&other.client_id)
            && self.ack_versions.same(&other.ack_versions)
            && self.gateway_id.same(&other.gateway_id)
    }
}

impl AdsClientView {
    /// A client that was told of nothing and serves no gateway yet.
    pub open spec fn new(client_id: Seq<char>) -> AdsClientView {
        AdsClientView {
            client_id,
            ack_versions: AckVersionsView { cluster: 0, listener: 0 },
            gateway_id: None,
        }
    }
}

impl AdsClient {
    /// A client that was told of nothing and serves no gateway yet.
    pub fn new(client_id: String) -> (r: Self)
        ensures
            r.deep_view() == AdsClientView::new(client_id@),
    {
        AdsClient { client_id, ack_versions: AckVersions::default(), gateway_id: None }
    }

    /// Takes over the versions and the gateway of a client.
    pub fn update_from(&mut self, value: &AdsClient)
        ensures
            final(self).deep_view() == (AdsClientView {
                client_id: old(self).client_id@,
                ..value.deep_view()
            }),
    {
        self.ack_versions = value.ack_versions.dup();
        self.gateway_id = value.gateway_id.dup();
    }

    /// The versions that the client was told of.
    pub fn versions(&self) -> (r: &AckVersions)
        ensures
            *r == self.ack_versions,
    {
        &self.ack_versions
    }

    /// Sets the gateway that the client serves.
    pub fn set_gateway_id(&mut self, gateway_id: &str)
        ensures
            final(self).deep_view() == (AdsClientView {
                gateway_id: Some(gateway_id@),
                ..old(self).deep_view()
            }),
    {
        self.gateway_id = Some(gateway_id.to_owned());
    }
}

/// The places that clients connect from.
pub open spec fn client_ids(clients: Seq<AdsClientView>) -> Seq<Seq<char>> {
    Seq::new(clients.len(), |i: int| clients[i].client_id)
}

/// Whether a client connects from a place.
pub open spec fn knows(clients: Seq<AdsClientView>, client_id: Seq<char>) -> bool {
    client_ids(clients).contains(client_id)
}

/// The client that connects from a place.
pub open spec fn client_at(clients: Seq<AdsClientView>, client_id: Seq<char>) -> AdsClientView {
    clients[choose|i: int| 0 <= i < clients.len() && client_ids(clients)[i] == client_id]
}

/// A client, or what takes its place where it connects from the same place.
pub open spec fn or_updated(client: AdsClientView) -> spec_fn(AdsClientView) -> AdsClientView {
    |other: AdsClientView|
        if other.client_id == client.client_id {
            client
        } else {
            other
        }
}

/// A client, or what takes its place where it connects from the same place. It keeps its versions.
pub open spec fn or_replaced(client: AdsClientView) -> spec_fn(AdsClientView) -> AdsClientView {
    |other: AdsClientView|
        if other.client_id == client.client_id {
            AdsClientView { ack_versions: other.ack_versions, ..client }
        } else {
            other
        }
}

/// The clients after one has changed.
pub open spec fn updated(clients: Seq<AdsClientView>, client: AdsClientView) -> Seq<AdsClientView> {
    clients.map_values(or_updated(client))
}

/// The clients after one has connected.
pub open spec fn connected(
    clients: Seq<AdsClientView>,
    client: AdsClientView,
) -> Seq<AdsClientView> {
    if knows(clients, client.client_id) {
        clients.map_values(or_replaced(client))
    } else {
        clients.push(client)
    }
}

/// A client that connects from elsewhere.
pub open spec fn elsewhere(client_id: Seq<char>) -> spec_fn(AdsClientView) -> Option<AdsClientView> {
    |client: AdsClientView|
        if client.client_id != client_id {
            Some(client)
        } else {
            None
        }
}

/// The clients after the one that connects from a place has gone.
pub open spec fn disconnected(
    clients: Seq<AdsClientView>,
    client_id: Seq<char>,
) -> Seq<AdsClientView> {
    chosen(clients, elsewhere(client_id))
}

/// A client that serves a gateway.
pub open spec fn serving(gateway_id: Seq<char>) -> spec_fn(AdsClientView) -> Option<AdsClientView> {
    |client: AdsClientView|
        if client.gateway_id == Some(gateway_id) {
            Some(client)
        } else {
            None
        }
}

proof fn chosen_stays_distinct(
    clients: Seq<AdsClientView>,
    give: spec_fn(AdsClientView) -> Option<AdsClientView>,
)
    requires
        client_ids(clients).no_duplicates(),
        forall|c: AdsClientView| (#[trigger] give(c)) is Some ==> give(c)->0 == c,
    ensures
        client_ids(chosen(clients, give)).no_duplicates(),
    decreases clients.len(),
{
    if clients.len() > 0 {
        let shorter = clients.drop_last();
        let last = clients.last();
        let before = chosen(shorter, give);
        assert forall|i: int, j: int|
            0 <= i < shorter.len() && 0 <= j < shorter.len() && i != j implies client_ids(
            shorter,
        )[i] != client_ids(shorter)[j] by {
            assert(client_ids(clients)[i] != client_ids(clients)[j]);
        }
        chosen_stays_distinct(shorter, give);
        if give(last) is Some {
            let all = client_ids(before.push(last));
            assert forall|i: int| 0 <= i < before.len() implies before[i].client_id
                != last.client_id by {
                let c = before[i];
                assert(before.contains(c));
                chosen_contains(shorter, give, c);
                let k = choose|k: int|
                    0 <= k < shorter.len() && #[trigger] give(shorter[k]) == Some(c);
                assert(shorter[k] == c);
                assert(client_ids(clients)[k] != client_ids(clients)[clients.len() - 1]);
            }
            assert forall|i: int, j: int|
                0 <= i < all.len() && 0 <= j < all.len() && i != j implies all[i] != all[j] by {
                if i < before.len() && j < before.len() {
                    assert(client_ids(before)[i] != client_ids(before)[j]);
                }
            }
        }
    }
}

/// Whether a client can be told more of a kind: its version has not run out.
pub open spec fn has_version(kind: ResourceKind) -> spec_fn(AdsClientView) -> bool {
    |client: AdsClientView| client.ack_versions.of(kind) < u32::MAX
}

/// The clients. No two of them connect from one place.
#[derive(Debug)]
pub struct AdsClients {
    clients: Vec<AdsClient>,
}

impl AdsClients {
    /// Whether no two clients connect from one place.
    #[verifier::type_invariant]
    pub open spec fn distinct(self) -> bool {
        client_ids(self.list()).no_duplicates()
    }

    /// The clients in the order in which they connected.
    pub closed spec fn list(&self) -> Seq<AdsClientView> {
        self.clients.deep_view()
    }

    /// No clients.
    pub fn new() -> (r: Self)
        ensures
            r.list() == Seq::<AdsClientView>::empty(),
            r.distinct(),
    {
        let clients: Vec<AdsClient> = Vec::new();
        assert(clients.deep_view() =~= Seq::<AdsClientView>::empty());
        AdsClients { clients }
    }

    /// The clients that serve a gateway.
    pub fn get_clients_by_gateway_id(&self, gateway_id: &str) -> (r: Vec<AdsClient>)
        ensures
            r.deep_view() == chosen(self.list(), serving(gateway_id@)),
            client_ids(self.list()).no_duplicates(),
            client_ids(r.deep_view()).no_duplicates(),
    {
        proof {
            use_type_invariant(self);
            chosen_stays_distinct(self.list(), serving(gateway_id@));
        }
        let wanted: Option<String> = Some(gateway_id.to_owned());
        choose_list(
            &self.clients,
            |client: &AdsClient| -> (y: Option<AdsClient>)
                ensures y.deep_view() == serving(gateway_id@)(client.deep_view())
            {
                if client.gateway_id.same(&wanted) {
                    Some(client.dup())
                } else {
                    None
                }
            },
            Ghost(serving(gateway_id@)),
        )
    }

    /// The client that connects from a place.
    pub fn get_client_by_client_id(&self, client_id: &str) -> (r: Option<AdsClient>)
        ensures
            r is Some <==> knows(self.list(), client_id@),
            r matches Some(client) ==> client.deep_view() == client_at(self.list(), client_id@)
                && client.client_id@ == client_id@,
    {
        proof {
            use_type_invariant(self);
        }
        let wanted: String = client_id.to_owned();
        let mut i: usize = 0;
        while i < self.clients.len()
            invariant
                i <= self.clients.len(),
                wanted@ == client_id@,
                client_ids(self.list()).no_duplicates(),
                self.list() == self.clients.deep_view(),
                forall|j: int| 0 <= j < i ==> #[trigger] client_ids(self.list())[j] != client_id@,
            decreases self.clients.len() - i,
        {
            assert(self.list()[i as int] == self.clients[i as int].deep_view());
            assert(client_ids(self.list())[i as int] == self.clients[i as int].client_id@);
            if self.clients[i].client_id.same(&wanted) {
                return Some(self.clients[i].dup());
            }
            i = i + 1;
        }
        None
    }

    /// Whether the clients that serve a gateway can be told more of a kind.
    pub fn can_be_told(&self, gateway_id: &str, kind: ResourceKind) -> (r: bool)
        ensures
            r == each(chosen(self.list(), serving(gateway_id@)), has_version(kind)),
    {
        let clients = self.get_clients_by_gateway_id(gateway_id);
        all_list(
            &clients,
            |client: &AdsClient| -> (y: bool)
                ensures y == has_version(kind)(client.deep_view())
            { client.ack_versions.of(kind) < u32::MAX },
            Ghost(has_version(kind)),
        )
    }

    /// Takes over the versions and the gateway of a client, where it is known.
    pub fn update_client(&mut self, client: &AdsClient)
        ensures
            final(self).list() == updated(old(self).list(), client.deep_view()),
            final(self).distinct(),
    {
        proof {
            use_type_invariant(&*self);
        }
        let ghost before = self.list();
        let give = or_updated_by(&self.clients, client);
        proof {
            assert(client_ids(give.deep_view()) =~= client_ids(before));
        }
        self.clients = give;
    }

    /// Adds a client, or puts it in the place of the one that connects from the same place, whose
    /// versions it keeps.
    pub fn add_or_replace_client(&mut self, client: AdsClient)
        ensures
            final(self).list() == connected(old(self).list(), client.deep_view()),
            final(self).distinct(),
    {
        proof {
            use_type_invariant(&*self);
        }
        let ghost before = self.list();
        let ghost new = client.deep_view();
        if self.get_client_by_client_id(client.client_id.as_str()).is_some() {
            let next = map_list(
                &self.clients,
                |other: &AdsClient| -> (y: AdsClient)
                    ensures y.deep_view() == or_replaced(client.deep_view())(other.deep_view())
                {
                    if other.client_id.same(&client.client_id) {
                        AdsClient {
                            client_id: client.client_id.dup(),
                            ack_versions: other.versions().dup(),
                            gateway_id: client.gateway_id.dup(),
                        }
                    } else {
                        other.dup()
                    }
                },
                Ghost(or_replaced(new)),
            );
            assert(client_ids(next.deep_view()) =~= client_ids(before));
            self.clients = next;
        } else {
            let mut next: Vec<AdsClient> = Vec::new();
            std::mem::swap(&mut next, &mut self.clients);
            next.push(client);
            proof {
                assert(next.deep_view() =~= before.push(new));
                let all = client_ids(next.deep_view());
                assert forall|i: int, j: int|
                    0 <= i < all.len() && 0 <= j < all.len() && i != j implies all[i] != all[j] by {
                    if i < before.len() && j < before.len() {
                        assert(client_ids(before)[i] != client_ids(before)[j]);
                    } else if i < before.len() {
                        assert(client_ids(before)[i] != new.client_id);
                    } else {
                        assert(client_ids(before)[j] != new.client_id);
                    }
                }
            }
            self.clients = next;
        }
    }

    /// Forgets the client that connects from a place.
    pub fn remove_client(&mut self, client_id: &str)
        ensures
            final(self).list() == disconnected(old(self).list(), client_id@),
            final(self).distinct(),
    {
        proof {
            use_type_invariant(&*self);
            chosen_stays_distinct(self.list(), elsewhere(client_id@));
        }
        let gone: String = client_id.to_owned();
        let next = choose_list(
            &self.clients,
            |client: &AdsClient| -> (y: Option<AdsClient>)
                ensures y.deep_view() == elsewhere(client_id@)(client.deep_view())
            {
                if client.client_id.same(&gone) {
                    None
                } else {
                    Some(client.dup())
                }
            },
            Ghost(elsewhere(client_id@)),
        );
        self.clients = next;
    }
}

fn or_updated_by(clients: &Vec<AdsClient>, client: &AdsClient) -> (r: Vec<AdsClient>)
    ensures
        r.deep_view() == updated(clients.deep_view(), client.deep_view()),
{
    map_list(
        clients,
        |other: &AdsClient| -> (y: AdsClient)
            ensures y.deep_view() == or_updated(client.deep_view())(other.deep_view())
        {
            let mut next = other.dup();
            if other.client_id.same(&client.client_id) {
                next.update_from(client);
            }
            next
        },
        Ghost(or_updated(client.deep_view())),
    )
}

/// What a client is told.
#[derive(Debug, PartialEq, Eq)]
pub struct DiscoveryResponse {
    pub type_url: String,
    pub resources: Vec<AnyResource>,
    pub nonce: String,
    pub version_info: String,
}

/// What a [`DiscoveryResponse`] holds.
#[verifier::ext_equal]
pub struct DiscoveryResponseView {
    pub type_url: Seq<char>,
    pub resources: Seq<AnyResourceView>,
    pub nonce: Seq<char>,
    pub version_info: Seq<char>,
}

impl DeepView for DiscoveryResponse {
    type V = DiscoveryResponseView;

    open spec fn deep_view(&self) -> DiscoveryResponseView {
        DiscoveryResponseView {
            type_url: self.type_url.deep_view(),
            resources: self.resources.deep_view(),
            nonce: self.nonce.deep_view(),
            version_info: self.version_info.deep_view(),
        }
    }
}

impl Model for DiscoveryResponse {
    fn dup(&self) -> (r: Self) {
        DiscoveryResponse {
            type_url: self.type_url.dup(),
            resources: self.resources.dup(),
            nonce: self.nonce.dup(),
            version_info: self.version_info.dup(),
        }
    }

    fn same(&self, other: &Self) -> (r: bool) {
        self.type_url.same(&other.type_url)
            && self.resources.same(&other.resources)
            && self.nonce.same(&other.nonce)
            && self.version_info.same(&other.version_info)
    }
}

/// The message of a resource.
pub open spec fn message_of() -> spec_fn(ResourceView) -> AnyResourceView {
    |resource: ResourceView| resource.resource
}

fn take_message(resource: &Resource) -> (r: AnyResource)
    ensures
        r.deep_view() == message_of()(resource.deep_view()),
{
    resource.resource.dup()
}

impl DiscoveryResponseView {
    /// Resources of a kind at a version.
    pub open spec fn of(
        kind: ResourceKind,
        resources: Seq<ResourceView>,
        version: u32,
        nonce: Seq<char>,
    ) -> DiscoveryResponseView {
        DiscoveryResponseView {
            type_url: kind.kind_url(),
            resources: resources.map_values(message_of()),
            nonce,
            version_info: decimal(version as int),
        }
    }
}

/// Tells of resources of a kind at a version. The nonce is random.
pub fn respond(kind: ResourceKind, resources: &Vec<Resource>, version: u32) -> (r:
    DiscoveryResponse)
    ensures
        r.deep_view() == DiscoveryResponseView::of(
            kind,
            resources.deep_view(),
            version,
            r.nonce@,
        ),
        uuid_of(r.nonce@) is Some,
{
    DiscoveryResponse {
        type_url: kind.to_text().to_owned(),
        resources: map_list(resources, take_message, Ghost(message_of())),
        nonce: fresh_text(),
        version_info: count_text(version as usize),
    }
}

/// The node that a client runs on: its name, and the namespace that it is in.
#[derive(Debug, PartialEq, Eq)]
pub struct Node {
    pub id: String,
    pub cluster: String,
}

/// What a [`Node`] holds.
#[verifier::ext_equal]
pub struct NodeView {
    pub id: Seq<char>,
    pub cluster: Seq<char>,
}

impl DeepView for Node {
    type V = NodeView;

    open spec fn deep_view(&self) -> NodeView {
        NodeView {
            id: self.id.deep_view(),
            cluster: self.cluster.deep_view(),
        }
    }
}

impl Model for Node {
    fn dup(&self) -> (r: Self) {
        Node {
            id: self.id.dup(),
            cluster: self.cluster.dup(),
        }
    }

    fn same(&self, other: &Self) -> (r: bool) {
        self.id.same(&other.id)
            && self.cluster.same(&other.cluster)
    }
}

/// What a client asks: what went wrong if something did, where it runs, the version that it has, and
/// the type that it asks for.
#[derive(Debug, PartialEq, Eq)]
pub struct DiscoveryRequest {
    pub error_detail: Option<String>,
    pub node: Option<Node>,
    pub version_info: String,
    pub type_url: String,
}

/// What a [`DiscoveryRequest`] holds.
#[verifier::ext_equal]
pub struct DiscoveryRequestView {
    pub error_detail: Option<Seq<char>>,
    pub node: Option<NodeView>,
    pub version_info: Seq<char>,
    pub type_url: Seq<char>,
}

impl DeepView for DiscoveryRequest {
    type V = DiscoveryRequestView;

    open spec fn deep_view(&self) -> DiscoveryRequestView {
        DiscoveryRequestView {
            error_detail: self.error_detail.deep_view(),
            node: self.node.deep_view(),
            version_info: self.version_info.deep_view(),
            type_url: self.type_url.deep_view(),
        }
    }
}

impl Model for DiscoveryRequest {
    fn dup(&self) -> (r: Self) {
        DiscoveryRequest {
            error_detail: self.error_detail.dup(),
            node: self.node.dup(),
            version_info: self.version_info.dup(),
            type_url: self.type_url.dup(),
        }
    }

    fn same(&self, other: &Self) -> (r: bool) {
        self.error_detail.same(&other.error_detail)
            && self.node.same(&other.node)
            && self.version_info.same(&other.version_info)
            && self.type_url.same(&other.type_url)
    }
}

/// The identifier of a gateway.
pub fn create_gateway_id(gateway_id: &ResourceKey) -> (r: String)
    ensures
        r@ == id_of(gateway_id.name@, gateway_id.namespace@),
{
    create_id(gateway_id.name.as_str(), gateway_id.namespace.as_str())
}

/// The identifier of the gateway that a pod serves, which its label `app` names.
pub open spec fn gateway_of_pod(
    labels: Option<Seq<(Seq<char>, Seq<char>)>>,
    namespace: Seq<char>,
) -> Option<Seq<char>> {
    match labels {
        Some(labels) => if table(labels).contains_key("app"@) {
            Some(id_of(table(labels)["app"@], namespace))
        } else {
            None
        },
        None => None,
    }
}

/// The identifier of the gateway that a pod serves, by the labels of the pod, where there is such a
/// pod and it has labels.
pub fn gateway_id_of_pod(labels: &Option<OrderedMap<String, String>>, namespace: &str) -> (r: Option<
    String,
>)
    ensures
        r.deep_view() == gateway_of_pod(labels.deep_view(), namespace@),
{
    match labels {
        Some(labels) => match labels.get(&"app".to_owned()) {
            Some(name) => Some(create_id(name.as_str(), namespace)),
            None => None,
        },
        None => None,
    }
}

/// Clusters and listeners have each their own version: to change the one leaves the other.
pub proof fn law_versions_of_kinds(versions: AckVersionsView, version: u32)
    ensures
        versions.of(ResourceKind::Cluster) == versions.cluster,
        versions.of(ResourceKind::Listener) == versions.listener,
        versions.with(ResourceKind::Cluster, version).cluster == version,
        versions.with(ResourceKind::Cluster, version).listener == versions.listener,
        versions.with(ResourceKind::Listener, version).listener == version,
        versions.with(ResourceKind::Listener, version).cluster == versions.cluster,
        ResourceKind::Cluster.kind_url() == "type.googleapis.com/envoy.config.cluster.v3.Cluster"@,
        ResourceKind::Listener.kind_url() == "type.googleapis.com/envoy.config.listener.v3.Listener"@,
{
}

/// A new client was told of nothing and serves no gateway.
pub proof fn law_new_client(client_id: Seq<char>)
    ensures
        AdsClientView::new(client_id).client_id == client_id,
        AdsClientView::new(client_id).ack_versions.cluster == 0,
        AdsClientView::new(client_id).ack_versions.listener == 0,
        AdsClientView::new(client_id).gateway_id is None,
{
}

/// A client that changed takes the place of the one that connects from the same place; the others stay.
pub proof fn law_client_changed(clients: Seq<AdsClientView>, client: AdsClientView)
    ensures
        updated(clients, client).len() == clients.len(),
        forall|i: int|
            0 <= i < clients.len() ==> {
                &&& clients[i].client_id == client.client_id ==> #[trigger] updated(clients, client)[i]
                    == client
                &&& clients[i].client_id != client.client_id ==> updated(clients, client)[i]
                    == clients[i]
            },
{
}

/// A client that connects comes last, with what it has, where it is not known. Where it is, it serves
/// the gateway that it names now and keeps the versions that it was told of; the others stay.
pub proof fn law_client_connected(clients: Seq<AdsClientView>, client: AdsClientView)
    ensures
        (forall|i: int|
            0 <= i < clients.len() ==> (#[trigger] clients[i]).client_id != client.client_id)
            ==> connected(clients, client) == clients.push(client),
        forall|k: int|
            0 <= k < clients.len() && (#[trigger] clients[k]).client_id == client.client_id ==> {
                let after = connected(clients, client);
                &&& after.len() == clients.len()
                &&& after[k].client_id == client.client_id
                &&& after[k].ack_versions == clients[k].ack_versions
                &&& after[k].gateway_id == client.gateway_id
                &&& forall|i: int|
                    0 <= i < clients.len() && clients[i].client_id != client.client_id
                        ==> #[trigger] after[i] == clients[i]
            },
{
    let ids = client_ids(clients);
    if forall|i: int|
        0 <= i < clients.len() ==> (#[trigger] clients[i]).client_id != client.client_id {
        if ids.contains(client.client_id) {
            let i = choose|i: int| 0 <= i < ids.len() && ids[i] == client.client_id;
            assert(clients[i].client_id == client.client_id);
        }
    }
    assert forall|k: int|
        0 <= k < clients.len() && (#[trigger] clients[k]).client_id == client.client_id implies knows(
        clients,
        client.client_id,
    ) by {
        assert(ids[k] == client.client_id);
    }
}

/// A client that has gone is no longer there; all others are, in their order.
pub proof fn law_client_disconnected(
    clients: Seq<AdsClientView>,
    client_id: Seq<char>,
    client: AdsClientView,
)
    ensures
        disconnected(clients, client_id).contains(client) <==> clients.contains(client)
            && client.client_id != client_id,
        (forall|i: int| 0 <= i < clients.len() ==> (#[trigger] clients[i]).client_id != client_id)
            ==> disconnected(clients, client_id) == clients,
{
    chosen_contains(clients, elsewhere(client_id), client);
    if clients.contains(client) && client.client_id != client_id {
        let i = choose|i: int| 0 <= i < clients.len() && clients[i] == client;
        assert(elsewhere(client_id)(clients[i]) == Some(client));
    }
    if disconnected(clients, client_id).contains(client) {
        let i = choose|i: int|
            0 <= i < clients.len() && #[trigger] elsewhere(client_id)(clients[i]) == Some(client);
        assert(clients[i] == client);
    }
    if forall|i: int| 0 <= i < clients.len() ==> (#[trigger] clients[i]).client_id != client_id {
        assert forall|i: int| 0 <= i < clients.len() implies #[trigger] elsewhere(client_id)(
            clients[i],
        ) == Some(clients[i]) by {
            assert(clients[i].client_id != client_id);
        }
        law_chosen_of_all(clients, elsewhere(client_id));
        assert(disconnected(clients, client_id) =~= clients);
    }
}

/// The clients that serve a gateway are those that name it.
pub proof fn law_clients_of_gateway(
    clients: Seq<AdsClientView>,
    gateway_id: Seq<char>,
    client: AdsClientView,
)
    ensures
        chosen(clients, serving(gateway_id)).contains(client) <==> clients.contains(client)
            && client.gateway_id == Some(gateway_id),
{
    chosen_contains(clients, serving(gateway_id), client);
    if clients.contains(client) && client.gateway_id == Some(gateway_id) {
        let i = choose|i: int| 0 <= i < clients.len() && clients[i] == client;
        assert(serving(gateway_id)(clients[i]) == Some(client));
    }
    if chosen(clients, serving(gateway_id)).contains(client) {
        let i = choose|i: int|
            0 <= i < clients.len() && #[trigger] serving(gateway_id)(clients[i]) == Some(client);
        assert(clients[i] == client);
    }
}

/// A client that is known is found by the place that it connects from.
pub proof fn law_client_is_found(clients: Seq<AdsClientView>, client_id: Seq<char>, i: int)
    requires
        client_ids(clients).no_duplicates(),
        0 <= i < clients.len(),
        clients[i].client_id == client_id,
    ensures
        knows(clients, client_id),
        client_at(clients, client_id) == clients[i],
{
    let ids = client_ids(clients);
    assert(ids[i] == client_id);
    let k = choose|k: int| 0 <= k < clients.len() && client_ids(clients)[k] == client_id;
    assert(ids[k] == ids[i]);
}

/// A client is told of the messages of all resources in their order, under the type of their kind, with
/// the version as a number.
pub proof fn law_response(
    kind: ResourceKind,
    resources: Seq<ResourceView>,
    version: u32,
    nonce: Seq<char>,
)
    ensures
        ({
            let response = DiscoveryResponseView::of(kind, resources, version, nonce);
            &&& response.type_url == kind.kind_url()
            &&& response.nonce == nonce
            &&& response.version_info == decimal(version as int)
            &&& response.resources.len() == resources.len()
            &&& forall|i: int|
                0 <= i < resources.len() ==> #[trigger] response.resources[i] == resources[i].resource
        }),
{
}

/// The gateway that a pod serves is the one of the name that its label `app` gives, in its namespace. A
/// pod without that label serves none.
pub proof fn law_gateway_of_pod(labels: Seq<(Seq<char>, Seq<char>)>, namespace: Seq<char>)
    ensures
        gateway_of_pod(None, namespace) is None,
        table(labels).contains_key("app"@) ==> gateway_of_pod(Some(labels), namespace) == Some(
            namespace + "."@ + table(labels)["app"@],
        ),
        !table(labels).contains_key("app"@) ==> gateway_of_pod(Some(labels), namespace) is None,
{
}

} // verus!
