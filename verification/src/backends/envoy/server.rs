//! The discovery service: what clients are told when resources change and when they ask.
use vstd::prelude::*;
use crate::backends::envoy::ads::{
    AdsClient,
    AdsClientView,
    AdsClients,
    DiscoveryRequest,
    DiscoveryRequestView,
    DiscoveryResponse,
    DiscoveryResponseView,
    Node,
    ResourceKind,
    client_at,
    client_ids,
    connected,
    create_gateway_id,
    disconnected,
    knows,
    law_client_is_found,
    law_response,
    respond,
    serving,
    updated,
};
use crate::backends::envoy::model::{TypeUrl, law_type_url, type_named};
use crate::backends::envoy::resources::{Resource, ResourceView};
use crate::common::resource_key::{ResourceKey, ResourceKeyView, id_of};
use crate::identifiers::uuid_of;
use crate::lists::{chosen, chosen_contains};
use crate::model::Model;
use crate::ordered::{OrderedMap, increasing, keys, law_put, put, table};
use crate::text::{cat3, count_text, decimal, parse_u32, read_u32};

verus! {

/// What the service is told to do: new resources of a gateway at a version.
#[derive(Debug, PartialEq, Eq)]
pub enum ServerAction {
    UpdateClusters { gateway_id: ResourceKey, resources: Vec<Resource>, ack_version: u32 },
    UpdateListeners { gateway_id: ResourceKey, resources: Vec<Resource>, ack_version: u32 },
}

/// What a [`ServerAction`] holds.
#[verifier::ext_equal]
pub enum ServerActionView {
    UpdateClusters { gateway_id: ResourceKeyView, resources: Seq<ResourceView>, ack_version: u32 },
    UpdateListeners { gateway_id: ResourceKeyView, resources: Seq<ResourceView>, ack_version: u32 },
}

impl DeepView for ServerAction {
    type V = ServerActionView;

    open spec fn deep_view(&self) -> ServerActionView {
        match self {
            ServerAction::UpdateClusters { gateway_id, resources, ack_version } => ServerActionView::UpdateClusters { gateway_id: gateway_id.deep_view(), resources: resources.deep_view(), ack_version: ack_version.deep_view() },
            ServerAction::UpdateListeners { gateway_id, resources, ack_version } => ServerActionView::UpdateListeners { gateway_id: gateway_id.deep_view(), resources: resources.deep_view(), ack_version: ack_version.deep_view() },
        }
    }
}

impl Model for ServerAction {
    fn dup(&self) -> (r: Self) {
        match self {
            ServerAction::UpdateClusters { gateway_id, resources, ack_version } => ServerAction::UpdateClusters { gateway_id: gateway_id.dup(), resources: resources.dup(), ack_version: ack_version.dup() },
            ServerAction::UpdateListeners { gateway_id, resources, ack_version } => ServerAction::UpdateListeners { gateway_id: gateway_id.dup(), resources: resources.dup(), ack_version: ack_version.dup() },
        }
    }

    fn same(&self, other: &Self) -> (r: bool) {
        match (self, other) {
            (ServerAction::UpdateClusters { gateway_id, resources, ack_version }, ServerAction::UpdateClusters { gateway_id: gateway_id_, resources: resources_, ack_version: ack_version_ }) => gateway_id.same(gateway_id_) && resources.same(resources_) && ack_version.same(ack_version_),
            (ServerAction::UpdateListeners { gateway_id, resources, ack_version }, ServerAction::UpdateListeners { gateway_id: gateway_id_, resources: resources_, ack_version: ack_version_ }) => gateway_id.same(gateway_id_) && resources.same(resources_) && ack_version.same(ack_version_),
            _ => false,
        }
    }
}

impl ServerActionView {
    /// The kind of the resources.
    pub open spec fn kind(self) -> ResourceKind {
        match self {
            ServerActionView::UpdateClusters { .. } => ResourceKind::Cluster,
            ServerActionView::UpdateListeners { .. } => ResourceKind::Listener,
        }
    }

    /// The identifier of the gateway.
    pub open spec fn gateway(self) -> Seq<char> {
        match self {
            ServerActionView::UpdateClusters { gateway_id, .. } => id_of(
                gateway_id.name,
                gateway_id.namespace,
            ),
            ServerActionView::UpdateListeners { gateway_id, .. } => id_of(
                gateway_id.name,
                gateway_id.namespace,
            ),
        }
    }

    /// The resources.
    pub open spec fn told(self) -> Seq<ResourceView> {
        match self {
            ServerActionView::UpdateClusters { resources, .. } => resources,
            ServerActionView::UpdateListeners { resources, .. } => resources,
        }
    }

    /// The version.
    pub open spec fn version(self) -> u32 {
        match self {
            ServerActionView::UpdateClusters { ack_version, .. } => ack_version,
            ServerActionView::UpdateListeners { ack_version, .. } => ack_version,
        }
    }
}

/// A client, which is told of a kind at a version where it serves a gateway.
pub open spec fn or_told(gateway_id: Seq<char>, kind: ResourceKind, version: u32) -> spec_fn(
    AdsClientView,
) -> AdsClientView {
    |client: AdsClientView|
        if client.gateway_id == Some(gateway_id) {
            AdsClientView { ack_versions: client.ack_versions.with(kind, version), ..client }
        } else {
            client
        }
}

/// The clients, and the resources of the gateways by their identifiers.
#[verifier::ext_equal]
pub struct ServerState {
    pub clients: Seq<AdsClientView>,
    pub clusters: Seq<(Seq<char>, Seq<ResourceView>)>,
    pub listeners: Seq<(Seq<char>, Seq<ResourceView>)>,
}

impl DiscoveryRequestView {
    /// Whether it is the first request of a client, which has no version yet.
    pub open spec fn first(self) -> bool {
        self.version_info.len() == 0
    }

    /// Whether the request can be answered: nothing went wrong, it says where the client runs, and its
    /// version, if it has one, is a number.
    pub open spec fn usable(self) -> bool {
        self.error_detail is None && self.node is Some && (self.first() || read_u32(
            self.version_info,
        ) is Some)
    }

    /// The kind of resources that is asked for.
    pub open spec fn kind(self) -> Option<ResourceKind> {
        match type_named(self.type_url) {
            Some(TypeUrl::Cluster) => Some(ResourceKind::Cluster),
            Some(TypeUrl::Listener) => Some(ResourceKind::Listener),
            _ => None,
        }
    }
}

impl ServerState {
    /// Whether no two clients connect from one place, and the resources are in the order of the
    /// identifiers of their gateways.
    pub open spec fn in_order(self) -> bool {
        &&& client_ids(self.clients).no_duplicates()
        &&& increasing::<String>(keys(self.clusters))
        &&& increasing::<String>(keys(self.listeners))
    }

    /// The resources of a kind.
    pub open spec fn held(self, kind: ResourceKind) -> Seq<(Seq<char>, Seq<ResourceView>)> {
        match kind {
            ResourceKind::Cluster => self.clusters,
            ResourceKind::Listener => self.listeners,
        }
    }

    /// The state after new resources: they take the place of the old ones of the gateway, and the
    /// clients that serve it are told of them.
    pub open spec fn after(self, action: ServerActionView) -> ServerState {
        let clients = self.clients.map_values(
            or_told(action.gateway(), action.kind(), action.version()),
        );
        match action.kind() {
            ResourceKind::Cluster => ServerState {
                clients,
                clusters: put::<String, Seq<ResourceView>>(
                    self.clusters,
                    action.gateway(),
                    action.told(),
                ),
                listeners: self.listeners,
            },
            ResourceKind::Listener => ServerState {
                clients,
                clusters: self.clusters,
                listeners: put::<String, Seq<ResourceView>>(
                    self.listeners,
                    action.gateway(),
                    action.told(),
                ),
            },
        }
    }

    /// Whether a request of a client that serves a gateway is looked at.
    pub open spec fn heeds(
        self,
        client_id: Seq<char>,
        gateway_id: Option<Seq<char>>,
        request: DiscoveryRequestView,
    ) -> bool {
        request.usable() && gateway_id is Some && knows(self.clients, client_id)
    }

    /// The state after a request: the client is known to serve the gateway.
    pub open spec fn asked(
        self,
        client_id: Seq<char>,
        gateway_id: Option<Seq<char>>,
        request: DiscoveryRequestView,
    ) -> ServerState {
        if self.heeds(client_id, gateway_id, request) {
            ServerState {
                clients: updated(
                    self.clients,
                    AdsClientView { gateway_id, ..client_at(self.clients, client_id) },
                ),
                ..self
            }
        } else {
            self
        }
    }

    /// What a request is answered with: the kind, the resources and the version. There is no answer
    /// where the client has the version that it was told of, or where there are no resources.
    pub open spec fn answer(
        self,
        client_id: Seq<char>,
        gateway_id: Option<Seq<char>>,
        request: DiscoveryRequestView,
    ) -> Option<(ResourceKind, Seq<ResourceView>, u32)> {
        if self.heeds(client_id, gateway_id, request) {
            match request.kind() {
                Some(kind) => {
                    let version = client_at(self.clients, client_id).ack_versions.of(kind);
                    if !request.first() && read_u32(request.version_info) == Some(version) {
                        None
                    } else if table(self.held(kind)).contains_key(gateway_id->0) {
                        Some((kind, table(self.held(kind))[gateway_id->0], version))
                    } else {
                        None
                    }
                },
                None => None,
            }
        } else {
            None
        }
    }
}

/// The clients, of which some were told already.
pub open spec fn told_so_far(
    clients: Seq<AdsClientView>,
    served: Seq<AdsClientView>,
    tell: spec_fn(AdsClientView) -> AdsClientView,
) -> Seq<AdsClientView> {
    Seq::new(
        clients.len(),
        |k: int|
            if served.contains(clients[k]) {
                tell(clients[k])
            } else {
                clients[k]
            },
    )
}

/// Telling one more client.
pub proof fn tell_one(
    clients: Seq<AdsClientView>,
    served: Seq<AdsClientView>,
    next: AdsClientView,
    tell: spec_fn(AdsClientView) -> AdsClientView,
)
    requires
        client_ids(clients).no_duplicates(),
        clients.contains(next),
        forall|c: AdsClientView| (#[trigger] tell(c)).client_id == c.client_id,
    ensures
        updated(told_so_far(clients, served, tell), tell(next)) == told_so_far(
            clients,
            served.push(next),
            tell,
        ),
{
    let now = told_so_far(clients, served, tell);
    let place = choose|i: int| 0 <= i < clients.len() && clients[i] == next;
    assert(client_ids(clients)[place] == next.client_id);
    assert forall|k: int| 0 <= k < clients.len() implies #[trigger] updated(now, tell(next))[k]
        == told_so_far(clients, served.push(next), tell)[k] by {
        assert(now[k].client_id == clients[k].client_id);
        assert(client_ids(clients)[k] == clients[k].client_id);
        if clients[k] == next {
            assert(served.push(next)[served.len() as int] == clients[k]);
        } else {
            assert(k != place);
            assert(clients[k].client_id != next.client_id);
            if served.contains(clients[k]) {
                let i = choose|i: int| 0 <= i < served.len() && served[i] == clients[k];
                assert(served.push(next)[i] == clients[k]);
            }
            if served.push(next).contains(clients[k]) {
                let i = choose|i: int|
                    0 <= i < served.push(next).len() && served.push(next)[i] == clients[k];
                assert(served[i] == clients[k]);
            }
        }
    }
    assert(updated(now, tell(next)) =~= told_so_far(clients, served.push(next), tell));
}

proof fn all_told(
    clients: Seq<AdsClientView>,
    gateway_id: Seq<char>,
    kind: ResourceKind,
    version: u32,
)
    ensures
        told_so_far(
            clients,
            chosen(clients, serving(gateway_id)),
            or_told(gateway_id, kind, version),
        ) == clients.map_values(or_told(gateway_id, kind, version)),
{
    let served = chosen(clients, serving(gateway_id));
    let tell = or_told(gateway_id, kind, version);
    assert forall|k: int| 0 <= k < clients.len() implies #[trigger] told_so_far(
        clients,
        served,
        tell,
    )[k] == tell(clients[k]) by {
        chosen_contains(clients, serving(gateway_id), clients[k]);
        if clients[k].gateway_id == Some(gateway_id) {
            assert(serving(gateway_id)(clients[k]) == Some(clients[k]));
            assert(served.contains(clients[k]));
        }
    }
    assert(told_so_far(clients, served, tell) =~= clients.map_values(tell));
}

/// The kind of resources that is asked for.
pub fn kind_of(request: &DiscoveryRequest) -> (r: Option<ResourceKind>)
    ensures
        r == request.deep_view().kind(),
{
    match TypeUrl::try_from(request.type_url.as_str()) {
        Ok(TypeUrl::Cluster) => Some(ResourceKind::Cluster),
        Ok(TypeUrl::Listener) => Some(ResourceKind::Listener),
        _ => None,
    }
}

/// The discovery service.
#[derive(Debug)]
pub struct AggregateServer {
    ads_clients: AdsClients,
    clusters: OrderedMap<String, Vec<Resource>>,
    listeners: OrderedMap<String, Vec<Resource>>,
}

impl AggregateServer {
    /// What the service holds.
    pub closed spec fn state(&self) -> ServerState {
        ServerState {
            clients: self.ads_clients.list(),
            clusters: self.clusters.deep_view(),
            listeners: self.listeners.deep_view(),
        }
    }

    /// A service that holds nothing.
    pub fn new() -> (r: Self)
        ensures
            r.state() == (ServerState {
                clients: Seq::empty(),
                clusters: Seq::empty(),
                listeners: Seq::empty(),
            }),
            r.state().in_order(),
    {
        AggregateServer {
            ads_clients: AdsClients::new(),
            clusters: OrderedMap::new(),
            listeners: OrderedMap::new(),
        }
    }

    fn tell(
        &mut self,
        gateway_id: &str,
        kind: ResourceKind,
        resources: &Vec<Resource>,
        version: u32,
    ) -> (r: Vec<(String, DiscoveryResponse)>)
        ensures
            final(self).state() == (ServerState {
                clients: old(self).state().clients.map_values(
                    or_told(gateway_id@, kind, version),
                ),
                ..old(self).state()
            }),
            told_each(
                r.deep_view(),
                chosen(old(self).state().clients, serving(gateway_id@)),
                kind,
                resources.deep_view(),
                version,
            ),
            final(self).state().in_order(),
    {
        let clients = self.ads_clients.get_clients_by_gateway_id(gateway_id);
        let ghost all = self.ads_clients.list();
        let ghost served = clients.deep_view();
        let ghost tell = or_told(gateway_id@, kind, version);
        let ghost told = resources.deep_view();
        let mut out: Vec<(String, DiscoveryResponse)> = Vec::new();
        let mut i: usize = 0;
        assert(self.ads_clients.list() =~= told_so_far(all, served.take(0), tell));
        while i < clients.len()
            invariant
                i <= clients.len(),
                clients.deep_view() == served,
                served == chosen(all, serving(gateway_id@)),
                tell == or_told(gateway_id@, kind, version),
                told == resources.deep_view(),
                client_ids(all).no_duplicates(),
                self.clusters == old(self).clusters,
                self.listeners == old(self).listeners,
                self.ads_clients.list() == told_so_far(all, served.take(i as int), tell),
                told_each(out.deep_view(), served.take(i as int), kind, told, version),
            decreases clients.len() - i,
        {
            let ghost before = out.deep_view();
            let ghost now = served[i as int];
            assert(now == clients[i as int].deep_view());
            proof {
                assert(served.contains(now));
                chosen_contains(all, serving(gateway_id@), now);
                let k = choose|k: int|
                    0 <= k < all.len() && #[trigger] serving(gateway_id@)(all[k]) == Some(now);
                assert(all[k] == now);
                tell_one(all, served.take(i as int), now, tell);
                assert(served.take(i as int).push(now) =~= served.take(i + 1));
            }
            let response = respond(kind, resources, version);
            let mut client = clients[i].dup();
            client.ack_versions = client.ack_versions.with(kind, version);
            assert(client.deep_view() == tell(now));
            self.ads_clients.update_client(&client);
            let entry = (client.client_id, response);
            out.push(entry);
            assert(out.deep_view() =~= before.push(entry.deep_view()));
            i = i + 1;
        }
        assert(served.take(i as int) =~= served);
        proof {
            all_told(all, gateway_id@, kind, version);
            use_type_invariant(&self.ads_clients);
            use_type_invariant(&self.clusters);
            use_type_invariant(&self.listeners);
        }
        out
    }

    /// Takes new resources of a gateway. What is to be sent to the clients that serve the gateway is
    /// given back, each with the place that the client connects from.
    pub fn update(&mut self, action: &ServerAction) -> (r: Vec<(String, DiscoveryResponse)>)
        ensures
            final(self).state() == old(self).state().after(action.deep_view()),
            told_each(
                r.deep_view(),
                chosen(old(self).state().clients, serving(action.deep_view().gateway())),
                action.deep_view().kind(),
                action.deep_view().told(),
                action.deep_view().version(),
            ),
            final(self).state().in_order(),
    {
        match action {
            ServerAction::UpdateClusters { gateway_id, resources, ack_version } => {
                let gateway = create_gateway_id(gateway_id);
                self.clusters.insert(gateway.dup(), resources.dup());
                self.tell(gateway.as_str(), ResourceKind::Cluster, resources, *ack_version)
            },
            ServerAction::UpdateListeners { gateway_id, resources, ack_version } => {
                let gateway = create_gateway_id(gateway_id);
                self.listeners.insert(gateway.dup(), resources.dup());
                self.tell(gateway.as_str(), ResourceKind::Listener, resources, *ack_version)
            },
        }
    }

    /// Takes up a client that connects. It must be known where it connects from.
    pub fn connect(&mut self, remote_addr: Option<String>) -> (r: Result<String, &'static str>)
        ensures
            match remote_addr {
                Some(client_id) => r is Ok && r->Ok_0@ == client_id@ && final(self).state() == (
                ServerState {
                    clients: connected(
                        old(self).state().clients,
                        AdsClientView::new(client_id@),
                    ),
                    ..old(self).state()
                }),
                None => r is Err && r->Err_0@ == "Invalid remote IP address"@
                    && final(self).state() == old(self).state(),
            },
            final(self).state().in_order(),
    {
        proof {
            use_type_invariant(&self.ads_clients);
            use_type_invariant(&self.clusters);
            use_type_invariant(&self.listeners);
        }
        match remote_addr {
            Some(client_id) => {
                self.ads_clients.add_or_replace_client(AdsClient::new(client_id.dup()));
                Ok(client_id)
            },
            None => Err("Invalid remote IP address"),
        }
    }

    /// The node whose gateway is to be looked up for a request: none where something went wrong, or
    /// where the request does not say where the client runs.
    pub fn node_of(request: &DiscoveryRequest) -> (r: Option<&Node>)
        ensures
            r.deep_view() == (if request.deep_view().error_detail is None {
                request.deep_view().node
            } else {
                None
            }),
    {
        if request.error_detail.is_some() {
            None
        } else {
            request.node.as_ref()
        }
    }

    /// Takes a request of a client. `gateway_id` is the gateway of the node that the request names,
    /// where there is one. What is to be sent back is given back.
    pub fn request(
        &mut self,
        client_id: &str,
        gateway_id: Option<String>,
        request: &DiscoveryRequest,
    ) -> (r: Option<DiscoveryResponse>)
        ensures
            final(self).state() == old(self).state().asked(
                client_id@,
                gateway_id.deep_view(),
                request.deep_view(),
            ),
            match old(self).state().answer(
                client_id@,
                gateway_id.deep_view(),
                request.deep_view(),
            ) {
                Some((kind, resources, version)) => r is Some && r->0.deep_view()
                    == DiscoveryResponseView::of(kind, resources, version, r->0.nonce@) && uuid_of(
                    r->0.nonce@,
                ) is Some,
                None => r is None,
            },
            final(self).state().in_order(),
    {
        proof {
            use_type_invariant(&self.ads_clients);
            use_type_invariant(&self.clusters);
            use_type_invariant(&self.listeners);
        }
        if Self::node_of(request).is_none() {
            return None;
        }
        let gateway = match gateway_id {
            Some(gateway) => gateway,
            None => {
                return None;
            },
        };
        let first = request.version_info.as_str().unicode_len() == 0;
        let incoming: u32 = if first {
            0
        } else {
            match parse_u32(request.version_info.as_str()) {
                Some(version) => version,
                None => {
                    return None;
                },
            }
        };
        let mut client = match self.ads_clients.get_client_by_client_id(client_id) {
            Some(client) => client,
            None => {
                return None;
            },
        };
        client.set_gateway_id(gateway.as_str());
        self.ads_clients.update_client(&client);
        let kind = match kind_of(request) {
            Some(kind) => kind,
            None => {
                return None;
            },
        };
        let version: u32 = client.ack_versions.of(kind);
        if !first && incoming == version {
            return None;
        }
        let held = match kind {
            ResourceKind::Cluster => self.clusters.get(&gateway),
            ResourceKind::Listener => self.listeners.get(&gateway),
        };
        match held {
            Some(resources) => Some(respond(kind, resources, version)),
            None => None,
        }
    }

    /// Forgets a client that has gone.
    pub fn close(&mut self, client_id: &str)
        ensures
            final(self).state() == (ServerState {
                clients: disconnected(old(self).state().clients, client_id@),
                ..old(self).state()
            }),
            final(self).state().in_order(),
    {
        proof {
            use_type_invariant(&self.ads_clients);
            use_type_invariant(&self.clusters);
            use_type_invariant(&self.listeners);
        }
        self.ads_clients.remove_client(client_id);
    }
}

/// Whether each of some clients, in their order, is told of resources of a kind at a version.
pub open spec fn told_each(
    sent: Seq<(Seq<char>, DiscoveryResponseView)>,
    clients: Seq<AdsClientView>,
    kind: ResourceKind,
    resources: Seq<ResourceView>,
    version: u32,
) -> bool {
    &&& sent.len() == clients.len()
    &&& forall|i: int|
        0 <= i < sent.len() ==> {
            &&& (#[trigger] sent[i]).0 == clients[i].client_id
            &&& sent[i].1 == DiscoveryResponseView::of(kind, resources, version, sent[i].1.nonce)
            &&& uuid_of(sent[i].1.nonce) is Some
        }
}

impl ServerActionView {
    /// The text that the action is shown by.
    pub open spec fn shown(self) -> Seq<char> {
        let name = match self.kind() {
            ResourceKind::Cluster => "ServerAction::UpdateClusters {gateway_id: "@,
            ResourceKind::Listener => "ServerAction::UpdateListeners {gateway_id: "@,
        };
        name + self.gateway() + ", resources: "@ + decimal(self.told().len() as int)
            + ", ack_version: "@ + decimal(self.version() as int) + " }"@
    }
}

fn show(name: &str, gateway_id: &ResourceKey, resources: &Vec<Resource>, version: u32) -> (r: String)
    ensures
        r@ == name@ + id_of(gateway_id.name@, gateway_id.namespace@) + ", resources: "@ + decimal(
            resources.deep_view().len() as int,
        ) + ", ack_version: "@ + decimal(version as int) + " }"@,
{
    let gateway = gateway_id.to_text();
    let count = count_text(resources.len());
    let number = count_text(version as usize);
    let start = cat3(name, gateway.as_str(), ", resources: ");
    let middle = cat3(start.as_str(), count.as_str(), ", ack_version: ");
    cat3(middle.as_str(), number.as_str(), " }")
}

impl ServerAction {
    /// The text that the action is shown by.
    pub fn to_text(&self) -> (r: String)
        ensures
            r@ == self.deep_view().shown(),
    {
        match self {
            ServerAction::UpdateClusters { gateway_id, resources, ack_version } => show(
                "ServerAction::UpdateClusters {gateway_id: ",
                gateway_id,
                resources,
                *ack_version,
            ),
            ServerAction::UpdateListeners { gateway_id, resources, ack_version } => show(
                "ServerAction::UpdateListeners {gateway_id: ",
                gateway_id,
                resources,
                *ack_version,
            ),
        }
    }
}

proof fn client_found(clients: Seq<AdsClientView>, i: int)
    requires
        0 <= i < clients.len(),
        client_ids(clients).no_duplicates(),
    ensures
        knows(clients, clients[i].client_id),
        client_at(clients, clients[i].client_id) == clients[i],
{
    let id = clients[i].client_id;
    assert(client_ids(clients)[i] == id);
    let k = choose|k: int| 0 <= k < clients.len() && client_ids(clients)[k] == id;
    assert(k == i);
}

proof fn told_client(
    clients: Seq<AdsClientView>,
    client_id: Seq<char>,
    gateway_id: Seq<char>,
    kind: ResourceKind,
    version: u32,
)
    requires
        client_ids(clients).no_duplicates(),
        knows(clients, client_id),
    ensures
        knows(clients.map_values(or_told(gateway_id, kind, version)), client_id),
        client_at(clients.map_values(or_told(gateway_id, kind, version)), client_id) == or_told(
            gateway_id,
            kind,
            version,
        )(client_at(clients, client_id)),
        client_ids(clients.map_values(or_told(gateway_id, kind, version))) == client_ids(clients),
{
    let next = clients.map_values(or_told(gateway_id, kind, version));
    assert(client_ids(next) =~= client_ids(clients));
    let i = choose|i: int| 0 <= i < clients.len() && client_ids(clients)[i] == client_id;
    client_found(clients, i);
    client_found(next, i);
}

/// A client that asks for the first time after new resources of its gateway is told of exactly them.
pub proof fn law_first_request_reads_update(
    state: ServerState,
    action: ServerActionView,
    client_id: Seq<char>,
    request: DiscoveryRequestView,
)
    requires
        state.in_order(),
        knows(state.clients, client_id),
        request.usable(),
        request.first(),
        request.kind() == Some(action.kind()),
    ensures
        state.after(action).answer(client_id, Some(action.gateway()), request) == Some(
            (
                action.kind(),
                action.told(),
                client_at(state.after(action).clients, client_id).ack_versions.of(action.kind()),
            ),
        ),
{
    told_client(state.clients, client_id, action.gateway(), action.kind(), action.version());
    law_put::<String, Seq<ResourceView>>(
        state.held(action.kind()),
        action.gateway(),
        action.told(),
    );
}

/// A client that confirms the version that it was told of last is not told again.
pub proof fn law_confirmed_version_is_not_repeated(
    state: ServerState,
    action: ServerActionView,
    client_id: Seq<char>,
    gateway_id: Option<Seq<char>>,
    request: DiscoveryRequestView,
)
    requires
        state.in_order(),
        knows(state.clients, client_id),
        client_at(state.clients, client_id).gateway_id == Some(action.gateway()),
        request.kind() == Some(action.kind()),
        !request.first(),
        read_u32(request.version_info) == Some(action.version()),
    ensures
        state.after(action).answer(client_id, gateway_id, request) is None,
{
    told_client(state.clients, client_id, action.gateway(), action.kind(), action.version());
}

/// New resources of one gateway change nothing for another: neither its resources nor the clients that
/// serve it.
pub proof fn law_update_is_local(
    state: ServerState,
    action: ServerActionView,
    gateway_id: Seq<char>,
    kind: ResourceKind,
)
    requires
        state.in_order(),
        gateway_id != action.gateway(),
    ensures
        table(state.after(action).held(kind)).contains_key(gateway_id) == table(
            state.held(kind),
        ).contains_key(gateway_id),
        table(state.held(kind)).contains_key(gateway_id) ==> table(
            state.after(action).held(kind),
        )[gateway_id] == table(state.held(kind))[gateway_id],
        forall|i: int|
            0 <= i < state.clients.len() && (#[trigger] state.clients[i]).gateway_id == Some(
                gateway_id,
            ) ==> state.after(action).clients[i] == state.clients[i],
{
    law_put::<String, Seq<ResourceView>>(
        state.held(action.kind()),
        action.gateway(),
        action.told(),
    );
}

/// An action is about the kind, the gateway, the resources and the version that it carries, and is shown
/// by them.
pub proof fn law_action(gateway_id: ResourceKeyView, resources: Seq<ResourceView>, ack_version: u32)
    ensures
        ({
            let clusters = ServerActionView::UpdateClusters { gateway_id, resources, ack_version };
            let listeners = ServerActionView::UpdateListeners { gateway_id, resources, ack_version };
            let id = gateway_id.namespace + "."@ + gateway_id.name;
            let rest = id + ", resources: "@ + decimal(resources.len() as int) + ", ack_version: "@
                + decimal(ack_version as int) + " }"@;
            &&& clusters.kind() == ResourceKind::Cluster
            &&& listeners.kind() == ResourceKind::Listener
            &&& clusters.gateway() == id
            &&& listeners.gateway() == id
            &&& clusters.told() == resources
            &&& listeners.told() == resources
            &&& clusters.version() == ack_version
            &&& listeners.version() == ack_version
            &&& clusters.shown() == "ServerAction::UpdateClusters {gateway_id: "@ + rest
            &&& listeners.shown() == "ServerAction::UpdateListeners {gateway_id: "@ + rest
        }),
{
    let clusters = ServerActionView::UpdateClusters { gateway_id, resources, ack_version };
    let listeners = ServerActionView::UpdateListeners { gateway_id, resources, ack_version };
    let id = gateway_id.namespace + "."@ + gateway_id.name;
    let rest = id + ", resources: "@ + decimal(resources.len() as int) + ", ack_version: "@ + decimal(
        ack_version as int,
    ) + " }"@;
    assert(clusters.shown() =~= "ServerAction::UpdateClusters {gateway_id: "@ + rest);
    assert(listeners.shown() =~= "ServerAction::UpdateListeners {gateway_id: "@ + rest);
}

/// A request asks for clusters or for listeners by the URL of their type, and for nothing that is held
/// by any other.
pub proof fn law_kind_of_request(request: DiscoveryRequestView)
    ensures
        request.type_url == "type.googleapis.com/envoy.config.cluster.v3.Cluster"@ <==> request.kind()
            == Some(ResourceKind::Cluster),
        request.type_url == "type.googleapis.com/envoy.config.listener.v3.Listener"@
            <==> request.kind() == Some(ResourceKind::Listener),
{
    law_type_url(TypeUrl::Cluster);
    law_type_url(TypeUrl::Listener);
}

/// A request is of use where it tells of no error, says where the client runs, and has no version or one
/// that is a number.
pub proof fn law_usable_request(request: DiscoveryRequestView)
    ensures
        request.error_detail is Some ==> !request.usable(),
        request.node is None ==> !request.usable(),
        request.first() <==> request.version_info.len() == 0,
        request.error_detail is None && request.node is Some && request.version_info.len() == 0
            ==> request.usable(),
        request.error_detail is None && request.node is Some && request.version_info.len() > 0 ==> (
        request.usable() <==> read_u32(request.version_info) is Some),
{
}

/// New resources of a gateway take the place of those of their kind, and leave those of the other kind.
/// Each client that serves the gateway was told of their version and keeps the other one; all other
/// clients stay as they are.
pub proof fn law_update(state: ServerState, action: ServerActionView, kind: ResourceKind)
    requires
        state.in_order(),
    ensures
        kind == action.kind() ==> table(state.after(action).held(kind)) == table(
            state.held(kind),
        ).insert(action.gateway(), action.told()),
        kind != action.kind() ==> state.after(action).held(kind) == state.held(kind),
        state.after(action).clients.len() == state.clients.len(),
        forall|i: int|
            0 <= i < state.clients.len() ==> {
                let before = state.clients[i];
                let after = #[trigger] state.after(action).clients[i];
                &&& after.client_id == before.client_id
                &&& after.gateway_id == before.gateway_id
                &&& before.gateway_id == Some(action.gateway()) && kind == action.kind()
                    ==> after.ack_versions.of(kind) == action.version()
                &&& before.gateway_id != Some(action.gateway()) || kind != action.kind()
                    ==> after.ack_versions.of(kind) == before.ack_versions.of(kind)
            },
{
    law_put::<String, Seq<ResourceView>>(
        state.held(action.kind()),
        action.gateway(),
        action.told(),
    );
}

/// A client that asks with a request of use, and whose gateway is known, is known to serve that gateway
/// then. It keeps its versions, and all else stays; any other request changes nothing.
pub proof fn law_asked(
    state: ServerState,
    client_id: Seq<char>,
    gateway_id: Option<Seq<char>>,
    request: DiscoveryRequestView,
)
    requires
        state.in_order(),
    ensures
        !request.usable() || gateway_id is None || !knows(state.clients, client_id) ==> state.asked(
            client_id,
            gateway_id,
            request,
        ) == state,
        state.asked(client_id, gateway_id, request).clusters == state.clusters,
        state.asked(client_id, gateway_id, request).listeners == state.listeners,
        request.usable() && gateway_id is Some && knows(state.clients, client_id) ==> forall|i: int|
            0 <= i < state.clients.len() ==> {
                let before = state.clients[i];
                let after = #[trigger] state.asked(client_id, gateway_id, request).clients[i];
                &&& before.client_id == client_id ==> after.gateway_id == gateway_id
                &&& before.client_id == client_id ==> after.client_id == client_id
                &&& before.client_id == client_id ==> after.ack_versions == before.ack_versions
                &&& before.client_id != client_id ==> after == before
            },
{
    if knows(state.clients, client_id) {
        assert forall|i: int| 0 <= i < state.clients.len() && (
        #[trigger] state.clients[i]).client_id == client_id implies client_at(
            state.clients,
            client_id,
        ) == state.clients[i] by {
            law_client_is_found(state.clients, client_id, i);
        }
        let ids = client_ids(state.clients);
        let k = choose|k: int| 0 <= k < ids.len() && ids[k] == client_id;
        assert(state.clients[k].client_id == client_id);
        assert(client_at(state.clients, client_id).client_id == client_id);
    }
}

/// A request is answered with the resources of the kind that it asks for that the gateway has, at the
/// version that the client was told of; unless the client has that version, or there are none. A request
/// that is of no use, or of a client that is not known or serves no gateway, is not answered.
pub proof fn law_answer(
    state: ServerState,
    client_id: Seq<char>,
    gateway_id: Seq<char>,
    request: DiscoveryRequestView,
    kind: ResourceKind,
)
    ensures
        state.answer(client_id, None, request) is None,
        !request.usable() ==> state.answer(client_id, Some(gateway_id), request) is None,
        !knows(state.clients, client_id) ==> state.answer(client_id, Some(gateway_id), request) is None,
        request.kind() is None ==> state.answer(client_id, Some(gateway_id), request) is None,
        request.usable() && knows(state.clients, client_id) && request.kind() == Some(kind) ==> {
            let version = client_at(state.clients, client_id).ack_versions.of(kind);
            let confirmed = request.version_info.len() > 0 && read_u32(request.version_info) == Some(
                version,
            );
            let there = table(state.held(kind)).contains_key(gateway_id);
            &&& confirmed || !there ==> state.answer(client_id, Some(gateway_id), request) is None
            &&& !confirmed && there ==> state.answer(client_id, Some(gateway_id), request) == Some(
                (kind, table(state.held(kind))[gateway_id], version),
            )
        },
{
}

/// Each of the clients is told, in their order, of all resources of the kind at the version.
pub proof fn law_each_is_told(
    sent: Seq<(Seq<char>, DiscoveryResponseView)>,
    clients: Seq<AdsClientView>,
    kind: ResourceKind,
    resources: Seq<ResourceView>,
    version: u32,
    i: int,
)
    requires
        told_each(sent, clients, kind, resources, version),
        0 <= i < clients.len(),
    ensures
        sent.len() == clients.len(),
        sent[i].0 == clients[i].client_id,
        uuid_of(sent[i].1.nonce) is Some,
        sent[i].1.type_url == kind.kind_url(),
        sent[i].1.version_info == decimal(version as int),
        sent[i].1.resources.len() == resources.len(),
        forall|k: int|
            0 <= k < resources.len() ==> #[trigger] sent[i].1.resources[k] == resources[k].resource,
{
    law_response(kind, resources, version, sent[i].1.nonce);
}

} // verus!
