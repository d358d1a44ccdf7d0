//! A discovery service that keeps all resources that a gateway ever had, and counts what it told each
//! client.
use multimap::MultiMap;
use vstd::prelude::*;
use vstd::utf8::{encode_scalar, encode_utf8};
use crate::backends::envoy::ads::{
    AdsClient,
    AdsClientView,
    AdsClients,
    DiscoveryRequest,
    DiscoveryRequestView,
    DiscoveryResponse,
    DiscoveryResponseView,
    Node,
    NodeView,
    ResourceKind,
    client_at,
    client_ids,
    connected,
    create_gateway_id,
    disconnected,
    has_version,
    knows,
    law_response,
    respond,
    serving,
    updated,
};
use crate::backends::envoy::resources::{Resource, ResourceView};
use crate::backends::envoy::server::{AggregateServer, kind_of, tell_one, told_so_far};
use crate::common::resource_key::{ResourceKey, ResourceKeyView, create_id, id_of};
use crate::identifiers::uuid_of;
use crate::lists::{chosen, chosen_contains, each};
use crate::model::Model;
use crate::text::{cat3, count_text, decimal, parse_u32, read_u32};

verus! {

/// A map with several values under a key, of the crate `multimap`.
#[verifier::external_type_specification]
#[verifier::external_body]
#[verifier::reject_recursive_types(K)]
#[verifier::reject_recursive_types(V)]
#[verifier::reject_recursive_types(S)]
pub struct ExMultiMap<K, V, S>(MultiMap<K, V, S>);

/// What a map holds under its keys, in the order in which it was inserted.
pub uninterp spec fn multi_held(map: MultiMap<String, Vec<Resource>>) -> Map<
    Seq<char>,
    Seq<Seq<ResourceView>>,
>;

/// No values.
pub open spec fn no_values() -> Map<Seq<char>, Seq<Seq<ResourceView>>> {
    Map::empty()
}

/// `multimap::MultiMap::new`: the map holds nothing.
#[verifier::external_body]
fn multi_new() -> (r: MultiMap<String, Vec<Resource>>)
    ensures
        multi_held(r) == no_values(),
{
    MultiMap::new()
}

/// The values with one more under a key.
pub open spec fn with_value(
    held: Map<Seq<char>, Seq<Seq<ResourceView>>>,
    key: Seq<char>,
    value: Seq<ResourceView>,
) -> Map<Seq<char>, Seq<Seq<ResourceView>>> {
    if held.contains_key(key) {
        held.insert(key, held[key].push(value))
    } else {
        held.insert(key, seq![value])
    }
}

/// `multimap::MultiMap::insert`: the value comes last among those under its key.
#[verifier::external_body]
fn multi_insert(map: &mut MultiMap<String, Vec<Resource>>, key: String, value: Vec<Resource>)
    ensures
        multi_held(*final(map)) == with_value(multi_held(*old(map)), key@, value.deep_view()),
{
    map.insert(key, value)
}

/// `multimap::MultiMap::get_vec`: the values under a key, where it is there.
#[verifier::external_body]
fn multi_get_vec<'a>(map: &'a MultiMap<String, Vec<Resource>>, key: &String) -> (r: Option<
    &'a Vec<Vec<Resource>>,
>)
    ensures
        r is Some <==> multi_held(*map).contains_key(key@),
        r matches Some(values) ==> values.deep_view() == multi_held(*map)[key@],
{
    map.get_vec(key)
}

/// What the service is told to do: more resources of a gateway.
#[derive(Debug, PartialEq, Eq)]
pub enum ServerAction {
    UpdateClusters { gateway_id: ResourceKey, resources: Vec<Resource> },
    UpdateListeners { gateway_id: ResourceKey, resources: Vec<Resource> },
}

/// What a [`ServerAction`] holds.
#[verifier::ext_equal]
pub enum ServerActionView {
    UpdateClusters { gateway_id: ResourceKeyView, resources: Seq<ResourceView> },
    UpdateListeners { gateway_id: ResourceKeyView, resources: Seq<ResourceView> },
}

impl DeepView for ServerAction {
    type V = ServerActionView;

    open spec fn deep_view(&self) -> ServerActionView {
        match self {
            ServerAction::UpdateClusters { gateway_id, resources } => ServerActionView::UpdateClusters { gateway_id: gateway_id.deep_view(), resources: resources.deep_view() },
            ServerAction::UpdateListeners { gateway_id, resources } => ServerActionView::UpdateListeners { gateway_id: gateway_id.deep_view(), resources: resources.deep_view() },
        }
    }
}

impl Model for ServerAction {
    fn dup(&self) -> (r: Self) {
        match self {
            ServerAction::UpdateClusters { gateway_id, resources } => ServerAction::UpdateClusters { gateway_id: gateway_id.dup(), resources: resources.dup() },
            ServerAction::UpdateListeners { gateway_id, resources } => ServerAction::UpdateListeners { gateway_id: gateway_id.dup(), resources: resources.dup() },
        }
    }

    fn same(&self, other: &Self) -> (r: bool) {
        match (self, other) {
            (ServerAction::UpdateClusters { gateway_id, resources }, ServerAction::UpdateClusters { gateway_id: gateway_id_, resources: resources_ }) => gateway_id.same(gateway_id_) && resources.same(resources_),
            (ServerAction::UpdateListeners { gateway_id, resources }, ServerAction::UpdateListeners { gateway_id: gateway_id_, resources: resources_ }) => gateway_id.same(gateway_id_) && resources.same(resources_),
            _ => false,
        }
    }
}

impl ServerActionView {
    /// The kind of the resources.
    pub open spec fn kind(self) -> ResourceKind {
        match self {
            ServerActionView::UpdateClusters { .. } => ResourceKind::Cluster,
            ServerActionView::UpdateListeners { .. } => ResourceKind::Listener,
        }
    }

    /// The identifier of the gateway.
    pub open spec fn gateway(self) -> Seq<char> {
        match self {
            ServerActionView::UpdateClusters { gateway_id, .. } => id_of(
                gateway_id.name,
                gateway_id.namespace,
            ),
            ServerActionView::UpdateListeners { gateway_id, .. } => id_of(
                gateway_id.name,
                gateway_id.namespace,
            ),
        }
    }

    /// The resources.
    pub open spec fn told(self) -> Seq<ResourceView> {
        match self {
            ServerActionView::UpdateClusters { resources, .. } => resources,
            ServerActionView::UpdateListeners { resources, .. } => resources,
        }
    }

    /// The text that the action is shown by.
    pub open spec fn shown(self) -> Seq<char> {
        let name = match self.kind() {
            ResourceKind::Cluster => "ServerAction::UpdateClusters {gateway_id: "@,
            ResourceKind::Listener => "ServerAction::UpdateListeners {gateway_id: "@,
        };
        name + self.gateway() + ", resources: "@ + decimal(self.told().len() as int) + " }"@
    }
}

fn show(name: &str, gateway_id: &ResourceKey, resources: &Vec<Resource>) -> (r: String)
    ensures
        r@ == name@ + id_of(gateway_id.name@, gateway_id.namespace@) + ", resources: "@ + decimal(
            resources.deep_view().len() as int,
        ) + " }"@,
{
    let gateway = gateway_id.to_text();
    let count = count_text(resources.len());
    let start = cat3(name, gateway.as_str(), ", resources: ");
    cat3(start.as_str(), count.as_str(), " }")
}

impl ServerAction {
    /// The text that the action is shown by.
    pub fn to_text(&self) -> (r: String)
        ensures
            r@ == self.deep_view().shown(),
    {
        match self {
            ServerAction::UpdateClusters { gateway_id, resources } => show(
                "ServerAction::UpdateClusters {gateway_id: ",
                gateway_id,
                resources,
            ),
            ServerAction::UpdateListeners { gateway_id, resources } => show(
                "ServerAction::UpdateListeners {gateway_id: ",
                gateway_id,
                resources,
            ),
        }
    }
}

/// How many characters the end of the name of a pod has, behind the name of its deployment.
pub const POSTFIX_LENGTH: usize = 17;

/// The number of bytes that a character takes in UTF-8.
pub open spec fn utf8_width(c: char) -> nat {
    if (c as u32) < 0x80 {
        1
    } else if (c as u32) < 0x800 {
        2
    } else if (c as u32) < 0x10000 {
        3
    } else {
        4
    }
}

/// The number of bytes that a text takes in UTF-8.
pub open spec fn utf8_len(text: Seq<char>) -> nat
    decreases text.len(),
{
    if text.len() == 0 {
        0
    } else {
        utf8_len(text.drop_last()) + utf8_width(text.last())
    }
}

/// A text without its last bytes, where no character is cut in two by that.
pub open spec fn without_bytes(text: Seq<char>, count: nat) -> Option<Seq<char>>
    decreases text.len(),
{
    if count == 0 {
        Some(text)
    } else if text.len() == 0 || utf8_width(text.last()) > count {
        None
    } else {
        without_bytes(text.drop_last(), (count - utf8_width(text.last())) as nat)
    }
}

impl NodeView {
    /// Whether the name is longer than the end that a pod's name has.
    pub open spec fn long(self) -> bool {
        utf8_len(self.id) > POSTFIX_LENGTH
    }

    /// Whether no character is cut in two where the end that a pod's name has is taken from the name.
    pub open spec fn can_be_cut(self) -> bool {
        self.long() ==> without_bytes(self.id, POSTFIX_LENGTH as nat) is Some
    }

    /// The gateway that the node serves, which its name begins with.
    pub open spec fn gateway(self) -> Option<Seq<char>> {
        if self.long() {
            Some(id_of(without_bytes(self.id, POSTFIX_LENGTH as nat)->0, self.cluster))
        } else {
            None
        }
    }
}

fn width_of(c: char) -> (r: usize)
    ensures
        r == utf8_width(c),
{
    let code: u32 = c as u32;
    if code < 0x80 {
        1
    } else if code < 0x800 {
        2
    } else if code < 0x10000 {
        3
    } else {
        4
    }
}

/// The place in a text before which it ends without the last bytes, and how many bytes are left to take
/// where it ends too early or a character would be cut in two.
fn walk_back(text: &str, count: usize) -> (r: (usize, usize))
    ensures
        r.0 <= text@.len(),
        r.1 <= count,
        without_bytes(text@, count as nat) == without_bytes(text@.take(r.0 as int), r.1 as nat),
        utf8_len(text@) == count - r.1 + utf8_len(text@.take(r.0 as int)),
        r.1 == 0 || r.0 == 0 || utf8_width(text@[r.0 - 1]) > r.1,
{
    let mut n: usize = text.unicode_len();
    let mut left: usize = count;
    assert(text@.take(n as int) =~= text@);
    while left > 0 && n > 0
        invariant
            n <= text@.len(),
            left <= count,
            without_bytes(text@, count as nat) == without_bytes(
                text@.take(n as int),
                left as nat,
            ),
            utf8_len(text@) == count - left + utf8_len(text@.take(n as int)),
        decreases n,
    {
        let w: usize = width_of(text.get_char(n - 1));
        assert(text@.take(n as int).drop_last() =~= text@.take(n - 1));
        if w > left {
            return (n, left);
        }
        left = left - w;
        n = n - 1;
    }
    (n, left)
}

/// Whether the end of a pod's name can be taken from the name of a node: no character is cut in two by
/// that.
pub fn can_be_cut(node: &Node) -> (r: bool)
    ensures
        r == node.deep_view().can_be_cut(),
{
    let (n, left) = walk_back(node.id.as_str(), POSTFIX_LENGTH);
    let ghost rest = node.id@.take(n as int);
    assert(n > 0 ==> rest.last() == node.id@[n - 1]);
    n == 0 || left == 0
}

/// The gateway that a node serves, by the name of the node: for example `gateway-one` for
/// `gateway-one-74dd5dbc59-6jmmw`. The end of the name must not cut a character in two.
pub fn create_gateway_id_from_node_id(node: &Node) -> (r: Option<String>)
    requires
        node.deep_view().can_be_cut(),
    ensures
        r.deep_view() == node.deep_view().gateway(),
{
    let text = node.id.as_str();
    let (n, left) = walk_back(text, POSTFIX_LENGTH);
    let ghost rest = node.id@.take(n as int);
    assert(n > 0 ==> rest.last() == node.id@[n - 1]);
    if left > 0 || n == 0 {
        return None;
    }
    let start = text.substring_char(0, n);
    assert(start@ =~= rest);
    Some(create_id(start, node.cluster.as_str()))
}

/// A client, with one more message of a kind told where it serves a gateway.
pub open spec fn or_told_more(gateway_id: Seq<char>, kind: ResourceKind) -> spec_fn(
    AdsClientView,
) -> AdsClientView {
    |client: AdsClientView|
        if client.gateway_id == Some(gateway_id) {
            AdsClientView {
                ack_versions: client.ack_versions.with(
                    kind,
                    (client.ack_versions.of(kind) + 1) as u32,
                ),
                ..client
            }
        } else {
            client
        }
}

/// The clients, and the resources that the gateways ever had, by their identifiers.
#[verifier::ext_equal]
pub struct HistoryState {
    pub clients: Seq<AdsClientView>,
    pub clusters: Map<Seq<char>, Seq<Seq<ResourceView>>>,
    pub listeners: Map<Seq<char>, Seq<Seq<ResourceView>>>,
}

impl HistoryState {
    /// The resources of a kind.
    pub open spec fn held(self, kind: ResourceKind) -> Map<Seq<char>, Seq<Seq<ResourceView>>> {
        match kind {
            ResourceKind::Cluster => self.clusters,
            ResourceKind::Listener => self.listeners,
        }
    }

    /// Whether the clients that serve the gateway of an action can be told of it: their versions have
    /// not run out.
    pub open spec fn can_tell(self, action: ServerActionView) -> bool {
        each(chosen(self.clients, serving(action.gateway())), has_version(action.kind()))
    }

    /// The state after more resources of a gateway, which the clients that serve it are told of.
    pub open spec fn after(self, action: ServerActionView) -> HistoryState {
        let clients = self.clients.map_values(or_told_more(action.gateway(), action.kind()));
        match action.kind() {
            ResourceKind::Cluster => HistoryState {
                clients,
                clusters: with_value(self.clusters, action.gateway(), action.told()),
                listeners: self.listeners,
            },
            ResourceKind::Listener => HistoryState {
                clients,
                clusters: self.clusters,
                listeners: with_value(self.listeners, action.gateway(), action.told()),
            },
        }
    }

    /// Whether a request of a client is looked at.
    pub open spec fn heeds(
        self,
        client_id: Seq<char>,
        gateway_id: Option<Seq<char>>,
        request: DiscoveryRequestView,
    ) -> bool {
        request.usable() && gateway_id is Some && knows(self.clients, client_id)
    }

    /// The kind of resources that a request is answered with: none where the client has the version
    /// that it was told of, or where the gateway never had resources.
    pub open spec fn answers(
        self,
        client_id: Seq<char>,
        gateway_id: Option<Seq<char>>,
        request: DiscoveryRequestView,
    ) -> Option<ResourceKind> {
        if self.heeds(client_id, gateway_id, request) {
            match request.kind() {
                Some(kind) => if !request.first() && read_u32(request.version_info) == Some(
                    client_at(self.clients, client_id).ack_versions.of(kind),
                ) {
                    None
                } else if self.held(kind).contains_key(gateway_id->0) {
                    Some(kind)
                } else {
                    None
                },
                None => None,
            }
        } else {
            None
        }
    }

    /// Whether a request can be answered: where the client is told of something, its version has not
    /// run out.
    pub open spec fn can_answer(
        self,
        client_id: Seq<char>,
        gateway_id: Option<Seq<char>>,
        request: DiscoveryRequestView,
    ) -> bool {
        self.answers(client_id, gateway_id, request) matches Some(kind) ==> self.held(
            kind,
        )[gateway_id->0].len() > 0 ==> client_at(self.clients, client_id).ack_versions.of(kind)
            < u32::MAX
    }

    /// The client after a request: it is known to serve the gateway, and its version is raised where
    /// it is told of something.
    pub open spec fn asking(
        self,
        client_id: Seq<char>,
        gateway_id: Option<Seq<char>>,
        request: DiscoveryRequestView,
    ) -> AdsClientView {
        let client = AdsClientView { gateway_id, ..client_at(self.clients, client_id) };
        match self.answers(client_id, gateway_id, request) {
            Some(kind) => if self.held(kind)[gateway_id->0].len() > 0 {
                AdsClientView {
                    ack_versions: client.ack_versions.with(
                        kind,
                        (client.ack_versions.of(kind) + 1) as u32,
                    ),
                    ..client
                }
            } else {
                client
            },
            None => client,
        }
    }

    /// The state after a request.
    pub open spec fn asked(
        self,
        client_id: Seq<char>,
        gateway_id: Option<Seq<char>>,
        request: DiscoveryRequestView,
    ) -> HistoryState {
        if self.heeds(client_id, gateway_id, request) {
            HistoryState {
                clients: updated(self.clients, self.asking(client_id, gateway_id, request)),
                ..self
            }
        } else {
            self
        }
    }
}

/// Whether each of some clients, in their order, is told of resources of a kind, at the version that it
/// had.
pub open spec fn told_each(
    sent: Seq<(Seq<char>, DiscoveryResponseView)>,
    clients: Seq<AdsClientView>,
    kind: ResourceKind,
    resources: Seq<ResourceView>,
) -> bool {
    &&& sent.len() == clients.len()
    &&& forall|i: int|
        0 <= i < sent.len() ==> {
            &&& (#[trigger] sent[i]).0 == clients[i].client_id
            &&& sent[i].1 == DiscoveryResponseView::of(
                kind,
                resources,
                clients[i].ack_versions.of(kind),
                sent[i].1.nonce,
            )
            &&& uuid_of(sent[i].1.nonce) is Some
        }
}

/// Whether a client is told of all resources that a gateway ever had, in their order, at one version.
pub open spec fn told_all(
    sent: Seq<DiscoveryResponseView>,
    kind: ResourceKind,
    held: Seq<Seq<ResourceView>>,
    version: u32,
) -> bool {
    &&& sent.len() == held.len()
    &&& forall|i: int|
        0 <= i < sent.len() ==> {
            &&& (#[trigger] sent[i]) == DiscoveryResponseView::of(
                kind,
                held[i],
                version,
                sent[i].nonce,
            )
            &&& uuid_of(sent[i].nonce) is Some
        }
}

proof fn all_told_more(clients: Seq<AdsClientView>, gateway_id: Seq<char>, kind: ResourceKind)
    ensures
        told_so_far(
            clients,
            chosen(clients, serving(gateway_id)),
            or_told_more(gateway_id, kind),
        ) == clients.map_values(or_told_more(gateway_id, kind)),
{
    let served = chosen(clients, serving(gateway_id));
    let tell = or_told_more(gateway_id, kind);
    assert forall|k: int| 0 <= k < clients.len() implies #[trigger] told_so_far(
        clients,
        served,
        tell,
    )[k] == tell(clients[k]) by {
        chosen_contains(clients, serving(gateway_id), clients[k]);
        if clients[k].gateway_id == Some(gateway_id) {
            assert(serving(gateway_id)(clients[k]) == Some(clients[k]));
            assert(served.contains(clients[k]));
        }
    }
    assert(told_so_far(clients, served, tell) =~= clients.map_values(tell));
}

/// The discovery service.
pub struct HistoryServer {
    ads_clients: AdsClients,
    cluster: MultiMap<String, Vec<Resource>>,
    listener: MultiMap<String, Vec<Resource>>,
}

impl HistoryServer {
    /// What the service holds.
    pub closed spec fn state(&self) -> HistoryState {
        HistoryState {
            clients: self.ads_clients.list(),
            clusters: multi_held(self.cluster),
            listeners: multi_held(self.listener),
        }
    }

    /// A service that holds nothing.
    pub fn new() -> (r: Self)
        ensures
            r.state() == (HistoryState {
                clients: Seq::empty(),
                clusters: Map::empty(),
                listeners: Map::empty(),
            }),
            client_ids(r.state().clients).no_duplicates(),
    {
        HistoryServer { ads_clients: AdsClients::new(), cluster: multi_new(), listener: multi_new() }
    }

    /// Whether the clients that serve the gateway of an action can be told of it.
    pub fn can_tell(&self, action: &ServerAction) -> (r: bool)
        ensures
            r == self.state().can_tell(action.deep_view()),
    {
        match action {
            ServerAction::UpdateClusters { gateway_id, .. } => {
                let gateway = create_gateway_id(gateway_id);
                self.ads_clients.can_be_told(gateway.as_str(), ResourceKind::Cluster)
            },
            ServerAction::UpdateListeners { gateway_id, .. } => {
                let gateway = create_gateway_id(gateway_id);
                self.ads_clients.can_be_told(gateway.as_str(), ResourceKind::Listener)
            },
        }
    }

    fn held(&self, kind: ResourceKind, gateway: &String) -> (r: Option<&Vec<Vec<Resource>>>)
        ensures
            r is Some <==> self.state().held(kind).contains_key(gateway@),
            r matches Some(lists) ==> lists.deep_view() == self.state().held(kind)[gateway@],
    {
        match kind {
            ResourceKind::Cluster => multi_get_vec(&self.cluster, gateway),
            ResourceKind::Listener => multi_get_vec(&self.listener, gateway),
        }
    }

    /// Whether a request of a client can be answered.
    pub fn can_answer(
        &self,
        client_id: &str,
        gateway_id: &Option<String>,
        request: &DiscoveryRequest,
    ) -> (r: bool)
        ensures
            r == self.state().can_answer(client_id@, gateway_id.deep_view(), request.deep_view()),
    {
        if AggregateServer::node_of(request).is_none() {
            return true;
        }
        let first = request.version_info.as_str().unicode_len() == 0;
        let incoming = parse_u32(request.version_info.as_str());
        if !first && incoming.is_none() {
            return true;
        }
        match (gateway_id, self.ads_clients.get_client_by_client_id(client_id), kind_of(request)) {
            (Some(gateway), Some(client), Some(kind)) => {
                let version: u32 = client.ack_versions.of(kind);
                let confirms = match incoming {
                    Some(number) => !first && number == version,
                    None => false,
                };
                match self.held(kind, gateway) {
                    Some(lists) => confirms || lists.len() == 0 || version < u32::MAX,
                    None => true,
                }
            },
            _ => true,
        }
    }

    fn tell(&mut self, gateway_id: &str, kind: ResourceKind, resources: &Vec<Resource>) -> (r: Vec<
        (String, DiscoveryResponse),
    >)
        requires
            each(chosen(old(self).state().clients, serving(gateway_id@)), has_version(kind)),
        ensures
            final(self).state() == (HistoryState {
                clients: old(self).state().clients.map_values(or_told_more(gateway_id@, kind)),
                ..old(self).state()
            }),
            told_each(
                r.deep_view(),
                chosen(old(self).state().clients, serving(gateway_id@)),
                kind,
                resources.deep_view(),
            ),
            client_ids(final(self).state().clients).no_duplicates(),
    {
        let clients = self.ads_clients.get_clients_by_gateway_id(gateway_id);
        let ghost all = self.ads_clients.list();
        let ghost served = clients.deep_view();
        let ghost tell = or_told_more(gateway_id@, kind);
        let ghost told = resources.deep_view();
        let mut out: Vec<(String, DiscoveryResponse)> = Vec::new();
        let mut i: usize = 0;
        assert(self.ads_clients.list() =~= told_so_far(all, served.take(0), tell));
        while i < clients.len()
            invariant
                i <= clients.len(),
                clients.deep_view() == served,
                served == chosen(all, serving(gateway_id@)),
                tell == or_told_more(gateway_id@, kind),
                told == resources.deep_view(),
                client_ids(all).no_duplicates(),
                each(served, has_version(kind)),
                self.cluster == old(self).cluster,
                self.listener == old(self).listener,
                self.ads_clients.list() == told_so_far(all, served.take(i as int), tell),
                told_each(out.deep_view(), served.take(i as int), kind, told),
            decreases clients.len() - i,
        {
            let ghost before = out.deep_view();
            let ghost now = served[i as int];
            assert(now == clients[i as int].deep_view());
            proof {
                assert(served.contains(now));
                chosen_contains(all, serving(gateway_id@), now);
                let k = choose|k: int|
                    0 <= k < all.len() && #[trigger] serving(gateway_id@)(all[k]) == Some(now);
                assert(all[k] == now);
                assert(has_version(kind)(served[i as int]));
                tell_one(all, served.take(i as int), now, tell);
                assert(served.take(i as int).push(now) =~= served.take(i + 1));
            }
            let mut client = clients[i].dup();
            let version: u32 = client.ack_versions.of(kind);
            let response = respond(kind, resources, version);
            client.ack_versions = client.ack_versions.with(kind, version + 1);
            assert(client.deep_view() == tell(now));
            self.ads_clients.update_client(&client);
            let entry = (client.client_id, response);
            out.push(entry);
            assert(out.deep_view() =~= before.push(entry.deep_view()));
            i = i + 1;
        }
        assert(served.take(i as int) =~= served);
        proof {
            all_told_more(all, gateway_id@, kind);
            use_type_invariant(&self.ads_clients);
        }
        out
    }

    /// Takes more resources of a gateway. What is to be sent to the clients that serve the gateway is
    /// given back, each with the place that the client connects from.
    pub fn update(&mut self, action: &ServerAction) -> (r: Vec<(String, DiscoveryResponse)>)
        requires
            old(self).state().can_tell(action.deep_view()),
        ensures
            final(self).state() == old(self).state().after(action.deep_view()),
            told_each(
                r.deep_view(),
                chosen(old(self).state().clients, serving(action.deep_view().gateway())),
                action.deep_view().kind(),
                action.deep_view().told(),
            ),
            client_ids(final(self).state().clients).no_duplicates(),
    {
        match action {
            ServerAction::UpdateClusters { gateway_id, resources } => {
                let gateway = create_gateway_id(gateway_id);
                multi_insert(&mut self.cluster, gateway.dup(), resources.dup());
                self.tell(gateway.as_str(), ResourceKind::Cluster, resources)
            },
            ServerAction::UpdateListeners { gateway_id, resources } => {
                let gateway = create_gateway_id(gateway_id);
                multi_insert(&mut self.listener, gateway.dup(), resources.dup());
                self.tell(gateway.as_str(), ResourceKind::Listener, resources)
            },
        }
    }

    /// Takes up a client that connects. It must be known where it connects from.
    pub fn connect(&mut self, remote_addr: Option<String>) -> (r: Result<String, &'static str>)
        ensures
            match remote_addr {
                Some(client_id) => r is Ok && r->Ok_0@ == client_id@ && final(self).state() == (
                HistoryState {
                    clients: connected(
                        old(self).state().clients,
                        AdsClientView::new(client_id@),
                    ),
                    ..old(self).state()
                }),
                None => r is Err && r->Err_0@ == "Invalid remote IP address"@
                    && final(self).state() == old(self).state(),
            },
            client_ids(final(self).state().clients).no_duplicates(),
    {
        proof {
            use_type_invariant(&self.ads_clients);
        }
        match remote_addr {
            Some(client_id) => {
                self.ads_clients.add_or_replace_client(AdsClient::new(client_id.dup()));
                Ok(client_id)
            },
            None => Err("Invalid remote IP address"),
        }
    }

    /// Takes a request of a client. `gateway_id` is the gateway of the node that the request names,
    /// where there is one. What is to be sent back is given back.
    pub fn request(
        &mut self,
        client_id: &str,
        gateway_id: Option<String>,
        request: &DiscoveryRequest,
    ) -> (r: Vec<DiscoveryResponse>)
        requires
            old(self).state().can_answer(
                client_id@,
                gateway_id.deep_view(),
                request.deep_view(),
            ),
        ensures
            final(self).state() == old(self).state().asked(
                client_id@,
                gateway_id.deep_view(),
                request.deep_view(),
            ),
            match old(self).state().answers(
                client_id@,
                gateway_id.deep_view(),
                request.deep_view(),
            ) {
                Some(kind) => told_all(
                    r.deep_view(),
                    kind,
                    old(self).state().held(kind)[gateway_id->0@],
                    old(self).state().asking(
                        client_id@,
                        gateway_id.deep_view(),
                        request.deep_view(),
                    ).ack_versions.of(kind),
                ),
                None => r.deep_view().len() == 0,
            },
            client_ids(final(self).state().clients).no_duplicates(),
    {
        proof {
            use_type_invariant(&self.ads_clients);
        }
        if AggregateServer::node_of(request).is_none() {
            return Vec::new();
        }
        let gateway = match gateway_id {
            Some(gateway) => gateway,
            None => {
                return Vec::new();
            },
        };
        let first = request.version_info.as_str().unicode_len() == 0;
        let incoming: u32 = if first {
            0
        } else {
            match parse_u32(request.version_info.as_str()) {
                Some(version) => version,
                None => {
                    return Vec::new();
                },
            }
        };
        let mut client = match self.ads_clients.get_client_by_client_id(client_id) {
            Some(client) => client,
            None => {
                return Vec::new();
            },
        };
        let ghost all = self.ads_clients.list();
        client.set_gateway_id(gateway.as_str());
        self.ads_clients.update_client(&client);
        let kind = match kind_of(request) {
            Some(kind) => kind,
            None => {
                return Vec::new();
            },
        };
        let version: u32 = client.ack_versions.of(kind);
        if !first && incoming == version {
            return Vec::new();
        }
        let held = match kind {
            ResourceKind::Cluster => multi_get_vec(&self.cluster, &gateway),
            ResourceKind::Listener => multi_get_vec(&self.listener, &gateway),
        };
        match held {
            Some(lists) => {
                let ghost set = client.deep_view();
                if lists.len() > 0 {
                    client.ack_versions = client.ack_versions.with(kind, version + 1);
                    self.ads_clients.update_client(&client);
                    assert(updated(updated(all, set), client.deep_view()) =~= updated(
                        all,
                        client.deep_view(),
                    ));
                }
                let told: u32 = client.ack_versions.of(kind);
                respond_all(kind, lists, told)
            },
            None => Vec::new(),
        }
    }

    /// Forgets a client that has gone.
    pub fn close(&mut self, client_id: &str)
        ensures
            final(self).state() == (HistoryState {
                clients: disconnected(old(self).state().clients, client_id@),
                ..old(self).state()
            }),
            client_ids(final(self).state().clients).no_duplicates(),
    {
        self.ads_clients.remove_client(client_id);
    }
}

fn respond_all(kind: ResourceKind, lists: &Vec<Vec<Resource>>, version: u32) -> (r: Vec<
    DiscoveryResponse,
>)
    ensures
        told_all(r.deep_view(), kind, lists.deep_view(), version),
{
    let ghost all = lists.deep_view();
    let mut out: Vec<DiscoveryResponse> = Vec::new();
    let mut i: usize = 0;
    while i < lists.len()
        invariant
            i <= lists.len(),
            lists.deep_view() == all,
            told_all(out.deep_view(), kind, all.take(i as int), version),
        decreases lists.len() - i,
    {
        let ghost before = out.deep_view();
        assert(all[i as int] == lists[i as int].deep_view());
        let response = respond(kind, &lists[i], version);
        out.push(response);
        assert(out.deep_view() =~= before.push(response.deep_view()));
        i = i + 1;
    }
    assert(all.take(i as int) =~= all);
    out
}

/// After more resources of its gateway a client that asks for the first time is told of all that the
/// gateway ever had, and of them last.
pub proof fn law_first_request_reads_all_updates(
    state: HistoryState,
    action: ServerActionView,
    client_id: Seq<char>,
    request: DiscoveryRequestView,
)
    requires
        client_ids(state.clients).no_duplicates(),
        knows(state.clients, client_id),
        request.usable(),
        request.first(),
        request.kind() == Some(action.kind()),
    ensures
        state.after(action).answers(client_id, Some(action.gateway()), request) == Some(
            action.kind(),
        ),
        state.after(action).held(action.kind())[action.gateway()].last() == action.told(),
        state.held(action.kind()).contains_key(action.gateway()) ==> state.after(action).held(
            action.kind(),
        )[action.gateway()].drop_last() == state.held(action.kind())[action.gateway()],
{
    let next = state.after(action);
    assert(client_ids(next.clients) =~= client_ids(state.clients));
    if state.held(action.kind()).contains_key(action.gateway()) {
        assert(next.held(action.kind())[action.gateway()].drop_last() =~= state.held(
            action.kind(),
        )[action.gateway()]);
    }
}

/// An action is about the kind, the gateway and the resources that it carries, and is shown by them.
pub proof fn law_action(gateway_id: ResourceKeyView, resources: Seq<ResourceView>)
    ensures
        ({
            let clusters = ServerActionView::UpdateClusters { gateway_id, resources };
            let listeners = ServerActionView::UpdateListeners { gateway_id, resources };
            let id = gateway_id.namespace + "."@ + gateway_id.name;
            let rest = id + ", resources: "@ + decimal(resources.len() as int) + " }"@;
            &&& clusters.kind() == ResourceKind::Cluster
            &&& listeners.kind() == ResourceKind::Listener
            &&& clusters.gateway() == id
            &&& listeners.gateway() == id
            &&& clusters.told() == resources
            &&& listeners.told() == resources
            &&& clusters.shown() == "ServerAction::UpdateClusters {gateway_id: "@ + rest
            &&& listeners.shown() == "ServerAction::UpdateListeners {gateway_id: "@ + rest
        }),
{
    let clusters = ServerActionView::UpdateClusters { gateway_id, resources };
    let listeners = ServerActionView::UpdateListeners { gateway_id, resources };
    let id = gateway_id.namespace + "."@ + gateway_id.name;
    let rest = id + ", resources: "@ + decimal(resources.len() as int) + " }"@;
    assert(clusters.shown() =~= "ServerAction::UpdateClusters {gateway_id: "@ + rest);
    assert(listeners.shown() =~= "ServerAction::UpdateListeners {gateway_id: "@ + rest);
}

/// A text without its last bytes is its start, and the rest takes as many bytes.
pub proof fn law_text_is_cut(text: Seq<char>, count: nat)
    requires
        without_bytes(text, count) is Some,
    ensures
        ({
            let start = without_bytes(text, count)->0;
            &&& start.len() <= text.len()
            &&& start == text.take(start.len() as int)
            &&& utf8_len(start) + count == utf8_len(text)
        }),
    decreases text.len(),
{
    if count == 0 {
        assert(text.take(text.len() as int) =~= text);
    } else {
        let shorter = text.drop_last();
        law_text_is_cut(shorter, (count - utf8_width(text.last())) as nat);
        let start = without_bytes(text, count)->0;
        assert(shorter.take(start.len() as int) =~= text.take(start.len() as int));
    }
}

/// A node serves the gateway that its name names without the end that a pod's name has, in the namespace
/// that the node is in. A name that is not longer than that end names none.
pub proof fn law_node_serves_gateway(node: NodeView, name: Seq<char>, end: Seq<char>)
    requires
        node.id == name + end,
        utf8_len(end) == 17,
    ensures
        name.len() > 0 ==> node.gateway() == Some(node.cluster + "."@ + name),
        name.len() == 0 ==> node.gateway() is None,
{
    cut_takes_end(name, end);
    length_of_both(name, end);
    if name.len() > 0 {
        let last = name.last();
        assert(utf8_width(last) >= 1);
    } else {
        assert(node.id =~= end);
    }
}

proof fn cut_takes_end(name: Seq<char>, end: Seq<char>)
    ensures
        without_bytes(name + end, utf8_len(end)) == Some(name),
    decreases end.len(),
{
    if end.len() == 0 {
        assert(name + end =~= name);
    } else {
        let both = name + end;
        cut_takes_end(name, end.drop_last());
        assert(both.drop_last() =~= name + end.drop_last());
        assert(both.last() == end.last());
        assert(utf8_len(end) == utf8_len(end.drop_last()) + utf8_width(end.last()));
        assert(utf8_width(end.last()) >= 1);
    }
}

proof fn length_of_both(name: Seq<char>, end: Seq<char>)
    ensures
        utf8_len(name + end) == utf8_len(name) + utf8_len(end),
    decreases end.len(),
{
    if end.len() == 0 {
        assert(name + end =~= name);
    } else {
        let both = name + end;
        length_of_both(name, end.drop_last());
        assert(both.drop_last() =~= name + end.drop_last());
        assert(both.last() == end.last());
    }
}

/// More resources of a gateway come last among those that it had of their kind, and leave those of the
/// other kind and of other gateways. The version of each client that serves the gateway is raised by one;
/// all other clients stay as they are.
pub proof fn law_update(
    state: HistoryState,
    action: ServerActionView,
    kind: ResourceKind,
    other: Seq<char>,
)
    requires
        state.can_tell(action),
    ensures
        ({
            let before = state.held(action.kind());
            let after = state.after(action).held(action.kind());
            &&& after.contains_key(action.gateway())
            &&& after[action.gateway()].last() == action.told()
            &&& before.contains_key(action.gateway()) ==> after[action.gateway()].drop_last()
                == before[action.gateway()]
            &&& !before.contains_key(action.gateway()) ==> after[action.gateway()].len() == 1
            &&& other != action.gateway() && before.contains_key(other) ==> after.contains_key(other)
                && after[other] == before[other]
        }),
        kind != action.kind() ==> state.after(action).held(kind) == state.held(kind),
        state.after(action).clients.len() == state.clients.len(),
        forall|i: int|
            0 <= i < state.clients.len() ==> {
                let before = state.clients[i];
                let after = #[trigger] state.after(action).clients[i];
                &&& after.client_id == before.client_id
                &&& after.gateway_id == before.gateway_id
                &&& before.gateway_id == Some(action.gateway()) && kind == action.kind()
                    ==> after.ack_versions.of(kind) == before.ack_versions.of(kind) + 1
                &&& before.gateway_id != Some(action.gateway()) || kind != action.kind()
                    ==> after.ack_versions.of(kind) == before.ack_versions.of(kind)
            },
{
    let gateway = action.gateway();
    let before = state.held(action.kind());
    let after = state.after(action).held(action.kind());
    if before.contains_key(gateway) {
        assert(after[gateway].drop_last() =~= before[gateway]);
    }
    let served = chosen(state.clients, serving(gateway));
    assert forall|i: int|
        0 <= i < state.clients.len() && (#[trigger] state.clients[i]).gateway_id == Some(
            gateway,
        ) implies state.clients[i].ack_versions.of(action.kind()) < u32::MAX by {
        let client = state.clients[i];
        assert(serving(gateway)(state.clients[i]) == Some(client));
        chosen_contains(state.clients, serving(gateway), client);
        let k = choose|k: int| 0 <= k < served.len() && served[k] == client;
        assert(has_version(action.kind())(served[k]));
    }
    assert forall|i: int| 0 <= i < state.clients.len() implies {
        let before = state.clients[i];
        let after = #[trigger] state.after(action).clients[i];
        &&& after.client_id == before.client_id
        &&& after.gateway_id == before.gateway_id
        &&& before.gateway_id == Some(gateway) && kind == action.kind()
            ==> after.ack_versions.of(kind) == before.ack_versions.of(kind) + 1
        &&& before.gateway_id != Some(gateway) || kind != action.kind()
            ==> after.ack_versions.of(kind) == before.ack_versions.of(kind)
    } by {
        assert(state.clients[i].gateway_id == Some(gateway) ==> state.clients[i].ack_versions.of(
            action.kind(),
        ) < u32::MAX);
    }
}

/// A request is answered with the kind that it asks for, where the gateway ever had resources of it and
/// the client does not have the version that it was told of. A request that is of no use, or of a client
/// that is not known or serves no gateway, is not answered and changes nothing.
pub proof fn law_answers(
    state: HistoryState,
    client_id: Seq<char>,
    gateway_id: Seq<char>,
    request: DiscoveryRequestView,
    kind: ResourceKind,
)
    ensures
        state.answers(client_id, None, request) is None,
        state.asked(client_id, None, request) == state,
        !request.usable() || !knows(state.clients, client_id) ==> state.answers(
            client_id,
            Some(gateway_id),
            request,
        ) is None && state.asked(client_id, Some(gateway_id), request) == state,
        request.kind() is None ==> state.answers(client_id, Some(gateway_id), request) is None,
        request.usable() && knows(state.clients, client_id) && request.kind() == Some(kind) ==> {
            let version = client_at(state.clients, client_id).ack_versions.of(kind);
            let confirmed = request.version_info.len() > 0 && read_u32(request.version_info) == Some(
                version,
            );
            let there = state.held(kind).contains_key(gateway_id);
            &&& confirmed || !there ==> state.answers(client_id, Some(gateway_id), request) is None
            &&& !confirmed && there ==> state.answers(client_id, Some(gateway_id), request) == Some(
                kind,
            )
        },
        state.asked(client_id, Some(gateway_id), request).clusters == state.clusters,
        state.asked(client_id, Some(gateway_id), request).listeners == state.listeners,
{
}

/// A client that asked is known to serve its gateway. Its version of the kind is raised by one where it
/// is told of something, and is kept where it is not.
pub proof fn law_asking(
    state: HistoryState,
    client_id: Seq<char>,
    gateway_id: Seq<char>,
    request: DiscoveryRequestView,
    kind: ResourceKind,
)
    requires
        state.can_answer(client_id, Some(gateway_id), request),
    ensures
        ({
            let before = client_at(state.clients, client_id);
            let after = state.asking(client_id, Some(gateway_id), request);
            let told = state.answers(client_id, Some(gateway_id), request) == Some(kind)
                && state.held(kind)[gateway_id].len() > 0;
            &&& after.client_id == before.client_id
            &&& after.gateway_id == Some(gateway_id)
            &&& told ==> after.ack_versions.of(kind) == before.ack_versions.of(kind) + 1
            &&& !told ==> after.ack_versions.of(kind) == before.ack_versions.of(kind)
        }),
{
}

/// Each of the clients is told, in their order, of all resources of the kind at the version that it had.
pub proof fn law_each_is_told(
    sent: Seq<(Seq<char>, DiscoveryResponseView)>,
    clients: Seq<AdsClientView>,
    kind: ResourceKind,
    resources: Seq<ResourceView>,
    i: int,
)
    requires
        told_each(sent, clients, kind, resources),
        0 <= i < clients.len(),
    ensures
        sent.len() == clients.len(),
        sent[i].0 == clients[i].client_id,
        uuid_of(sent[i].1.nonce) is Some,
        sent[i].1.type_url == kind.kind_url(),
        sent[i].1.version_info == decimal(clients[i].ack_versions.of(kind) as int),
        sent[i].1.resources.len() == resources.len(),
        forall|k: int|
            0 <= k < resources.len() ==> #[trigger] sent[i].1.resources[k] == resources[k].resource,
{
    law_response(kind, resources, clients[i].ack_versions.of(kind), sent[i].1.nonce);
}

/// A client that is told of all that a gateway ever had is told of it in its order, update by update.
pub proof fn law_all_is_told(
    sent: Seq<DiscoveryResponseView>,
    kind: ResourceKind,
    held: Seq<Seq<ResourceView>>,
    version: u32,
    i: int,
)
    requires
        told_all(sent, kind, held, version),
        0 <= i < held.len(),
    ensures
        sent.len() == held.len(),
        uuid_of(sent[i].nonce) is Some,
        sent[i].type_url == kind.kind_url(),
        sent[i].version_info == decimal(version as int),
        sent[i].resources.len() == held[i].len(),
        forall|k: int|
            0 <= k < held[i].len() ==> #[trigger] sent[i].resources[k] == held[i][k].resource,
{
    law_response(kind, held[i], version, sent[i].nonce);
}

proof fn one_is_encoded(c: char)
    ensures
        encode_scalar(c as u32).len() == utf8_width(c),
{
}

proof fn one_more_is_encoded(text: Seq<char>, c: char)
    ensures
        encode_utf8(text.push(c)).len() == encode_utf8(text).len() + encode_utf8(seq![c]).len(),
    decreases text.len(),
{
    reveal_with_fuel(encode_utf8, 2);
    if text.len() == 0 {
        assert(text.push(c) =~= seq![c]);
    } else {
        let rest = text.drop_first();
        one_more_is_encoded(rest, c);
        assert(text.push(c).drop_first() =~= rest.push(c));
    }
}

/// The bytes of a text are those that its encoding in UTF-8 has.
pub proof fn law_bytes_of_text(text: Seq<char>)
    ensures
        utf8_len(text) == encode_utf8(text).len(),
    decreases text.len(),
{
    if text.len() > 0 {
        let shorter = text.drop_last();
        let c = text.last();
        law_bytes_of_text(shorter);
        one_more_is_encoded(shorter, c);
        assert(shorter.push(c) =~= text);
        assert(seq![c].drop_first() =~= Seq::<char>::empty());
        let alone = seq![c];
        assert(alone[0] == c);
        assert(encode_utf8(alone.drop_first()) =~= Seq::<u8>::empty());
        assert(encode_utf8(alone) == encode_scalar(alone[0] as u32) + encode_utf8(alone.drop_first()));
        one_is_encoded(c);
        assert(encode_utf8(seq![c]).len() == utf8_width(c));
    }
}

/// A value that is added comes last under its key; what is held under other keys stays.
pub proof fn law_with_value(
    held: Map<Seq<char>, Seq<Seq<ResourceView>>>,
    key: Seq<char>,
    value: Seq<ResourceView>,
    other: Seq<char>,
)
    ensures
        with_value(held, key, value).contains_key(key),
        with_value(held, key, value)[key].last() == value,
        held.contains_key(key) ==> with_value(held, key, value)[key].drop_last() == held[key],
        !held.contains_key(key) ==> with_value(held, key, value)[key].len() == 1,
        other != key ==> with_value(held, key, value).contains_key(other) == held.contains_key(other),
        other != key && held.contains_key(other) ==> with_value(held, key, value)[other]
            == held[other],
        !no_values().contains_key(key),
{
    if held.contains_key(key) {
        assert(held[key].push(value).drop_last() =~= held[key]);
    }
}

} // verus!
