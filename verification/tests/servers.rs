//! The discovery services.
use kubvernor::backends::agentgateway::resources as agent;
use kubvernor::backends::agentgateway::server as delta;
use kubvernor::backends::envoy::ads::{
    AckVersions, DiscoveryRequest, Node, ResourceKind, create_gateway_id, gateway_id_of_pod,
};
use kubvernor::backends::envoy::history_server::{
    self as history, HistoryServer, can_be_cut, create_gateway_id_from_node_id,
};
use kubvernor::backends::envoy::model::TypeUrl;
use kubvernor::backends::envoy::resources::{AnyResource, Resource};
use kubvernor::backends::envoy::server::{AggregateServer, ServerAction, kind_of};
use kubvernor::common::resource_key::ResourceKey;
use kubvernor::model::Model;
use kubvernor::ordered::OrderedMap;

const CLUSTER: &str = "type.googleapis.com/envoy.config.cluster.v3.Cluster";
const LISTENER: &str = "type.googleapis.com/envoy.config.listener.v3.Listener";

fn resource(name: &str, value: u8) -> Resource {
    Resource {
        name: name.to_owned(),
        resource: AnyResource { type_url: CLUSTER.to_owned(), value: vec![value] },
    }
}

fn node() -> Node {
    Node { id: "gateway-one-74dd5dbc59-6jmmw".to_owned(), cluster: "space".to_owned() }
}

fn request(version: &str, type_url: &str) -> DiscoveryRequest {
    DiscoveryRequest {
        error_detail: None,
        node: Some(node()),
        version_info: version.to_owned(),
        type_url: type_url.to_owned(),
    }
}

fn clusters(gateway: &str, value: u8, version: u32) -> ServerAction {
    ServerAction::UpdateClusters {
        gateway_id: ResourceKey::namespaced(gateway, "space"),
        resources: vec![resource("c", value)],
        ack_version: version,
    }
}

#[test]
fn the_first_request_is_answered_with_the_last_update() {
    let mut server = AggregateServer::new();
    assert_eq!(server.connect(None), Err("Invalid remote IP address"));
    let client = server.connect(Some("10.0.0.1:1".to_owned())).unwrap();
    assert!(server.update(&clusters("one", 1, 4)).is_empty());
    assert!(server.update(&clusters("one", 2, 5)).is_empty());
    let gateway = Some("space.one".to_owned());
    let answer = server.request(&client, gateway.dup(), &request("", CLUSTER)).unwrap();
    assert_eq!(answer.type_url, CLUSTER);
    assert_eq!(answer.resources, vec![resource("c", 2).resource]);
    assert_eq!(answer.version_info, "0");
    assert!(uuid::Uuid::parse_str(&answer.nonce).is_ok());
    assert_eq!(server.request(&client, gateway.dup(), &request("", LISTENER)), None);

    let told = server.update(&clusters("one", 3, 6));
    assert_eq!(told.len(), 1);
    assert_eq!(told[0].0, client);
    assert_eq!(told[0].1.version_info, "6");
    assert_eq!(told[0].1.resources, vec![resource("c", 3).resource]);
    assert_eq!(server.request(&client, gateway.dup(), &request("6", CLUSTER)), None);
    let behind = server.request(&client, gateway.dup(), &request("5", CLUSTER)).unwrap();
    assert_eq!(behind.version_info, "6");
    assert_eq!(behind.resources, vec![resource("c", 3).resource]);
    assert!(server.update(&clusters("two", 9, 1)).is_empty());
    server.close(&client);
    assert!(server.update(&clusters("one", 4, 7)).is_empty());
    assert_eq!(server.request(&client, gateway, &request("", CLUSTER)), None);
}

#[test]
fn requests_that_cannot_be_answered_are_skipped() {
    let mut server = AggregateServer::new();
    let client = server.connect(Some("10.0.0.1:1".to_owned())).unwrap();
    server.update(&clusters("one", 1, 1));
    let gateway = Some("space.one".to_owned());
    let mut wrong = request("", CLUSTER);
    wrong.error_detail = Some("no".to_owned());
    assert!(AggregateServer::node_of(&wrong).is_none());
    assert_eq!(server.request(&client, gateway.dup(), &wrong), None);
    let mut nowhere = request("", CLUSTER);
    nowhere.node = None;
    assert_eq!(server.request(&client, gateway.dup(), &nowhere), None);
    assert_eq!(AggregateServer::node_of(&request("", CLUSTER)), Some(&node()));
    assert_eq!(server.request(&client, gateway.dup(), &request("x", CLUSTER)), None);
    assert_eq!(server.request(&client, gateway.dup(), &request("", "other")), None);
    assert_eq!(server.request("10.0.0.2:1", gateway.dup(), &request("", CLUSTER)), None);
    assert_eq!(server.request(&client, None, &request("", CLUSTER)), None);
    assert!(server.request(&client, gateway, &request("", CLUSTER)).is_some());
}

#[test]
fn actions_are_shown() {
    assert_eq!(
        clusters("one", 1, 7).to_text(),
        "ServerAction::UpdateClusters {gateway_id: space.one, resources: 1, ack_version: 7 }",
    );
    let listeners = history::ServerAction::UpdateListeners {
        gateway_id: ResourceKey::namespaced("one", "space"),
        resources: vec![],
    };
    assert_eq!(
        listeners.to_text(),
        "ServerAction::UpdateListeners {gateway_id: space.one, resources: 0 }",
    );
}

#[test]
fn types_have_urls() {
    assert_eq!(TypeUrl::Cluster.to_text(), CLUSTER);
    assert_eq!(TypeUrl::Listener.to_text(), LISTENER);
    assert!(matches!(TypeUrl::try_from(CLUSTER), Ok(TypeUrl::Cluster)));
    assert!(TypeUrl::try_from("other").is_err());
    assert_eq!(kind_of(&request("", LISTENER)), Some(ResourceKind::Listener));
    assert_eq!(kind_of(&request("", "other")), None);
}

#[test]
fn versions_are_raised() {
    let mut versions = AckVersions::default();
    versions.inc();
    versions.raise(2);
    assert_eq!((versions.cluster(), versions.listener()), (3, 3));
    let other = versions.with(ResourceKind::Listener, 9);
    assert_eq!((other.of(ResourceKind::Cluster), other.of(ResourceKind::Listener)), (3, 9));
}

#[test]
fn gateways_are_found_by_pods_and_nodes() {
    assert_eq!(create_gateway_id(&ResourceKey::namespaced("one", "space")), "space.one");
    let labels = OrderedMap::gather(&vec![("app".to_owned(), "one".to_owned())]);
    assert_eq!(gateway_id_of_pod(&Some(labels), "space"), Some("space.one".to_owned()));
    assert_eq!(gateway_id_of_pod(&Some(OrderedMap::new()), "space"), None);
    assert_eq!(gateway_id_of_pod(&None, "space"), None);
    assert_eq!(create_gateway_id_from_node_id(&node()), Some("space.gateway-one".to_owned()));
    let short = Node { id: "-74dd5dbc59-6jmmw".to_owned(), cluster: "space".to_owned() };
    assert_eq!(create_gateway_id_from_node_id(&short), None);
    let wide = Node { id: "gät-74dd5dbc59-6jmmw".to_owned(), cluster: "s".to_owned() };
    assert!(can_be_cut(&wide));
    assert_eq!(create_gateway_id_from_node_id(&wide), Some("s.gät".to_owned()));
    let cut = Node { id: "gateway-ä74dd5dbc59-6jmmw".to_owned(), cluster: "s".to_owned() };
    assert!(!can_be_cut(&cut));
}

#[test]
fn the_history_service_tells_of_all_updates() {
    let mut server = HistoryServer::new();
    let client = server.connect(Some("10.0.0.1:1".to_owned())).unwrap();
    let update = |value: u8| history::ServerAction::UpdateClusters {
        gateway_id: ResourceKey::namespaced("one", "space"),
        resources: vec![resource("c", value)],
    };
    assert!(server.can_tell(&update(1)));
    server.update(&update(1));
    server.update(&update(2));
    let gateway = Some("space.one".to_owned());
    assert!(server.can_answer(&client, &gateway, &request("", CLUSTER)));
    let answers = server.request(&client, gateway.dup(), &request("", CLUSTER));
    assert_eq!(answers.len(), 2);
    assert_eq!(answers[0].resources, vec![resource("c", 1).resource]);
    assert_eq!(answers[1].resources, vec![resource("c", 2).resource]);
    let other = server.request(&client, gateway.dup(), &request("", LISTENER));
    assert!(other.is_empty());
    let told = server.update(&update(3));
    assert_eq!(told.len(), 1);
    assert_eq!(told[0].1.resources, vec![resource("c", 3).resource]);
    assert_eq!(told[0].1.version_info, "1");
    assert!(server.request(&client, gateway.dup(), &request("2", CLUSTER)).is_empty());
    assert_eq!(server.request(&client, gateway.dup(), &request("1", CLUSTER)).len(), 3);
    server.close(&client);
    assert!(server.request(&client, gateway, &request("", CLUSTER)).is_empty());
}

fn bind(key: &str) -> agent::Resource {
    agent::Resource {
        kind: Some(agent::Kind::Bind(agent::Bind { key: key.to_owned(), port: 80 })),
    }
}

fn agent_update(resources: Vec<agent::Resource>) -> delta::ServerAction {
    delta::ServerAction::UpdateResources {
        gateway_id: ResourceKey::namespaced("one", "space"),
        resources,
    }
}

fn agent_request(type_url: &str) -> delta::DeltaDiscoveryRequest {
    delta::DeltaDiscoveryRequest {
        error_detail: None,
        response_nonce: String::new(),
        node: Some(node()),
        type_url: type_url.to_owned(),
    }
}

#[test]
fn clients_are_told_of_differences() {
    let mut server = delta::AggregateServer::new();
    assert_eq!(server.connect(None), Err("Invalid remote IP address"));
    let client = server.connect(Some("10.0.0.1:1".to_owned())).unwrap();
    let first = agent_update(vec![bind("a"), bind("b")]);
    assert!(server.takes(&first));
    assert!(server.update(&first).is_empty());
    let gateway = Some("space.one".to_owned());
    let ask = agent_request(delta::RESOURCE_URL);
    assert_eq!(server.node_for(&client, &ask), Some(&node()));
    let answer = server.request(&client, gateway.dup(), &ask).unwrap();
    assert_eq!(answer.type_url, delta::RESOURCE_URL);
    assert_eq!(answer.resources.len(), 2);
    assert_eq!(answer.resources[0].message, delta::Message::Resource(bind("a")));
    assert_eq!(answer.resources[0].name, delta::RESOURCE_URL);
    assert_eq!(answer.removed_resources, Vec::<String>::new());

    let second = agent_update(vec![bind("b"), bind("c")]);
    let told = server.update(&second);
    assert_eq!(told.len(), 1);
    assert_eq!(told[0].0, client);
    assert_eq!(told[0].1.resources.len(), 1);
    assert_eq!(told[0].1.resources[0].message, delta::Message::Resource(bind("c")));
    assert_eq!(told[0].1.removed_resources, vec!["bind/a".to_owned()]);
    let again = server.update(&second);
    assert!(again[0].1.resources.is_empty());
    assert!(again[0].1.removed_resources.is_empty());

    assert!(!server.takes(&agent_update(vec![bind("a")])));
    let workloads = delta::ServerAction::UpdateWorkloads {
        gateway_id: ResourceKey::namespaced("one", "space"),
        workloads: vec![],
    };
    assert!(server.takes(&workloads));
    let unknown = server.request(&client, gateway.dup(), &agent_request("other")).unwrap();
    assert_eq!(unknown.type_url, "other");
    assert!(unknown.resources.is_empty());
    let addresses = server.request(&client, gateway.dup(), &agent_request(delta::ADDRESS_URL)).unwrap();
    assert!(addresses.resources.is_empty());

    server.close(&client);
    assert_eq!(server.request(&client, gateway.dup(), &ask), None);
    assert!(server.takes(&agent_update(vec![bind("a")])));
    let back = server.connect(Some("10.0.0.1:1".to_owned())).unwrap();
    let empty = server.request(&back, gateway, &ask).unwrap();
    assert!(empty.resources.is_empty());
}

#[test]
fn confirmations_and_failures_are_not_answered() {
    let mut server = delta::AggregateServer::new();
    let client = server.connect(Some("10.0.0.1:1".to_owned())).unwrap();
    let gateway = Some("space.one".to_owned());
    let mut confirmed = agent_request(delta::RESOURCE_URL);
    confirmed.response_nonce = "550e8400-e29b-41d4-a716-446655440000".to_owned();
    assert_eq!(server.request(&client, gateway.dup(), &confirmed), None);
    let mut failed = agent_request(delta::RESOURCE_URL);
    failed.error_detail = Some("no".to_owned());
    assert_eq!(server.request(&client, gateway.dup(), &failed), None);
    let mut nowhere = agent_request(delta::RESOURCE_URL);
    nowhere.node = None;
    assert_eq!(server.request(&client, gateway.dup(), &nowhere), None);
    assert_eq!(server.node_for("10.0.0.2:1", &agent_request(delta::RESOURCE_URL)), None);
    assert_eq!(server.request(&client, None, &agent_request(delta::RESOURCE_URL)), None);
    for _ in 0..1500 {
        assert!(server.request(&client, gateway.dup(), &agent_request(delta::RESOURCE_URL)).is_some());
    }
    assert_eq!(
        delta::stream_aggregated_resources(),
        Err("AggregateServer::stream_aggregated_resources not supported"),
    );
}

#[test]
fn workloads_are_told_of() {
    let service = |name: &str| agent::Address {
        address_type: Some(agent::AddressType::Service(agent::Service {
            name: name.to_owned(),
            namespace: "space".to_owned(),
            hostname: name.to_owned(),
            ports: vec![],
            addresses: vec![],
            load_balancing: None,
        })),
    };
    let workload = agent::Address {
        address_type: Some(agent::AddressType::Workload(agent::Workload { uid: "w".to_owned() })),
    };
    let mut had = delta::ManagedResources {
        all_resources: vec![],
        all_workloads: vec![service("a"), workload, agent::Address { address_type: None }],
    };
    let delta = had.cache_workloads_and_calculate_delta(vec![service("b")]);
    assert_eq!(delta.to_add, vec![service("b")]);
    assert_eq!(delta.to_remove, vec!["address/a/space".to_owned(), "address/w".to_owned()]);
    assert_eq!(had.all_workloads, vec![service("b")]);
    assert!(had.all_resources.is_empty());
}

#[test]
fn resources_are_removed_by_name() {
    let named = |kind: agent::Kind| agent::Resource { kind: Some(kind) };
    let mut had = delta::ManagedResources {
        all_resources: vec![
            named(agent::Kind::Bind(agent::Bind { key: "b".to_owned(), port: 1 })),
            named(agent::Kind::Backend(agent::Backend { name: "k".to_owned(), host: "h".to_owned(), port: 1 })),
            named(agent::Kind::Policy(agent::Policy {
                name: "p".to_owned(),
                endpoint_picker: None,
                failure_mode: 0,
                target_service: String::new(),
            })),
            named(agent::Kind::TcpRoute(agent::TcpRoute { key: "t".to_owned(), listener_key: "l".to_owned() })),
            agent::Resource { kind: None },
        ],
        all_workloads: vec![],
    };
    let delta = had.cache_resources_and_calculate_delta(vec![]);
    assert_eq!(delta.to_remove, vec!["bind/b", "backend/k", "policy/p", "tcproute/t"]);
    assert!(delta.to_add.is_empty());
}

#[test]
fn differences_keep_their_order() {
    let this = vec![3u32, 1, 2, 1];
    assert_eq!(delta::difference(&this, &vec![2u32]), vec![3, 1, 1]);
    assert_eq!(delta::difference(&this, &this), Vec::<u32>::new());
}

#[test]
fn nodes_of_agentgateway_are_parsed() {
    let id = "agentgateway~1.1.1.1~agentgateway-one-6776fc578f-n2mms.default~default.svc.cluster.local";
    assert_eq!(
        delta::parse_agengateway_id(id),
        Ok(("agentgateway-one-6776fc578f-n2mms".to_owned(), "default".to_owned())),
    );
    assert_eq!(delta::parse_agengateway_id("a~b"), Err("Invalid node id format"));
    assert_eq!(delta::parse_agengateway_id("a~b~pod"), Err("No namespace provided"));
    assert_eq!(delta::parse_agengateway_id("a~b~"), Err("No namespace provided"));
    assert_eq!(delta::parse_agengateway_id("~~.~"), Ok((String::new(), String::new())));
}

#[test]
fn agentgateway_actions_are_shown() {
    let update = agent_update(vec![bind("a\"b"), agent::Resource { kind: None }]);
    assert_eq!(
        update.to_text(&vec![]),
        "ServerAction::UpdateResources {gateway_id: space.one, resources: [\"Resource: Bind key=a\\\"b\", \"Unknown\"] }",
    );
    let backend = agent::Resource {
        kind: Some(agent::Kind::Backend(agent::Backend { name: "k".to_owned(), host: "h".to_owned(), port: 1 })),
    };
    assert_eq!(delta::print_resource(&backend, "ALL"), "Resource: Backend backend_name=k ALL");
    let workloads = delta::ServerAction::UpdateWorkloads {
        gateway_id: ResourceKey::namespaced("one", "space"),
        workloads: vec![],
    };
    assert_eq!(
        workloads.to_text(&vec![]),
        "ServerAction::UpdateAddresses {gateway_id: space.one, workloads: 0 }",
    );
}
