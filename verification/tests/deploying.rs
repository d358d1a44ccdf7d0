//! What is deployed for gateways.
use kubvernor::backends::agentgateway::deployer as agentgateway;
use kubvernor::backends::deployment::{
    DeployedService, FollowUp, create_service, find_gateway_addresses, name, polled, update_addresses,
};
use kubvernor::backends::envoy::deployer::{Deletion, DeployerAction, EnvoyDeployer, deploy_envoy};
use kubvernor::backends::file_deployer;
use kubvernor::backends::gateway_deployer::{self, BackendGatewayEvent, answer};
use kubvernor::backends::gateways::{self, GatewayEvent, Gateways, ListenerStatus, Listeners};
use kubvernor::backends::templates::TemplateError;
use kubvernor::backends::xds_generator::{RdsData, XdsData};
use kubvernor::common::address::{ControlPlaneConfig, GatewayAddress, HostText, SocketAddress};
use kubvernor::common::certificate::Certificate;
use kubvernor::common::contexts::{BackendGatewayResponse, ChangedContext, GatewayResponse};
use kubvernor::common::gateway::Gateway;
use kubvernor::common::kube::{CertificateRef, GatewayListener, KubeGateway, ListenerTls, ObjectMeta, TlsMode};
use kubvernor::common::listener::{Listener, ListenerError, ProtocolType, TlsType};
use kubvernor::common::resource_key::ResourceKey;
use kubvernor::common::route::RouteStatus;
use kubvernor::model::Model;

fn meta(name: &str) -> ObjectMeta {
    ObjectMeta {
        name: Some(name.to_owned()),
        generate_name: None,
        namespace: Some("space".to_owned()),
        uid: Some("550e8400-e29b-41d4-a716-446655440000".to_owned()),
    }
}

fn listener(name: &str, port: i32, protocol: &str) -> GatewayListener {
    GatewayListener {
        name: name.to_owned(),
        port,
        protocol: protocol.to_owned(),
        hostname: None,
        tls: None,
        allowed_routes: None,
    }
}

fn kube_gateway() -> KubeGateway {
    let mut secure = listener("secure", 443, "HTTPS");
    secure.tls = Some(ListenerTls {
        mode: Some(TlsMode::Terminate),
        certificate_refs: Some(vec![CertificateRef {
            group: None,
            kind: None,
            name: "tls".to_owned(),
            namespace: Some("space".to_owned()),
        }]),
    });
    KubeGateway {
        metadata: meta("one"),
        listeners: vec![listener("a", 80, "HTTP"), listener("b", 80, "TCP"), secure],
    }
}

fn gateway() -> Gateway {
    Gateway::try_from(&kube_gateway()).unwrap()
}

fn context() -> ChangedContext {
    ChangedContext {
        gateway: gateway(),
        kube_gateway: kube_gateway(),
        gateway_class_name: "class".to_owned(),
    }
}

fn config() -> ControlPlaneConfig {
    ControlPlaneConfig {
        host: "control-plane".to_owned(),
        port: 50051,
        controller_name: "controller".to_owned(),
        listening_socket: SocketAddress { address: "0.0.0.0".to_owned(), port: 50051 },
    }
}

fn service(ips: Option<Vec<Option<(&str, Option<Vec<u8>>)>>>) -> DeployedService {
    DeployedService {
        resource_key: ResourceKey::namespaced("one", "space"),
        ingress: ips.map(|list| {
            list.into_iter()
                .map(|ip| ip.map(|(text, octets)| HostText { text: text.to_owned(), octets }))
                .collect()
        }),
    }
}

#[test]
fn ports_of_services_are_named() {
    assert_eq!(name("gw", 80, "HTTP"), "gw-80-http");
    assert_eq!(name("gw", 443, "Ünïcode"), "gw-443-ünïcode");
    let plan = create_service(&gateway());
    assert_eq!(plan.service_type, "LoadBalancer");
    let ports: Vec<(&str, i32)> = plan.ports.iter().map(|port| (port.name.as_str(), port.port)).collect();
    assert_eq!(ports, vec![("one-80-http", 80), ("one-443-https", 443)]);
    for listener in gateway().listeners() {
        assert!(plan.ports.iter().any(|port| port.port == listener.port()));
    }
    assert_eq!(plan.selector.get(&"app".to_owned()), Some(&"one".to_owned()));
}

#[test]
fn addresses_are_found() {
    assert_eq!(find_gateway_addresses(&service(None)), None);
    assert_eq!(find_gateway_addresses(&service(Some(vec![None]))), None);
    let found = service(Some(vec![
        None,
        Some(("10.0.0.2", Some(vec![10, 0, 0, 2]))),
        Some(("not an address", None)),
        Some(("10.0.0.1", Some(vec![10, 0, 0, 1]))),
    ]));
    assert_eq!(find_gateway_addresses(&found).unwrap().len(), 3);
    let mut gateway = gateway();
    assert!(!update_addresses(&mut gateway, &service(None)));
    assert!(update_addresses(&mut gateway, &found));
    assert_eq!(
        gateway.addresses().items(),
        &vec![GatewayAddress::IPAddress(vec![10, 0, 0, 1]), GatewayAddress::IPAddress(vec![10, 0, 0, 2])],
    );
}

#[test]
fn envoy_is_deployed() {
    let mut gateway = gateway();
    let mut secure = gateway.listener("secure").unwrap().dup();
    if let Some(TlsType::Terminate(certificates)) = &mut secure.data_mut().config.tls_type {
        certificates[0] = certificates[0].resolve();
        assert!(matches!(certificates[0], Certificate::ResolvedSameSpace(_)));
    }
    gateway.set_listener(secure);
    let plan = deploy_envoy(&config(), &gateway, Ok("content".to_owned())).unwrap();
    assert_eq!(plan.field_manager, "controller");
    assert_eq!(plan.config_map.name, "one-bootstrap-cm");
    assert_eq!(plan.config_map.data.get(&"envoy-bootstrap.yaml".to_owned()), Some(&"content".to_owned()));
    assert_eq!(plan.deployment.replicas, 1);
    assert_eq!(plan.deployment.volumes.len(), 2);
    let secrets = plan.deployment.volumes[1].projected.as_ref().unwrap();
    assert_eq!(secrets.len(), 1);
    assert_eq!(secrets[0].name, "tls");
    assert_eq!(secrets[0].items[0].path, "tls_space_cert.pem");
    let version = plan.deployment.annotations.unwrap();
    assert!(uuid::Uuid::parse_str(version.get(&"gateway-version".to_owned()).unwrap()).is_ok());
    let failure = Err(TemplateError { template: "t".to_owned() });
    assert_eq!(deploy_envoy(&config(), &gateway, failure).unwrap_err().template, "t");
}

#[test]
fn changes_raise_versions_and_deletions_restart_them() {
    let mut deployer = EnvoyDeployer::new();
    let gateway = gateway();
    let first = deployer.changed(gateway.key());
    assert_eq!((first.cluster(), first.listener()), (0, 0));
    assert!(deployer.has_versions(gateway.key()));
    let second = deployer.changed(gateway.key());
    assert_eq!((second.cluster(), second.listener()), (1, 1));
    let (deletions, response) = deployer.deleted(&gateway);
    assert_eq!(deletions.len(), 5);
    assert_eq!(deletions[0], Deletion::ServiceAccount("one".to_owned()));
    assert_eq!(deletions[4], Deletion::ConfigMap("one-bootstrap-cm".to_owned()));
    assert!(matches!(response, BackendGatewayResponse::Deleted(list) if list.is_empty()));
    assert_eq!(deployer.changed(gateway.key()).cluster(), 0);
}

#[test]
fn deployed_gateways_are_told_of() {
    let mut deployer = EnvoyDeployer::new();
    let versions = deployer.changed(gateway().key());
    let found = service(Some(vec![Some(("10.0.0.1", Some(vec![10, 0, 0, 1])))]));
    let actions = EnvoyDeployer::deployed(context(), &versions, vec![], vec![], Some(found));
    assert_eq!(actions.len(), 3);
    match &actions[2] {
        DeployerAction::Follow(FollowUp::Respond(BackendGatewayResponse::ProcessedWithContext {
            gateway,
            gateway_class_name,
            ..
        })) => {
            assert_eq!(gateway.addresses().len(), 1);
            assert_eq!(gateway_class_name, "class");
        }
        other => panic!("{other:?}"),
    }
    let waiting = EnvoyDeployer::deployed(context(), &versions, vec![], vec![], Some(service(None)));
    assert!(matches!(&waiting[2], DeployerAction::Follow(FollowUp::PollAddress { .. })));
    let failed = EnvoyDeployer::deployed(context(), &versions, vec![], vec![], None);
    assert_eq!(failed.len(), 1);
    let found = service(Some(vec![Some(("10.0.0.1", Some(vec![10, 0, 0, 1])))]));
    assert!(matches!(
        polled(&context(), Some(found)),
        (Some(BackendGatewayResponse::ProcessedWithContext { .. }), true)
    ));
    assert!(matches!(polled(&context(), Some(service(None))), (None, false)));
    assert!(matches!(polled(&context(), None), (Some(BackendGatewayResponse::Processed(_)), false)));
}

#[test]
fn agentgateway_is_deployed() {
    let plan = agentgateway::deploy_agentgateway(&config(), &gateway(), Ok("content".to_owned())).unwrap();
    assert_eq!(plan.deployment.volumes.len(), 1);
    assert_eq!(plan.deployment.volumes[0].name, "agentgateway-config");
    assert_eq!(
        plan.config_map.data.get(&"agentgateway-bootstrap.yaml".to_owned()),
        Some(&"content".to_owned()),
    );
    let (told, actions, follow) = agentgateway::deployed(context(), Some(service(None)));
    assert_eq!(told.len(), 3);
    let (resources, workloads) = actions.unwrap();
    assert_eq!((resources, workloads), agentgateway::server_updates(&gateway()));
    assert!(matches!(follow, FollowUp::PollAddress { .. }));
    let (told, actions, follow) = agentgateway::deployed(context(), None);
    assert!(told.is_empty());
    assert!(actions.is_none());
    assert!(matches!(follow, FollowUp::Respond(BackendGatewayResponse::Processed(_))));
    let (told, processed, deleted) = agentgateway::deleted(&gateway());
    assert_eq!(told.len(), 3);
    assert!(matches!(processed, BackendGatewayResponse::Processed(_)));
    assert!(matches!(deleted, BackendGatewayResponse::Deleted(_)));
}

#[test]
fn files_are_deployed() {
    let data = XdsData::new(
        "L".to_owned(),
        vec![RdsData::new("one-80-route".to_owned(), "R".to_owned())],
        "C".to_owned(),
    );
    let plan = file_deployer::deploy_envoy(&gateway(), Some((data, "B".to_owned())));
    assert_eq!(plan.config_maps.len(), 2);
    assert_eq!(plan.config_maps[0].name, "one-xds-cm");
    assert_eq!(plan.config_maps[0].data.get(&"lds.yaml".to_owned()), Some(&"L".to_owned()));
    assert_eq!(plan.config_maps[0].data.len(), 3);
    assert_eq!(plan.deployment.replicas, 2);
    assert_eq!(file_deployer::deploy_envoy(&gateway(), None).config_maps.len(), 0);
    assert!(matches!(file_deployer::deployed(gateway(), None), GatewayResponse::GatewayProcessingError));
    let unchanged = file_deployer::deployed(gateway(), Some(service(None)));
    assert!(matches!(unchanged, GatewayResponse::GatewayProcessed(_)));
    assert!(matches!(file_deployer::deleted(), GatewayResponse::GatewayDeleted(_)));
}

#[test]
fn changes_are_answered() {
    assert!(matches!(
        answer(BackendGatewayEvent::GatewayChanged(gateway())),
        GatewayResponse::GatewayProcessed(_)
    ));
    assert!(matches!(
        answer(BackendGatewayEvent::GatewayDeleted(gateway())),
        GatewayResponse::GatewayDeleted(_)
    ));
    match answer(BackendGatewayEvent::RouteChanged(gateway())) {
        GatewayResponse::RouteProcessed(payload) => {
            assert_eq!(payload.route_status, RouteStatus::Attached);
            assert_eq!(payload.deployed_gateway_status.name, "one");
        }
        other => panic!("{other:?}"),
    }
    let shown = gateway_deployer::BackendGatewayEvent::GatewayChanged(gateway()).to_text("");
    assert_eq!(shown, "GatewayEvent::GatewayChanged\n                Gateway one.space listeners = 3 ");
}

fn read(name: &str, port: i32, protocol: &str) -> Listener {
    Listener::try_from(&listener(name, port, protocol)).unwrap()
}

#[test]
fn listeners_must_be_distinct() {
    let mut listeners = Listeners::new();
    assert_eq!(listeners.update(read("a", 80, "HTTP")), Ok(ListenerStatus::Added));
    assert_eq!(
        listeners.update(read("b", 80, "HTTP")),
        Err(ListenerError::NotDistinct("b".to_owned(), 80, ProtocolType::Http, None)),
    );
    assert_eq!(listeners.update(read("a", 80, "HTTP")), Ok(ListenerStatus::AlreadyConfigured));
    assert_eq!(listeners.update(read("a", 81, "HTTP")), Ok(ListenerStatus::Updated));
    assert_eq!(listeners.update(read("c", 80, "TCP")), Ok(ListenerStatus::Added));
    assert_eq!(ListenerStatus::AlreadyConfigured.to_text(), "AlreadyConfigured");
}

#[test]
fn removing_a_listener_frees_its_place() {
    let mut listeners = Listeners::new();
    assert_eq!(listeners.update(read("a", 80, "HTTP")), Ok(ListenerStatus::Added));
    assert!(listeners.remove(&"a".to_owned()).unwrap().is_some());
    assert_eq!(listeners.update(read("b", 80, "HTTP")), Ok(ListenerStatus::Added));
    listeners.delete_listeners();
    assert_eq!(listeners.update(read("c", 80, "HTTP")), Ok(ListenerStatus::Added));
}

#[test]
fn distinct_listeners_are_added_once() {
    let mut listeners = Listeners::new();
    let all = vec![read("b", 80, "HTTP"), read("a", 81, "HTTP"), read("c", 80, "TCP")];
    let first = listeners.update_listeners(&all);
    let names: Vec<&str> = first.iter().map(|(name, _)| name.as_str()).collect();
    assert_eq!(names, vec!["b", "a", "c"]);
    assert!(first.iter().all(|(_, outcome)| *outcome == Ok(ListenerStatus::Added)));
    let second = listeners.update_listeners(&all);
    assert_eq!(second.len(), 3);
    assert!(second.iter().all(|(_, outcome)| *outcome == Ok(ListenerStatus::AlreadyConfigured)));
}

#[test]
fn listeners_given_again_are_not_added() {
    let mut listeners = Listeners::new();
    listeners.update_listeners(&vec![read("gone", 80, "HTTP"), read("a", 81, "HTTP")]);
    let all = vec![read("a", 82, "HTTP"), read("b", 80, "HTTP"), read("c", 80, "HTTP")];
    let first: Vec<_> = listeners.update_listeners(&all).into_iter().map(|(_, outcome)| outcome).collect();
    let taken = || Err(ListenerError::NotDistinct("c".to_owned(), 80, ProtocolType::Http, None));
    assert_eq!(first, vec![Ok(ListenerStatus::Updated), Ok(ListenerStatus::Added), taken()]);
    let second: Vec<_> = listeners.update_listeners(&all).into_iter().map(|(_, outcome)| outcome).collect();
    assert_eq!(second, vec![Ok(ListenerStatus::Updated), Ok(ListenerStatus::AlreadyConfigured), taken()]);
    assert!(listeners.remove(&"gone".to_owned()).unwrap().is_none());
    assert!(listeners.remove(&"c".to_owned()).unwrap().is_none());
    assert!(listeners.remove(&"b".to_owned()).unwrap().is_some());
}

#[test]
fn gateways_are_updated_by_events() {
    let mut gateways = Gateways::new();
    let changed = |listeners: Vec<Listener>| GatewayEvent::GatewayChanged("one".to_owned(), listeners, vec![]);
    assert_eq!(
        changed(vec![]).to_text("L", "R"),
        "GatewayEvent::GatewayChanged one listeners L routes R",
    );
    match gateways.on_event(changed(vec![read("a", 80, "HTTP"), read("b", 80, "HTTP")])) {
        gateways::GatewayResponse::GatewayProcessed(payload) => {
            assert_eq!(payload.listeners[0].1, Ok(ListenerStatus::Added));
            assert!(payload.listeners[1].1.is_err());
        }
        other => panic!("{other:?}"),
    }
    match gateways.on_event(changed(vec![read("b", 80, "HTTP")])) {
        gateways::GatewayResponse::GatewayProcessed(payload) => {
            assert_eq!(payload.listeners[0].1, Ok(ListenerStatus::Added));
        }
        other => panic!("{other:?}"),
    }
    assert!(matches!(
        gateways.on_event(GatewayEvent::GatewayDeleted("one".to_owned())),
        gateways::GatewayResponse::GatewayDeleted
    ));
    match gateways.on_event(changed(vec![read("b", 80, "HTTP")])) {
        gateways::GatewayResponse::GatewayProcessed(payload) => {
            assert_eq!(payload.listeners[0].1, Ok(ListenerStatus::Added));
        }
        other => panic!("{other:?}"),
    }
}
