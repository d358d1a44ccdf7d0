//! Gateways, listeners and routes as they are read from the cluster.
use kubvernor::common::backend::{Backend, BackendType};
use kubvernor::common::certificate::Certificate;
use kubvernor::common::contexts::{
    BackendGatewayEvent, ChangedContext, DeletedContext, RouteToListenersMapping, add_finalizer,
    add_finalizer_to_gateway_class, calculate_attached_routes,
};
use kubvernor::common::gateway::{Gateway, GatewayError, GatewayImplementationType};
use kubvernor::common::kube::{
    AllowedRoutes, BackendReference, CertificateRef, FilterType, GRPCRoute, GRPCRouteRule, GatewayListener,
    HTTPRoute, HTTPRouteFilter, HTTPRouteRule, HeaderModifier, HttpHeader, KubeGateway, ListenerTls, ObjectMeta,
    PathMatchType, RequestRedirect, TlsMode,
};
use kubvernor::common::listener::{Listener, ListenerError, ProtocolType, TlsType, validate_allowed_routes};
use kubvernor::common::resolved_refs::ResolvedRefs;
use kubvernor::common::listener::ListenerCondition;
use kubvernor::common::resource_key::ResourceKey;
use kubvernor::common::route::{
    NotResolvedReason, ResolutionStatus, Route, RouteStatus, RouteType, get_http_default_rules_matches,
};
use kubvernor::common::verify::VerifiyItems;
use kubvernor::model::Model;

const UID: &str = "550e8400-e29b-41d4-a716-446655440000";

fn meta(name: &str) -> ObjectMeta {
    ObjectMeta {
        name: Some(name.to_owned()),
        generate_name: None,
        namespace: Some("space".to_owned()),
        uid: Some(UID.to_owned()),
    }
}

fn listener(name: &str, protocol: &str) -> GatewayListener {
    GatewayListener {
        name: name.to_owned(),
        port: 8080,
        protocol: protocol.to_owned(),
        hostname: Some("a.example".to_owned()),
        tls: None,
        allowed_routes: None,
    }
}

fn kube_gateway(listeners: Vec<GatewayListener>) -> KubeGateway {
    KubeGateway { metadata: meta("one"), listeners }
}

#[test]
fn gateways_are_read() {
    let gateway = Gateway::try_from(&kube_gateway(vec![listener("b", "HTTP"), listener("a", "TCP")])).unwrap();
    assert_eq!(gateway.id(), uuid::Uuid::parse_str(UID).unwrap().as_u128());
    assert_eq!(gateway.key(), &ResourceKey::namespaced("one", "space"));
    let names: Vec<&str> = gateway.listeners().iter().map(|l| l.name()).collect();
    assert_eq!(names, vec!["a", "b"]);
    assert_eq!(gateway.listener("a").unwrap().protocol(), ProtocolType::Tcp);
    assert!(gateway.listener("c").is_none());
    assert_eq!(gateway.backend_type(), &GatewayImplementationType::Envoy);
    assert_eq!(gateway.orphaned_routes().len(), 0);
    let other = Gateway::try_from((&kube_gateway(vec![]), GatewayImplementationType::Agentgateway)).unwrap();
    assert_eq!(other.backend_type(), &GatewayImplementationType::Agentgateway);
    assert_eq!(gateway, other);
}

#[test]
fn gateways_that_cannot_be_read() {
    let mut no_identifier = kube_gateway(vec![]);
    no_identifier.metadata.uid = Some("not an identifier".to_owned());
    let error = Gateway::try_from(&no_identifier).unwrap_err();
    assert_eq!(error, GatewayError::ConversionProblem("Can't parse uuid".to_owned()));
    no_identifier.metadata.uid = None;
    assert!(Gateway::try_from(&no_identifier).is_err());
    let misconfigured = kube_gateway(vec![listener("a", "HTTP"), listener("b", "SCTP")]);
    let error = Gateway::try_from(&misconfigured).unwrap_err();
    assert_eq!(error, GatewayError::ConversionProblem("Misconfigured listeners".to_owned()));
}

#[test]
fn data_planes_go_by_names() {
    let named = |name: &str| GatewayImplementationType::try_from(Some(&name.to_owned()));
    assert_eq!(named("agentgateway"), Ok(GatewayImplementationType::Agentgateway));
    assert_eq!(named("envoy"), Ok(GatewayImplementationType::Envoy));
    assert_eq!(named("other"), Err("Invalid backend type ".to_owned()));
    assert_eq!(GatewayImplementationType::try_from(None), Ok(GatewayImplementationType::Envoy));
}

#[test]
fn listeners_are_read() {
    let http = Listener::try_from(&listener("a", "HTTP")).unwrap();
    assert_eq!(http.port(), 8080);
    assert_eq!(http.hostname(), Some(&"a.example".to_owned()));
    assert_eq!(http.conditions().len(), 1);
    assert_eq!(http.attached_routes(), 0);
    let unknown = Listener::try_from(&listener("a", "SCTP")).unwrap_err();
    assert_eq!(unknown, ListenerError::UnknownProtocol("SCTP".to_owned()));
    let mut secure = listener("a", "HTTPS");
    secure.tls = Some(ListenerTls { mode: None, certificate_refs: None });
    assert_eq!(Listener::try_from(&secure).unwrap_err(), ListenerError::UnknownTlsMode);
    secure.tls = Some(ListenerTls {
        mode: Some(TlsMode::Terminate),
        certificate_refs: Some(vec![CertificateRef {
            group: None,
            kind: Some("Secret".to_owned()),
            name: "tls".to_owned(),
            namespace: None,
        }]),
    });
    let read = Listener::try_from(&secure).unwrap();
    let expected = ResourceKey {
        group: "gateway.networking.k8s.io".to_owned(),
        namespace: "default".to_owned(),
        name: "tls".to_owned(),
        kind: "Secret".to_owned(),
    };
    assert_eq!(read.config().tls_type, Some(TlsType::Terminate(vec![Certificate::NotResolved(expected)])));
    secure.tls = Some(ListenerTls { mode: Some(TlsMode::Passthrough), certificate_refs: None });
    assert_eq!(Listener::try_from(&secure).unwrap().config().tls_type, Some(TlsType::Passthrough));
}

#[test]
fn certificates_change_their_state() {
    let certificate = Certificate::NotResolved(ResourceKey::new("tls"));
    assert!(matches!(certificate.resolve(), Certificate::ResolvedSameSpace(_)));
    assert!(matches!(certificate.resolve_cross_space(), Certificate::ResolvedCrossSpace(_)));
    assert!(matches!(certificate.resolve().not_resolved(), Certificate::NotResolved(_)));
    assert!(matches!(certificate.invalid(), Certificate::Invalid(_)));
    assert_eq!(certificate.resolve().resouce_key(), &ResourceKey::new("tls"));
}

#[test]
fn kinds_of_routes_are_validated() {
    let with_kinds = |kinds: &[&str]| {
        let mut made = listener("a", "HTTP");
        made.allowed_routes =
            Some(AllowedRoutes { kinds: Some(kinds.iter().map(|kind| (*kind).to_owned()).collect()) });
        validate_allowed_routes(&made)
    };
    let supported = |condition: ListenerCondition| match condition {
        ListenerCondition::ResolvedRefs(ResolvedRefs::Resolved(kinds)) => Some(kinds),
        _ => None,
    };
    assert_eq!(supported(with_kinds(&["HTTPRoute"])), Some(vec!["HTTPRoute".to_owned()]));
    assert!(matches!(
        with_kinds(&["Other"]),
        ListenerCondition::ResolvedRefs(ResolvedRefs::InvalidAllowedRoutes)
    ));
    assert!(matches!(
        with_kinds(&["Other", "TCPRoute"]),
        ListenerCondition::ResolvedRefs(ResolvedRefs::ResolvedWithNotAllowedRoutes(_))
    ));
    assert_eq!(
        supported(validate_allowed_routes(&listener("a", "HTTPS"))),
        Some(vec!["HTTPRoute".to_owned(), "GRPCRoute".to_owned()]),
    );
    assert_eq!(supported(validate_allowed_routes(&listener("a", "TCP"))), Some(vec![]));
}

fn reference(name: &str, kind: Option<&str>, namespace: Option<&str>) -> BackendReference {
    BackendReference {
        kind: kind.map(str::to_owned),
        name: name.to_owned(),
        namespace: namespace.map(str::to_owned),
        port: Some(80),
        weight: None,
    }
}

fn http_route(backends: Vec<BackendReference>, filters: Option<Vec<HTTPRouteFilter>>) -> HTTPRoute {
    HTTPRoute {
        metadata: meta("route"),
        parent_refs: None,
        hostnames: None,
        rules: Some(vec![HTTPRouteRule { matches: None, filters, backend_refs: Some(backends) }]),
    }
}

#[test]
fn routes_are_read() {
    let read = Route::try_from(&http_route(
        vec![
            reference("svc", None, None),
            reference("svc", Some("Service"), Some("default")),
            reference("pool", Some("InferencePool"), None),
        ],
        None,
    ))
    .unwrap();
    assert_eq!(read.name(), "route");
    assert_eq!(read.namespace(), "space");
    assert_eq!(
        read.resolution_status(),
        &ResolutionStatus::NotResolved(NotResolvedReason::Unknown),
    );
    let backends = read.backends();
    match &backends[0] {
        Backend::Maybe(BackendType::Service(config)) => {
            assert_eq!(config.endpoint, "svc.space");
            assert_eq!((config.port, config.effective_port, config.weight), (80, 80, 1));
        }
        other => panic!("{other:?}"),
    }
    match &backends[1] {
        Backend::Maybe(BackendType::Service(config)) => assert_eq!(config.endpoint, "svc"),
        other => panic!("{other:?}"),
    }
    match &backends[2] {
        Backend::Maybe(BackendType::InferencePool(config)) => {
            assert_eq!(config.resource_key.group, "inference.networking.k8s.io");
            assert_eq!(config.target_ports, vec![80]);
        }
        other => panic!("{other:?}"),
    }
    assert!(read.effective_routing_rules().is_empty());
    let everything = get_http_default_rules_matches();
    let path = everything.path.as_ref().unwrap();
    assert_eq!(path.match_type, Some(PathMatchType::PathPrefix));
    assert_eq!(path.value, Some("/".to_owned()));
    let mut matched = http_route(vec![reference("svc", None, None)], None);
    matched.rules.as_mut().unwrap()[0].matches = Some(vec![everything]);
    let effective = Route::try_from(&matched).unwrap().effective_routing_rules();
    assert_eq!(effective.len(), 1);
    assert_eq!(effective[0].name, "route-0");
    assert_eq!(effective[0].hostnames, vec!["*".to_owned()]);
}

#[test]
fn routes_with_backends_of_other_kinds() {
    let read = Route::try_from(&http_route(vec![reference("x", Some("Other"), None)], None)).unwrap();
    assert_eq!(
        read.resolution_status(),
        &ResolutionStatus::NotResolved(NotResolvedReason::InvalidBackend),
    );
    let grpc = GRPCRoute {
        metadata: meta("grpc"),
        parent_refs: None,
        hostnames: None,
        rules: Some(vec![GRPCRouteRule {
            matches: None,
            filters: None,
            backend_refs: Some(vec![reference("pool", Some("InferencePool"), None)]),
        }]),
    };
    let read = Route::try_from(&grpc).unwrap();
    assert!(matches!(read.backends()[0], Backend::Invalid(_)));
    assert!(matches!(read.route_type(), RouteType::Grpc(_)));
    assert!(read.effective_routing_rules().is_empty());
    assert!(read.routing_rules().is_empty());
}

#[test]
fn filters_change_headers_and_redirect() {
    let header = |name: &str| HttpHeader { name: name.to_owned(), value: "v".to_owned() };
    let filters = vec![
        HTTPRouteFilter {
            filter_type: FilterType::RequestHeaderModifier,
            request_header_modifier: Some(HeaderModifier {
                add: Some(vec![header("a")]),
                remove: Some(vec!["r".to_owned()]),
                set: Some(vec![header("s")]),
            }),
            request_redirect: None,
        },
        HTTPRouteFilter {
            filter_type: FilterType::RequestRedirect,
            request_header_modifier: None,
            request_redirect: Some(RequestRedirect { hostname: Some("to".to_owned()), status_code: Some(302) }),
        },
    ];
    let read = Route::try_from(&http_route(vec![], Some(filters))).unwrap();
    let rule = &read.routing_rules()[0];
    let headers = rule.filter_headers();
    assert_eq!(headers.add, vec![header("a")]);
    assert_eq!(headers.remove, vec!["r".to_owned()]);
    assert_eq!(headers.set, vec![header("s")]);
    assert_eq!(rule.redirect_filter().unwrap().hostname, Some("to".to_owned()));
}

#[test]
fn results_are_told_apart() {
    let items: Vec<Result<u8, &str>> = vec![Ok(1), Err("a"), Ok(2), Err("b")];
    assert_eq!(VerifiyItems::verify(items), (vec![1, 2], vec!["a", "b"]));
}

#[test]
fn routes_are_attached_to_listeners() {
    let route = Route::try_from(&http_route(vec![], None)).unwrap();
    let mappings = vec![RouteToListenersMapping::new(
        route,
        vec![listener("a", "HTTP"), listener("b", "HTTP")],
    )];
    let attached = calculate_attached_routes(&mappings);
    assert_eq!(attached.len(), 2);
    assert_eq!(attached.get(&"a".to_owned()).unwrap().len(), 1);
    assert!(mappings[0].to_text().contains("  Listener(name: a port: 8080), "));
}

#[test]
fn finalizers_are_added() {
    let gateway = add_finalizer(&ResourceKey::new("one"), "controller");
    assert_eq!(gateway.finalizer_name, "controller");
    assert_eq!(gateway.resource_key, ResourceKey::new("one"));
    let class = add_finalizer_to_gateway_class("class", "controller");
    assert_eq!(class.finalizer_name, "gateway-exists-finalizer.gateway.networking.k8s.io");
    assert_eq!(class.controller_name, "controller");
}

#[test]
fn events_are_shown() {
    let kube_gateway = kube_gateway(vec![listener("a", "HTTP")]);
    let gateway = Gateway::try_from(&kube_gateway).unwrap();
    let changed = BackendGatewayEvent::Changed(ChangedContext {
        gateway: gateway.dup(),
        kube_gateway,
        gateway_class_name: "class".to_owned(),
    });
    assert_eq!(
        changed.to_text(""),
        "GatewayEvent::GatewayChanged Gateway one.space listeners = 1 ",
    );
    let deleted = BackendGatewayEvent::Deleted(DeletedContext { gateway });
    assert_eq!(deleted.to_text("ALL"), "GatewayEvent::GatewayDeleted gateway ALL");
    assert_eq!(RouteStatus::Attached.to_text(), "Attached");
}
