//! The resources that gateways call for.
use kubvernor::backends::agentgateway::deployer as agent_deployer;
use kubvernor::backends::agentgateway::resource_generator as agent;
use kubvernor::backends::agentgateway::resources as agent_resources;
use kubvernor::backends::agentgateway::server::ServerAction;
use kubvernor::backends::compactor::collapse_listeners_and_routes;
use kubvernor::backends::envoy::clusters::{
    check_extensions, create_service_cluster, generate_ext_service_cluster,
};
use kubvernor::backends::envoy::converters::{AnyTypeConverter, DurationConverter, SocketAddressFactory, socket_protocol};
use kubvernor::backends::envoy::inference::{InferenceClusterInfo, make_inference_cluster_name};
use kubvernor::backends::envoy::listeners::{create_resources, ports_fit};
use kubvernor::backends::envoy::resource_generator::{ResourceGenerator, hostname_pairs};
use kubvernor::backends::envoy::resources::{
    Action, DiscoveryType, EnvoyRoute, HeaderAppendAction, PathSpecifier, RedirectResponseCode,
    create_cluster_resource,
};
use kubvernor::backends::envoy::route_converters::headers_to_add;
use kubvernor::common::address::HostText;
use kubvernor::common::backend::{
    Backend, BackendType, BackendTypeConfig, ExtensionRef, InferencePoolConfig, InferencePoolTypeConfig,
    ServiceTypeConfig,
};
use kubvernor::common::contexts::RouteToListenersMapping;
use kubvernor::common::gateway::Gateway;
use kubvernor::common::kube::{
    BackendReference, GRPCMethodMatch, GRPCRoute, GRPCRouteMatch, GRPCRouteRule, GatewayListener, HTTPMethodMatch,
    HTTPRoute, HTTPRouteRule, HeaderMatch, HttpHeader, KubeGateway, MatchType, ObjectMeta, PathMatch,
    PathMatchType, RequestRedirect, RouteMatch,
};
use kubvernor::common::listener::ProtocolType;
use kubvernor::common::resource_key::ResourceKey;
use kubvernor::common::route::{Route, RouteType};
use kubvernor::common::route_set::RouteSet;
use kubvernor::model::Model;
use kubvernor::ordered::{OrderedMap, OrderedSet};

fn meta(name: &str) -> ObjectMeta {
    ObjectMeta {
        name: Some(name.to_owned()),
        generate_name: None,
        namespace: Some("space".to_owned()),
        uid: Some("550e8400-e29b-41d4-a716-446655440000".to_owned()),
    }
}

fn listener(name: &str, port: i32, protocol: &str, hostname: Option<&str>) -> GatewayListener {
    GatewayListener {
        name: name.to_owned(),
        port,
        protocol: protocol.to_owned(),
        hostname: hostname.map(str::to_owned),
        tls: None,
        allowed_routes: None,
    }
}

fn path(how: PathMatchType, value: &str) -> RouteMatch {
    RouteMatch {
        headers: None,
        method: None,
        path: Some(PathMatch { match_type: Some(how), value: Some(value.to_owned()) }),
        query_params: None,
    }
}

fn reference(name: &str, kind: Option<&str>, weight: Option<i32>) -> BackendReference {
    BackendReference {
        kind: kind.map(str::to_owned),
        name: name.to_owned(),
        namespace: None,
        port: Some(8080),
        weight,
    }
}

fn http_route(matches: Vec<RouteMatch>, backends: Vec<BackendReference>) -> HTTPRoute {
    HTTPRoute {
        metadata: meta("route"),
        parent_refs: None,
        hostnames: Some(vec![HostText { text: "a.example".to_owned(), octets: None }]),
        rules: Some(vec![HTTPRouteRule { matches: Some(matches), filters: None, backend_refs: Some(backends) }]),
    }
}

fn resolved(mut route: Route) -> Route {
    let resolve = |backend: &Backend| match backend {
        Backend::Maybe(typed) => Backend::Resolved(typed.dup()),
        other => other.dup(),
    };
    if let RouteType::Http(configuration) = &mut route.config_mut().route_type {
        for rule in &mut configuration.routing_rules {
            rule.backends = rule.backends.iter().map(resolve).collect();
        }
        for rule in &mut configuration.effective_routing_rules {
            rule.backends = rule.backends.iter().map(resolve).collect();
        }
    }
    route
}

fn gateway_with(route: &Route) -> Gateway {
    let kube_gateway = KubeGateway {
        metadata: meta("one"),
        listeners: vec![listener("http", 80, "HTTP", Some("a.example")), listener("other", 80, "HTTP", None)],
    };
    let mut gateway = Gateway::try_from(&kube_gateway).unwrap();
    let mut attached = gateway.listener("http").unwrap().dup();
    let mut routes = RouteSet::new();
    routes.insert(route.dup());
    attached.update_routes(routes, RouteSet::new());
    gateway.set_listener(attached);
    gateway
}

fn pool() -> InferencePoolTypeConfig {
    InferencePoolTypeConfig {
        resource_key: ResourceKey::namespaced("pool", "space"),
        endpoint: "pool.space".to_owned(),
        port: 80,
        effective_port: 80,
        target_ports: vec![8000],
        weight: 1,
        inference_config: Some(InferencePoolConfig {
            extension_ref: ExtensionRef {
                failure_mode: None,
                group: None,
                kind: None,
                name: "picker".to_owned(),
                port_number: None,
            },
            target_port_number: 8000,
            selector: OrderedMap::new(),
        }),
        endpoints: Some(vec![HostText { text: "10.0.0.9".to_owned(), octets: Some(vec![10, 0, 0, 9]) }]),
    }
}

#[test]
fn routes_of_envoy_are_made_of_rules() {
    let rule = |matching: RouteMatch| {
        let route = Route::try_from(&http_route(
            vec![matching],
            vec![reference("svc", None, Some(3)), reference("idle", None, Some(0))],
        ))
        .unwrap();
        EnvoyRoute::from(route.effective_routing_rules().remove(0))
    };
    let made = rule(path(PathMatchType::PathPrefix, "/a/b/"));
    assert_eq!(made.name, "route-0_route");
    assert_eq!(made.path_specifier, PathSpecifier::PathSeparatedPrefix("/a/b".to_owned()));
    match &made.action {
        Action::Route(action) => {
            assert_eq!(action.clusters.len(), 1);
            assert_eq!(action.clusters[0].name, "svc.space");
            assert_eq!(action.clusters[0].weight, 3);
        }
        other => panic!("{other:?}"),
    }
    assert_eq!(rule(path(PathMatchType::PathPrefix, "/")).path_specifier, PathSpecifier::Prefix("/".to_owned()));
    assert_eq!(rule(path(PathMatchType::Exact, "/x")).path_specifier, PathSpecifier::Path("/x".to_owned()));
    assert_eq!(
        rule(path(PathMatchType::RegularExpression, "/x.*")).path_specifier,
        PathSpecifier::SafeRegex("/x.*".to_owned()),
    );
    let nothing = RouteMatch { headers: None, method: None, path: None, query_params: None };
    assert_eq!(rule(nothing).path_specifier, PathSpecifier::Path("/".to_owned()));
}

#[test]
fn redirections_have_statuses() {
    let redirect = |status: Option<i32>| {
        let route =
            Route::try_from(&http_route(vec![path(PathMatchType::Exact, "/x")], vec![])).unwrap();
        let mut rule = route.effective_routing_rules().remove(0);
        rule.redirect_filter = Some(RequestRedirect { hostname: Some("to".to_owned()), status_code: status });
        match EnvoyRoute::from(rule).action {
            Action::Redirect(action) => (action.host_redirect, action.response_code),
            other => panic!("{other:?}"),
        }
    };
    assert_eq!(redirect(Some(302)), ("to".to_owned(), RedirectResponseCode::Found));
    assert_eq!(redirect(Some(303)).1, RedirectResponseCode::SeeOther);
    assert_eq!(redirect(Some(307)).1, RedirectResponseCode::TemporaryRedirect);
    assert_eq!(redirect(Some(308)).1, RedirectResponseCode::PermanentRedirect);
    assert_eq!(redirect(Some(301)).1, RedirectResponseCode::MovedPermanently);
    assert_eq!(redirect(None).1, RedirectResponseCode::MovedPermanently);
}

#[test]
fn headers_are_added_before_they_are_set() {
    let header = |name: &str| HttpHeader { name: name.to_owned(), value: "v".to_owned() };
    let options = headers_to_add(&vec![header("a")], &vec![header("s")]);
    assert_eq!(options[0].key, "a");
    assert_eq!(options[0].append_action, HeaderAppendAction::AppendIfExistsOrAdd);
    assert_eq!(options[1].key, "s");
    assert_eq!(options[1].append_action, HeaderAppendAction::OverwriteIfExistsOrAdd);
}

#[test]
fn grpc_methods_are_paths() {
    let rule = |method: Option<GRPCMethodMatch>| {
        let route = GRPCRoute {
            metadata: meta("grpc"),
            parent_refs: None,
            hostnames: None,
            rules: Some(vec![GRPCRouteRule {
                matches: Some(vec![GRPCRouteMatch { headers: None, method }]),
                filters: None,
                backend_refs: Some(vec![reference("svc", None, None)]),
            }]),
        };
        let route = Route::try_from(&route).unwrap();
        match route.route_type() {
            RouteType::Grpc(configuration) => {
                EnvoyRoute::from(configuration.effective_routing_rules[0].dup()).path_specifier
            }
            RouteType::Http(_) => panic!("not a gRPC route"),
        }
    };
    let method = |match_type: Option<MatchType>, method: Option<&str>| {
        Some(GRPCMethodMatch {
            method: method.map(str::to_owned),
            service: Some("svc.Echo".to_owned()),
            match_type,
        })
    };
    assert_eq!(
        rule(method(Some(MatchType::Exact), Some("Say"))),
        PathSpecifier::Path("/svc.Echo/Say".to_owned()),
    );
    assert_eq!(
        rule(method(Some(MatchType::RegularExpression), None)),
        PathSpecifier::SafeRegex("/svc.Echo".to_owned()),
    );
    assert_eq!(rule(method(None, None)), PathSpecifier::Prefix("/".to_owned()));
    assert_eq!(rule(None), PathSpecifier::Prefix("/".to_owned()));
}

#[test]
fn clusters_are_made_of_services() {
    let config = ServiceTypeConfig {
        resource_key: ResourceKey::namespaced("svc", "space"),
        endpoint: "svc.space".to_owned(),
        port: 80,
        effective_port: 8080,
        weight: 2,
    };
    assert_eq!(config.cluster_name(), "svc.space");
    let route = Route::try_from(&http_route(vec![], vec![])).unwrap();
    let holder = create_service_cluster(&config, route.route_type());
    assert_eq!(holder.name, "svc.space");
    assert_eq!(holder.cluster.cluster_discovery_type, Some(DiscoveryType::StrictDns));
    assert_eq!(holder.cluster.connect_timeout.nanos, 250_000_000);
    assert_eq!(holder.cluster.lb_endpoints[0].address.address, "svc.space");
    assert_eq!(holder.cluster.lb_endpoints[0].address.port, 8080);
    assert_eq!(holder.cluster.lb_endpoints[0].load_balancing_weight, 2);
    let resource = create_cluster_resource(&holder.cluster, vec![1, 2]);
    assert_eq!(resource.name, "svc.space");
    assert_eq!(resource.resource.value, vec![1, 2]);
    assert_eq!(resource.resource.type_url, "type.googleapis.com/envoy.config.cluster.v3.Cluster");
}

#[test]
fn clusters_are_made_of_extensions() {
    let mut info = InferenceClusterInfo {
        cluster_name: make_inference_cluster_name("r_route".to_owned()),
        config: pool(),
    };
    assert!(check_extensions(&vec![info.dup()]));
    let made = generate_ext_service_cluster(&info).unwrap();
    assert_eq!(made.name, "r_route-extsvc");
    assert_eq!(made.cluster.lb_endpoints[0].address.address, "picker.space");
    assert_eq!(made.cluster.lb_endpoints[0].address.port, 9002);
    assert_eq!(made.cluster.transport_socket.unwrap().name, "r_route-extsvc_tls");
    info.config.inference_config = None;
    assert!(generate_ext_service_cluster(&info).is_none());
}

#[test]
fn gateways_become_listeners_and_clusters() {
    let route = resolved(
        Route::try_from(&http_route(
            vec![path(PathMatchType::Exact, "/x")],
            vec![reference("svc", None, Some(1))],
        ))
        .unwrap(),
    );
    let gateway = gateway_with(&route);
    let pairs = hostname_pairs(gateway.listener("http").unwrap());
    assert_eq!(pairs, vec![("a.example".to_owned(), vec!["a.example".to_owned()])]);
    let matches = OrderedSet::gather(&pairs);
    assert!(ports_fit(&gateway, &matches));
    let made = create_resources(&gateway, &matches);
    assert_eq!(made.listeners.len(), 1);
    let listener = &made.listeners[0];
    assert_eq!(listener.address.port, 80);
    assert_eq!(listener.address.address, "0.0.0.0");
    let hosts = &listener.connection_manager.virtual_hosts;
    let host = hosts.iter().find(|host| host.name == "http-a.example").unwrap();
    assert_eq!(host.domains, vec!["a.example:*".to_owned(), "a.example".to_owned()]);
    assert_eq!(host.routes.len(), 1);
    assert_eq!(made.clusters.len(), 1);
    assert_eq!(made.clusters[0].name, "svc.space");

    let nothing_matches = OrderedSet::new();
    let made = create_resources(&gateway, &nothing_matches);
    let hosts = &made.listeners[0].connection_manager.virtual_hosts;
    assert!(hosts.iter().all(|host| host.routes.is_empty()));
}

#[test]
fn listeners_stand_under_their_ports() {
    let kube_gateway = KubeGateway {
        metadata: meta("one"),
        listeners: vec![
            listener("b", 8080, "HTTP", None),
            listener("a", 80, "HTTP", Some("a.example")),
            listener("c", 80, "HTTP", Some("c.example")),
            listener("d", 53, "UDP", None),
        ],
    };
    let gateway = Gateway::try_from(&kube_gateway).unwrap();
    let mut generator = ResourceGenerator::new(&gateway);
    let ports: Vec<(i32, i32)> = generator
        .generate_envoy_listeners(&OrderedSet::new())
        .entries()
        .iter()
        .map(|(key, made)| (*key, made.port))
        .collect();
    assert_eq!(ports, vec![(80, 80), (8080, 8080)]);

    let bound = agent::ResourceGenerator::new(&gateway).generate_bindings_and_listeners();
    let keys: Vec<(&str, Vec<&str>)> = bound
        .entries()
        .iter()
        .map(|((bind, _), told)| (bind.as_str(), told.iter().map(|one| one.key.as_str()).collect()))
        .collect();
    assert_eq!(
        keys,
        vec![("bind-port-53", vec!["d"]), ("bind-port-80", vec!["a", "c"]), ("bind-port-8080", vec!["b"])],
    );
}

#[test]
fn the_generator_lists_the_clusters_of_pools() {
    let mut route = Route::try_from(&http_route(
        vec![path(PathMatchType::Exact, "/x")],
        vec![reference("pool", Some("InferencePool"), None)],
    ))
    .unwrap();
    let with_pool = vec![Backend::Resolved(BackendType::InferencePool(pool()))];
    if let RouteType::Http(configuration) = &mut route.config_mut().route_type {
        configuration.routing_rules[0].backends = with_pool.dup();
        configuration.effective_routing_rules[0].backends = with_pool;
    }
    let gateway = gateway_with(&route);
    let matches = OrderedSet::gather(&hostname_pairs(gateway.listener("http").unwrap()));
    let mut generator = ResourceGenerator::new(&gateway);
    assert_eq!(generator.generate_envoy_listeners(&matches).len(), 1);
    assert!(generator.ports_fit());
    let names: Vec<String> = generator.generate_envoy_clusters().iter().map(|c| c.name.clone()).collect();
    assert_eq!(names, vec!["pool.space".to_owned(), "route-0_route-extsvc".to_owned()]);
}

#[test]
fn values_take_the_form_of_envoy() {
    let any = AnyTypeConverter::from(("url".to_owned(), vec![7]));
    assert_eq!((any.type_url.as_str(), any.value), ("url", vec![7]));
    let duration = DurationConverter::from((2, 500));
    assert_eq!((duration.seconds, duration.nanos), (2, 500));
    let address = SocketAddressFactory::from_address_port(("h".to_owned(), 1));
    assert_eq!((address.address.as_str(), address.port), ("h", 1));
    assert_eq!(socket_protocol(ProtocolType::Udp), 1);
    assert_eq!(socket_protocol(ProtocolType::Tcp), 0);
}

#[test]
fn listeners_and_routes_are_collapsed() {
    let kube_gateway = KubeGateway {
        metadata: meta("one"),
        listeners: vec![
            listener("a", 80, "HTTP", None),
            listener("b", 80, "HTTP", Some("b.example")),
            listener("c", 443, "HTTPS", None),
        ],
    };
    let route = Route::try_from(&http_route(vec![], vec![])).unwrap();
    let mapping = RouteToListenersMapping::new(route, vec![listener("a", 80, "HTTP", None)]);
    let (listeners, routes) = collapse_listeners_and_routes(&kube_gateway, &vec![mapping]);
    assert_eq!(listeners.len(), 2);
    assert_eq!(routes.len(), 1);
}

#[test]
fn agentgateway_matches() {
    assert_eq!(agent::convert_method_match(Some(HTTPMethodMatch::Get)), Some("\"GET\"".to_owned()));
    assert_eq!(agent::convert_method_match(None), None);
    assert_eq!(agent::create_bind_name(8080), "bind-port-8080");
    assert_eq!(i32::from(ProtocolType::Udp), 6);
    let header = |how: Option<MatchType>| HeaderMatch {
        name: "n".to_owned(),
        match_type: how,
        value: "v".to_owned(),
    };
    let fields = agent::convert_headers(&Some(vec![
        header(Some(MatchType::Exact)),
        header(Some(MatchType::RegularExpression)),
        header(None),
    ]));
    assert_eq!(fields[0].value, Some(agent_resources::TextMatch::Exact("v".to_owned())));
    assert_eq!(fields[1].value, Some(agent_resources::TextMatch::Regex("v".to_owned())));
    assert_eq!(fields[2].value, None);
    let converted = agent::convert_route_match(&path(PathMatchType::PathPrefix, "/a"));
    assert_eq!(converted.path, Some(agent_resources::PathMatch::PathPrefix("/a".to_owned())));
}

#[test]
fn agentgateway_resources() {
    let mut route = Route::try_from(&http_route(
        vec![path(PathMatchType::Exact, "/x")],
        vec![reference("svc", None, Some(4))],
    ))
    .unwrap();
    if let RouteType::Http(configuration) = &mut route.config_mut().route_type {
        configuration.routing_rules[0].backends.push(Backend::Maybe(BackendType::InferencePool(pool())));
    }
    let gateway = gateway_with(&resolved(route));
    let generator = agent::ResourceGenerator::new(&gateway);
    let bound = generator.generate_bindings_and_listeners();
    assert_eq!(bound.len(), 1);
    let (bind, listeners) = &bound.entries()[0];
    assert_eq!(bind, &("bind-port-80".to_owned(), 80));
    assert_eq!(listeners.len(), 2);
    assert_eq!(listeners[0].key, "http");
    assert_eq!(listeners[0].hostname, "a.example");
    assert_eq!(listeners[1].hostname, "");
    assert_eq!(listeners[1].protocol, 1);

    let (routes, backends, policies, services) = generator.generate_routes_and_backends_and_policies();
    assert_eq!(routes.len(), 1);
    assert_eq!(routes[0].listener_key, "http");
    assert_eq!(routes[0].rule_name, "route-0");
    assert_eq!(routes[0].backends.len(), 2);
    assert_eq!(routes[0].backends[0].weight, 4);
    assert_eq!(
        routes[0].backends[0].backend.kind,
        agent_resources::BackendKind::Backend("space/svc".to_owned()),
    );
    assert_eq!(routes[0].backends[1].backend.port, 8000);
    let names: Vec<&str> = backends.iter().map(|backend| backend.name.as_str()).collect();
    assert_eq!(names, vec!["epp-backend-Policy-route-0-space.pool", "space/svc"]);
    assert_eq!(backends[0].host, "picker");
    assert_eq!(backends[0].port, 9002);
    assert_eq!(policies.len(), 1);
    assert_eq!(policies[0].name, "Policy-route-0-space.pool");
    assert_eq!(policies[0].target_service, "space/pool.space");
    assert_eq!(services.len(), 1);
    assert_eq!(services[0].addresses[0].address, vec![10, 0, 0, 9]);
    assert_eq!(services[0].ports[0].target_port, 8000);
    assert_eq!(generator.generate_routes(), routes);
    for backend in &routes[0].backends {
        if let agent_resources::BackendKind::Backend(name) = &backend.backend.kind {
            assert!(names.contains(&name.as_str()));
        }
    }
    assert_eq!(
        policies[0].endpoint_picker.as_ref().unwrap().kind,
        agent_resources::BackendKind::Backend("epp-backend-Policy-route-0-space.pool".to_owned()),
    );

    let (told, workloads) = agent_deployer::server_updates(&gateway);
    match told {
        ServerAction::UpdateResources { gateway_id, resources } => {
            assert_eq!(&gateway_id, gateway.key());
            assert_eq!(resources.len(), 1 + 2 + 1 + 2 + 1);
            assert!(matches!(&resources[3].kind, Some(agent_resources::Kind::Route(_))));
            assert!(matches!(&resources[6].kind, Some(agent_resources::Kind::Policy(_))));
        }
        other => panic!("{other:?}"),
    }
    assert!(matches!(workloads, ServerAction::UpdateWorkloads { workloads, .. } if workloads.len() == 1));

    let updates = agent_deployer::updates(&gateway);
    match &updates[0] {
        agent_deployer::ResourceChange::UpdateBindings { gateway_id, resources, ack_version } => {
            assert_eq!(gateway_id, gateway.key());
            assert_eq!(resources.len(), 1);
            assert_eq!(*ack_version, 1);
        }
        other => panic!("{other:?}"),
    }
    assert!(matches!(&updates[2], agent_deployer::ResourceChange::UpdateRoutes { .. }));
    let deletes = agent_deployer::deletes(&gateway);
    assert!(matches!(&deletes[0], agent_deployer::ResourceChange::DeleteRoutes { .. }));
    assert!(matches!(&deletes[2], agent_deployer::ResourceChange::DeleteBindings { .. }));
}
