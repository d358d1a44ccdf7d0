//! The files that are rendered with templates.
use kubvernor::backends::agentgateway::deployer as agentgateway;
use kubvernor::backends::envoy::deployer as envoy;
use kubvernor::backends::sources::check_source;
use kubvernor::backends::templates::{TemplateError, Templates, TemplatesError, TeraCluster, TeraEndpoint};
use kubvernor::backends::xds_generator::{EnvoyXDSGenerator, RdsData, XdsData, assemble};
use kubvernor::common::address::{ControlPlaneConfig, SocketAddress};
use kubvernor::common::gateway::Gateway;
use kubvernor::common::kube::{
    BackendReference, GatewayListener, HTTPRoute, HTTPRouteRule, KubeGateway, ObjectMeta, PathMatch,
    PathMatchType, RouteMatch,
};
use kubvernor::common::resource_key::ResourceKey;
use kubvernor::common::route::Route;
use kubvernor::common::route_set::RouteSet;
use kubvernor::model::Model;

const LDS: &str = "{% for l in listeners %}{{ l.name }} {{ l.port }} {{ l.route_name }} {{ l.ip_address }};{% endfor %}";
const RDS: &str = "{{ route.name }}:{% for h in route.virtual_hosts %}{{ h.hostname }}[{% for c in h.route_configs %}{% if c.path %}{{ c.path.match_type }}={{ c.path.path }}>{{ c.cluster_name }} {% endif %}{% endfor %}]{% endfor %}";
const CDS: &str = "{% for c in clusters %}{{ c.name }}{% for e in c.endpoints %} {{ e.service }}:{{ e.port }}x{{ e.weight }}{% endfor %};{% endfor %}";

fn sources(list: &[(&str, &str)]) -> Vec<(String, String)> {
    list.iter().map(|(name, text)| ((*name).to_owned(), (*text).to_owned())).collect()
}

fn templates(list: &[(&str, &str)]) -> Templates {
    match Templates::new(sources(list)) {
        Ok(templates) => templates,
        Err(error) => panic!("{error:?}"),
    }
}

fn meta(name: &str) -> ObjectMeta {
    ObjectMeta {
        name: Some(name.to_owned()),
        generate_name: None,
        namespace: Some("gateway-conformance-infra".to_owned()),
        uid: Some("550e8400-e29b-41d4-a716-446655440000".to_owned()),
    }
}

fn listener(name: &str, port: i32, protocol: &str, hostname: Option<&str>) -> GatewayListener {
    GatewayListener {
        name: name.to_owned(),
        port,
        protocol: protocol.to_owned(),
        hostname: hostname.map(str::to_owned),
        tls: None,
        allowed_routes: None,
    }
}

fn route(name: &str, paths: &[(PathMatchType, &str)]) -> Route {
    let matches = paths
        .iter()
        .map(|(how, path)| RouteMatch {
            headers: None,
            method: None,
            path: Some(PathMatch { match_type: Some(*how), value: Some((*path).to_owned()) }),
            query_params: None,
        })
        .collect();
    let route = HTTPRoute {
        metadata: meta(name),
        parent_refs: None,
        hostnames: None,
        rules: Some(vec![HTTPRouteRule {
            matches: Some(matches),
            filters: None,
            backend_refs: Some(vec![BackendReference {
                kind: None,
                name: "infra-backend-v1".to_owned(),
                namespace: None,
                port: Some(8080),
                weight: None,
            }]),
        }]),
    };
    Route::try_from(&route).unwrap()
}

fn attach(gateway: &mut Gateway, listener: &str, route: &Route) {
    let mut attached = gateway.listener(listener).unwrap().dup();
    let mut resolved = RouteSet::new();
    resolved.insert(route.dup());
    attached.update_routes(resolved, RouteSet::new());
    gateway.set_listener(attached);
}

fn isolation_gateway() -> Gateway {
    let hosts = [
        ("empty-hostname", None),
        ("wildcard-example-com", Some("*.example.com")),
        ("wildcard-foo-example-com", Some("*.foo.example.com")),
        ("abc-foo-example-com", Some("abc.foo.example.com")),
    ];
    let mut listeners = vec![];
    for (name, hostname) in hosts {
        listeners.push(listener(name, 80, "HTTP", hostname));
    }
    for (name, hostname) in hosts {
        listeners.push(listener(&format!("{name}-tcp"), 80, "TCP", hostname));
    }
    listeners.push(listener("empty-hostname-9090", 9090, "HTTP", None));
    listeners.push(listener("wildcard-example-com-9090", 9090, "HTTP", Some("*.example.com")));
    listeners.push(listener("wildcard-foo-example-com-9090", 9090, "HTTP", Some("*.foo.example.com")));
    listeners.push(listener("abc-foo-example-com-tcp-9090", 9090, "HTTP", Some("abc.foo.example.com")));
    let kube_gateway = KubeGateway { metadata: meta("http-listener-isolation"), listeners };
    let mut gateway = Gateway::try_from(&kube_gateway).unwrap();
    let route1 = route(
        "attaches-to-empty-hostname",
        &[(PathMatchType::PathPrefix, "/empty-hostname"), (PathMatchType::Exact, "/empty-hostname-2")],
    );
    let route2 = route(
        "attaches-to-wildcard-example-com",
        &[(PathMatchType::PathPrefix, "/wildcard-example-com")],
    );
    let route3 = route(
        "attaches-to-wildcard-foo-example-com",
        &[(PathMatchType::PathPrefix, "/wildcard-foo-example-com")],
    );
    let route4 = route(
        "attaches-to-abc-foo-example-com",
        &[(PathMatchType::PathPrefix, "/abc-foo-example-com")],
    );
    attach(&mut gateway, "empty-hostname", &route1);
    attach(&mut gateway, "empty-hostname-9090", &route1);
    attach(&mut gateway, "wildcard-example-com", &route2);
    attach(&mut gateway, "wildcard-example-com-9090", &route2);
    attach(&mut gateway, "wildcard-foo-example-com", &route3);
    attach(&mut gateway, "abc-foo-example-com", &route4);
    gateway
}

#[test]
fn test1() {
    let gateway = isolation_gateway();
    let generator = EnvoyXDSGenerator::new(&gateway);
    let collapsed = generator.collapse_listeners_and_routes();
    assert_eq!(collapsed.len(), 2);
    let first = collapsed.get(&80).unwrap();
    assert_eq!(first.http_listener_map.len(), 4);
    assert_eq!(first.tcp_listener_map.len(), 4);
    let second = collapsed.get(&9090).unwrap();
    assert_eq!(second.http_listener_map.len(), 2);
    assert_eq!(second.tcp_listener_map.len(), 0);

    let tera = templates(&[("lds.yaml.tera", LDS), ("rds.yaml.tera", RDS), ("cds.yaml.tera", CDS)]);
    let XdsData { lds_content, rds_content, cds_content } = generator.generate_xds(&tera).unwrap();
    assert_eq!(
        lds_content,
        "http-listener-isolation 80 http-listener-isolation-dynamic-route 0.0.0.0;\
         http-listener-isolation 9090 http-listener-isolation-dynamic-route 0.0.0.0;",
    );
    assert_eq!(rds_content.len(), 2);
    assert_eq!(rds_content[0].route_name, "http-listener-isolation-80-route");
    assert_eq!(
        rds_content[0].rds_content,
        "http-listener-isolation-80-route:\
         abc.foo.example.com[prefix=/abc-foo-example-com>attaches-to-abc-foo-example-com-0 ]\
         *[prefix=/empty-hostname>attaches-to-empty-hostname-0 path=/empty-hostname-2>attaches-to-empty-hostname-0 ]\
         *.example.com[prefix=/wildcard-example-com>attaches-to-wildcard-example-com-0 ]\
         *.foo.example.com[prefix=/wildcard-foo-example-com>attaches-to-wildcard-foo-example-com-0 ]",
    );
    assert_eq!(rds_content[1].route_name, "http-listener-isolation-9090-route");
    assert_eq!(
        cds_content,
        "attaches-to-abc-foo-example-com-0 infra-backend-v1.gateway-conformance-infra:8080x1;\
         attaches-to-empty-hostname-0 infra-backend-v1.gateway-conformance-infra:8080x1;\
         attaches-to-wildcard-example-com-0 infra-backend-v1.gateway-conformance-infra:8080x1;\
         attaches-to-wildcard-foo-example-com-0 infra-backend-v1.gateway-conformance-infra:8080x1;\
         attaches-to-empty-hostname-0 infra-backend-v1.gateway-conformance-infra:8080x1;\
         attaches-to-wildcard-example-com-0 infra-backend-v1.gateway-conformance-infra:8080x1;",
    );
}

#[test]
fn each_route_of_a_listener_is_hosted() {
    let kube_gateway = KubeGateway {
        metadata: meta("same"),
        listeners: vec![listener("one", 80, "HTTP", Some("a.example.com")), listener("two", 80, "HTTP", None)],
    };
    let mut gateway = Gateway::try_from(&kube_gateway).unwrap();
    let first = route("first", &[(PathMatchType::PathPrefix, "/first")]);
    let second = route("second", &[(PathMatchType::Exact, "/second")]);
    let mut attached = gateway.listener("one").unwrap().dup();
    let mut resolved = RouteSet::new();
    resolved.insert(second.dup());
    resolved.insert(first.dup());
    attached.update_routes(resolved, RouteSet::new());
    gateway.set_listener(attached);
    attach(&mut gateway, "two", &first);

    let generator = EnvoyXDSGenerator::new(&gateway);
    let collapsed = generator.collapse_listeners_and_routes();
    let hosts = &collapsed.get(&80).unwrap().http_listener_map;
    assert_eq!(hosts.len(), 3);
    let host = hosts.get(&("one".to_owned(), second.resource_key().dup())).unwrap();
    assert_eq!(host.name, "one");
    assert_eq!(host.hostname, Some("a.example.com".to_owned()));
    assert_eq!(host.route.resource_key(), second.resource_key());

    let tera = templates(&[("lds.yaml.tera", LDS), ("rds.yaml.tera", RDS), ("cds.yaml.tera", CDS)]);
    let made = generator.generate_xds(&tera).unwrap();
    assert_eq!(
        made.rds_content,
        vec![RdsData::new(
            "same-80-route".to_owned(),
            "same-80-route:\
             a.example.com[prefix=/first>first-0 ]\
             a.example.com[path=/second>second-0 ]\
             *[prefix=/first>first-0 ]"
                .to_owned(),
        )],
    );
    assert_eq!(
        made.cds_content,
        "first-0 infra-backend-v1.gateway-conformance-infra:8080x1;\
         second-0 infra-backend-v1.gateway-conformance-infra:8080x1;\
         first-0 infra-backend-v1.gateway-conformance-infra:8080x1;",
    );
}

#[test]
fn failures_name_the_template() {
    let gateway = isolation_gateway();
    let generator = EnvoyXDSGenerator::new(&gateway);
    let nothing = generator.generate_xds(&templates(&[])).unwrap_err();
    assert_eq!(nothing.template, "lds.yaml.tera");
    let no_clusters =
        generator.generate_xds(&templates(&[("lds.yaml.tera", LDS), ("rds.yaml.tera", RDS)])).unwrap_err();
    assert_eq!(no_clusters.template, "cds.yaml.tera");
    let no_routes =
        generator.generate_xds(&templates(&[("lds.yaml.tera", LDS), ("cds.yaml.tera", CDS)])).unwrap();
    assert_eq!(no_routes.rds_content, vec![]);
    let some_routes = "{% if route.name == \"http-listener-isolation-80-route\" %}{{ missing }}{% else %}kept{% endif %}";
    let one_left_out = generator
        .generate_xds(&templates(&[("lds.yaml.tera", LDS), ("rds.yaml.tera", some_routes), ("cds.yaml.tera", CDS)]))
        .unwrap();
    assert_eq!(
        one_left_out.rds_content,
        vec![RdsData::new("http-listener-isolation-9090-route".to_owned(), "kept".to_owned())],
    );
}

#[test]
fn files_are_put_together() {
    let failure = |name: &str| Err(TemplateError { template: name.to_owned() });
    let routes = || vec![("a".to_owned(), Some("A".to_owned())), ("b".to_owned(), None)];
    let made = assemble(Ok("L".to_owned()), routes(), Ok("C".to_owned()));
    let expected = XdsData::new(
        "L".to_owned(),
        vec![RdsData::new("a".to_owned(), "A".to_owned())],
        "C".to_owned(),
    );
    assert_eq!(made.unwrap(), expected);
    assert_eq!(assemble(failure("l"), routes(), failure("c")).unwrap_err().template, "l");
    assert_eq!(assemble(Ok("L".to_owned()), routes(), failure("c")).unwrap_err().template, "c");
}

fn config() -> ControlPlaneConfig {
    ControlPlaneConfig {
        host: "control-plane".to_owned(),
        port: 50051,
        controller_name: "kubvernor.com/controller".to_owned(),
        listening_socket: SocketAddress { address: "10.1.2.3".to_owned(), port: 50052 },
    }
}

#[test]
fn what_envoy_starts_with_is_rendered() {
    let plain = "{{ control_plane_host }}:{{ control_plane_port }}";
    let with_secrets = "{% for s in secrets %}{{ s.name }} {{ s.certificate }} {{ s.key }};{% endfor %}{{ control_plane_host }}:{{ control_plane_port }}";
    let tera = templates(&[
        ("envoy-bootstrap-dynamic.yaml.tera", plain),
        ("envoy-bootstrap-dynamic-with-secrets.yaml.tera", with_secrets),
    ]);
    assert_eq!(envoy::bootstrap_content(&tera, &config(), &vec![]).unwrap(), "control-plane:50051");
    let secrets = vec![
        ResourceKey::namespaced("b", "n"),
        ResourceKey::namespaced("a", "n"),
        ResourceKey::namespaced("b", "n"),
    ];
    assert_eq!(
        envoy::bootstrap_content(&tera, &config(), &secrets).unwrap(),
        "a_n a_n_cert.pem a_n_key.pem;b_n b_n_cert.pem b_n_key.pem;control-plane:50051",
    );
    let failure = envoy::bootstrap_content(&templates(&[]), &config(), &secrets).unwrap_err();
    assert_eq!(failure.template, "envoy-bootstrap-dynamic-with-secrets.yaml.tera");
}

#[test]
fn what_agentgateway_starts_with_is_rendered() {
    let tera = templates(&[(
        "agent-gateway-bootstrap-dynamic.yaml.tera",
        "{{ control_plane_host }}|{{ control_plane_port }}",
    )]);
    assert_eq!(agentgateway::bootstrap_content(&tera, &config()).unwrap(), "10.1.2.3|50052");
    let failure = agentgateway::bootstrap_content(&templates(&[]), &config()).unwrap_err();
    assert_eq!(failure.template, "agent-gateway-bootstrap-dynamic.yaml.tera");
}

fn clusters() -> Vec<TeraCluster> {
    let endpoint = |service: &str, port: i32| TeraEndpoint { service: service.to_owned(), port, weight: 1 };
    vec![
        TeraCluster { name: "a".to_owned(), endpoints: vec![endpoint("one", 80), endpoint("two", 81)] },
        TeraCluster { name: "b".to_owned(), endpoints: vec![] },
    ]
}

fn render(source: &str) -> Result<String, TemplateError> {
    templates(&[("t", source)]).render_clusters("t", &clusters())
}

#[test]
fn templates_hold_variables_conditions_and_loops() {
    assert_eq!(render("no { blocks } at all {").unwrap(), "no { blocks } at all {");
    assert_eq!(render("{# {{ a | b }} {% c #}x{#- y -#}").unwrap(), "x");
    assert_eq!(render("{{clusters.0.name}} {{- clusters.1.name -}}  .").unwrap(), "ab.");
    assert_eq!(
        render(
            "{%- for c in clusters %}{% for e in c.endpoints %}{{ e.service }}{% if not loop.last %},{% endif %}\
             {% else %}none{% endfor %};{% endfor -%}",
        )
        .unwrap(),
        "one,two;none;",
    );
    let port = "{% for e in clusters.0.endpoints %}\
                {% if e.port == 80 and e.service != \"two\" %}x{% elif e.port >= 81 or missing %}y{% endif %}\
                {% endfor %}";
    assert_eq!(render(port).unwrap(), "xy");
    assert_eq!(render("{% if clusters.0.name in \"abc\" %}in{% endif %}").unwrap(), "in");
    assert_eq!(render("{{ missing }}").unwrap_err().template, "t");
    assert_eq!(templates(&[("t", "")]).render_clusters("u", &clusters()).unwrap_err().template, "u");
}

#[test]
fn sources_that_may_not_render_are_refused() {
    let refused = [
        "{{ get_random(start=1, end=1) }}",
        "{% for i in range(end=3, step_by=0) %}{% endfor %}",
        "{% include \"t\" %}",
        "{% import \"t\" as t %}",
        "{% extends \"t\" %}",
        "{% macro m() %}{{ self::m() }}{% endmacro m %}",
        "{% block b %}{% endblock b %}",
        "{% set a = 1 %}",
        "{% filter upper %}{% endfilter %}",
        "{% raw %}{% endraw %}",
        "{% break %}",
        "{{ 1.5 }}",
        "{{ 1 }}",
        "{{ \"a\" }}",
        "{{ -a }}",
        "{{ a + b }}",
        "{{ a+b }}",
        "{{ a | upper }}",
        "{{ a ~ b }}",
        "{{ a[0] }}",
        "{{ a b }}",
        "{{ }}",
        "{{ a",
        "{{ \" }} \" | upper }}",
        "{% if a is containing %}{% endif %}",
        "{% if a iscontaining %}{% endif %}",
        "{% if a == 1.5 %}{% endif %}",
        "{% if a == 'b' %}{% endif %}",
        "{% if a==b %}{% endif %}",
        "{% if %}{% endif %}",
        "{% for c in clusters.0.name %}{{ c }}{% endfor %}",
        "{% for k, v in clusters.0 %}{{ v }}{% endfor %}",
        "{% for e in myendpoints %}{% endfor %}",
        "{% else a %}",
        "{% endif %}",
        "{% %}",
        "{%",
        "{# never ends",
    ];
    for source in refused {
        assert!(!check_source(source), "{source}");
    }
    match Templates::new(sources(&[("a", "A"), ("b", "{{ now() }}"), ("c", "{{ now() }}")])) {
        Err(TemplatesError::Unfit(name)) => assert_eq!(name, "b"),
        _ => panic!("no template reads the clock"),
    }
}

#[test]
fn sources_are_nested_within_bounds() {
    let nested = |depth: usize| format!("{}x{}", "{% if clusters %}".repeat(depth), "{% endif %}".repeat(depth));
    assert_eq!(render(&nested(16)).unwrap(), "x");
    assert!(!check_source(&nested(17)));
    assert_eq!(render(&nested(16).repeat(3)).unwrap(), "xxx");
    let chain = |words: usize| format!("{{% if missing{} %}}{{% else %}}x{{% endif %}}", " or missing".repeat(words));
    assert_eq!(render(&chain(15)).unwrap(), "x");
    assert!(!check_source(&chain(16)));
}

#[test]
fn sources_that_cannot_be_read_are_told_apart() {
    for source in ["{% if clusters %}", "{% if a b %}{% endif %}", "{% for c in clusters %}{% endif %}", "{{ not }}"] {
        assert!(check_source(source), "{source}");
        assert!(matches!(Templates::new(sources(&[("t", source)])), Err(TemplatesError::Malformed(_))), "{source}");
    }
}

#[test]
fn the_last_source_of_a_name_is_taken() {
    let set = templates(&[("t", "first"), ("u", "other"), ("t", "second")]);
    assert_eq!(set.render_clusters("t", &clusters()).unwrap(), "second");
    assert_eq!(set.render_clusters("u", &clusters()).unwrap(), "other");
}
