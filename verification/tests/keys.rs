//! Keys, identifiers and texts.
use kubvernor::backends::envoy::listeners::{create_certificate_name, create_key_name, create_secret_name};
use kubvernor::common::kube::{BackendReference, ObjectMeta, RouteParentRefs};
use kubvernor::common::resource_key::{BackendResourceKey, ResourceKey, RouteRefKey, create_id};
use kubvernor::identifiers::fresh_text;
use kubvernor::order::{Rank, Ranked};
use kubvernor::ordered::{OrderedMap, OrderedSet};
use kubvernor::text::{count_text, decimal_text, parse_u32, split, text_is, trim_path};

fn meta(name: Option<&str>, generate_name: Option<&str>, namespace: Option<&str>) -> ObjectMeta {
    ObjectMeta {
        name: name.map(str::to_owned),
        generate_name: generate_name.map(str::to_owned),
        namespace: namespace.map(str::to_owned),
        uid: None,
    }
}

fn key(group: &str, namespace: &str, name: &str, kind: &str) -> ResourceKey {
    ResourceKey {
        group: group.to_owned(),
        namespace: namespace.to_owned(),
        name: name.to_owned(),
        kind: kind.to_owned(),
    }
}

#[test]
fn identifiers_have_the_namespace_first() {
    assert_eq!(create_id("one", "space"), "space.one");
    assert_eq!(ResourceKey::namespaced("one", "space").to_text(), "space.one");
    assert_eq!(ResourceKey::new("one").to_text(), "default.one");
}

#[test]
fn keys_have_defaults() {
    let expected = key("gateway.networking.k8s.io", "default", "", "Gateway");
    assert_eq!(ResourceKey::default(), expected);
    let parts: (Option<String>, Option<String>, String, Option<String>) =
        (None, None, "secret".to_owned(), Some("Secret".to_owned()));
    assert_eq!(ResourceKey::from(parts), key("gateway.networking.k8s.io", "default", "secret", "Secret"));
    let given: (Option<String>, Option<String>, String, Option<String>) =
        (Some("g".to_owned()), Some("n".to_owned()), "s".to_owned(), None);
    assert_eq!(ResourceKey::from(given), key("g", "n", "s", "Gateway"));
}

#[test]
fn keys_of_objects() {
    let object = meta(Some("a"), Some("b-"), None);
    assert_eq!(ResourceKey::of_gateway(&object), key("gateway.networking.k8s.io", "default", "a", "Gateway"));
    let generated = meta(None, Some("b-"), Some("space"));
    assert_eq!(
        ResourceKey::of_http_route(&generated),
        key("gateway.networking.k8s.io", "space", "b-", "HTTPRoute"),
    );
    let nameless = meta(None, None, Some("space"));
    assert_eq!(
        ResourceKey::of_grpc_route(&nameless),
        key("gateway.networking.k8s.io", "space", "", "GRPCRoute"),
    );
    assert_eq!(ResourceKey::of_gateway_class(&object).kind, "GatewayClass");
    assert_eq!(ResourceKey::of_service(&object).kind, "Gateway");
}

#[test]
fn keys_of_backends() {
    let reference = |namespace: Option<&str>, kind: Option<&str>| BackendReference {
        kind: kind.map(str::to_owned),
        name: "svc".to_owned(),
        namespace: namespace.map(str::to_owned),
        port: Some(80),
        weight: None,
    };
    let here = ResourceKey::from((&reference(None, None), "space".to_owned()));
    assert_eq!(here, key("gateway.networking.k8s.io", "space", "svc", ""));
    let there = ResourceKey::from((&reference(Some("other"), Some("Service")), "space".to_owned()));
    assert_eq!(there, key("gateway.networking.k8s.io", "other", "svc", "Service"));
    let mut backend = BackendResourceKey::from(&reference(None, Some("Service")));
    assert_eq!(backend.namespace(), None);
    *backend.namespace_mut() = Some("set".to_owned());
    assert_eq!(backend.namespace(), Some(&"set".to_owned()));
    assert_eq!(backend.name, "svc");
}

#[test]
fn keys_of_parents() {
    let parent = RouteParentRefs {
        group: None,
        kind: None,
        name: "gw".to_owned(),
        namespace: None,
        port: Some(8080),
        section_name: Some("http".to_owned()),
    };
    let reference = RouteRefKey::from((&parent, "space".to_owned()));
    assert_eq!(reference.resource_key, ResourceKey::namespaced("gw", "space"));
    assert_eq!(reference.section_name, Some("http".to_owned()));
    assert_eq!(reference.port, Some(8080));
    assert_eq!(RouteRefKey::new("gw").as_ref(), &ResourceKey::new("gw"));
    assert_eq!(RouteRefKey::namespaced("gw", "s").as_ref(), &ResourceKey::namespaced("gw", "s"));
}

#[test]
fn keys_are_ordered_part_by_part() {
    let a = key("a", "z", "z", "z");
    let b = key("b", "a", "a", "a");
    assert_eq!(a.against(&b), Rank::Less);
    assert_eq!(b.against(&a), Rank::Greater);
    assert_eq!(a.against(&key("a", "z", "z", "z")), Rank::Equal);
    assert!(a < b);
    let set = OrderedSet::gather(&vec![b, a]);
    assert_eq!(set.items()[0].group, "a");
    assert_eq!(set.items()[1].group, "b");
}

#[test]
fn maps_keep_the_last_value_in_the_order_of_keys() {
    let pairs = vec![
        ("b".to_owned(), "first".to_owned()),
        ("a".to_owned(), "only".to_owned()),
        ("b".to_owned(), "last".to_owned()),
    ];
    let mut map = OrderedMap::gather(&pairs);
    let expected = vec![("a".to_owned(), "only".to_owned()), ("b".to_owned(), "last".to_owned())];
    assert_eq!(map.entries(), &expected);
    map.insert_new("a".to_owned(), "ignored".to_owned());
    assert_eq!(map.get(&"a".to_owned()), Some(&"only".to_owned()));
    assert_eq!(map.remove(&"a".to_owned()), Some("only".to_owned()));
    assert_eq!(map.remove(&"a".to_owned()), None);
    assert_eq!(map.len(), 1);
}

#[test]
fn sets_hold_each_item_once() {
    let mut set = OrderedSet::gather(&vec!["b".to_owned(), "a".to_owned(), "b".to_owned()]);
    assert_eq!(set.items(), &vec!["a".to_owned(), "b".to_owned()]);
    set.insert("c".to_owned());
    set.remove(&"a".to_owned());
    assert_eq!(set.items(), &vec!["b".to_owned(), "c".to_owned()]);
    assert!(!set.contains(&"a".to_owned()));
}

#[test]
fn secrets_are_named() {
    let secret = ResourceKey::namespaced("tls", "space");
    assert_eq!(create_secret_name(&secret), "tls_space");
    assert_eq!(create_certificate_name(&secret), "tls_space_cert.pem");
    assert_eq!(create_key_name(&secret), "tls_space_key.pem");
}

#[test]
fn numbers_are_written_and_read() {
    assert_eq!(decimal_text(0), "0");
    assert_eq!(decimal_text(-120), "-120");
    assert_eq!(decimal_text(i64::MIN), "-9223372036854775808");
    assert_eq!(count_text(usize::MAX), usize::MAX.to_string());
    assert_eq!(parse_u32("42"), Some(42));
    assert_eq!(parse_u32("+42"), Some(42));
    assert_eq!(parse_u32("4294967295"), Some(u32::MAX));
    assert_eq!(parse_u32("4294967296"), None);
    assert_eq!(parse_u32("-1"), None);
    assert_eq!(parse_u32(""), None);
    assert_eq!(parse_u32("+"), None);
    assert_eq!(parse_u32("4 2"), None);
}

#[test]
fn reading_agrees_with_the_standard_library() {
    for text in ["0", "00012", "+7", "++7", "-0", "12a", "4294967295", "42949672960", " 1", ""] {
        assert_eq!(parse_u32(text), text.parse::<u32>().ok(), "{text}");
    }
}

#[test]
fn texts_are_split_and_trimmed() {
    assert_eq!(split("a~b~~c", '~'), vec!["a", "b", "", "c"]);
    assert_eq!(split("", '~'), vec![""]);
    assert_eq!(split("~", '~'), vec!["", ""]);
    assert_eq!(trim_path("/a/b//"), "/a/b");
    assert_eq!(trim_path("/"), "/");
    assert!(text_is("same", "same"));
    assert!(!text_is("same", "other"));
}

#[test]
fn fresh_identifiers_are_identifiers() {
    let first = fresh_text();
    let second = fresh_text();
    assert_ne!(first, second);
    assert_eq!(uuid::Uuid::parse_str(&first).map(|id| id.to_string()), Ok(first));
    assert!(uuid::Uuid::parse_str(&second).is_ok());
}
