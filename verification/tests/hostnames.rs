//! The hostnames of listeners.
use std::collections::BTreeSet;

use kubvernor::backends::envoy::resource_generator::{ResourceGenerator, calculate_hostnames_common};
use kubvernor::common::address::HostText;
use kubvernor::common::kube::{HTTPRoute, ObjectMeta};
use kubvernor::common::route::Route;

fn route(name: &str, hostnames: Option<Vec<&str>>) -> Route {
    let route = HTTPRoute {
        metadata: ObjectMeta {
            name: Some(name.to_owned()),
            generate_name: None,
            namespace: Some("default".to_owned()),
            uid: None,
        },
        parent_refs: None,
        hostnames: hostnames.map(|list| {
            list.into_iter().map(|text| HostText { text: text.to_owned(), octets: None }).collect()
        }),
        rules: None,
    };
    Route::try_from(&route).unwrap()
}

#[test]
fn test_calculate_effective_hostnames() {
    let routes = vec![];
    let hostname = Some("*".to_owned());
    let hostnames = ResourceGenerator::calculate_effective_hostnames(&routes, hostname);
    assert_eq!(hostnames, vec!["*".to_owned()]);
    let hostname = Some("host.blah".to_owned());
    let hostnames: BTreeSet<String> =
        ResourceGenerator::calculate_effective_hostnames(&routes, hostname).into_iter().collect();
    assert_eq!(
        hostnames,
        vec!["host.blah".to_owned(), "host.blah:*".to_owned()].into_iter().collect::<BTreeSet<_>>()
    );
    let hostname = Some("host.blah".to_owned());
    let hostnames = calculate_hostnames_common(&routes, hostname, |h| vec![format!("{h}:*"), h])
        .into_iter()
        .collect::<BTreeSet<_>>();
    assert_eq!(
        hostnames,
        vec!["host.blah".to_owned(), "host.blah:*".to_owned()].into_iter().collect::<BTreeSet<_>>()
    );
}

#[test]
fn the_hostnames_of_routes_count_where_the_listener_has_none() {
    let first = route("first", Some(vec!["b.example", "a.example"]));
    let second = route("second", Some(vec!["a.example"]));
    let hostnames = ResourceGenerator::calculate_potential_hostnames(&vec![&first, &second], None);
    assert_eq!(hostnames, vec!["a.example", "b.example"]);
    let decided =
        ResourceGenerator::calculate_potential_hostnames(&vec![&first], Some("own.example".to_owned()));
    assert_eq!(decided, vec!["own.example"]);
    let empty = ResourceGenerator::calculate_potential_hostnames(&vec![&first], Some(String::new()));
    assert_eq!(empty, vec!["*"]);
    let nothing = ResourceGenerator::calculate_potential_hostnames(&vec![], None);
    assert_eq!(nothing, vec!["*"]);
}

#[test]
fn routes_take_any_hostname_where_none_is_given_and_no_addresses() {
    assert_eq!(route("any", None).hostnames(), &vec!["*".to_owned()]);
    let mut spelled = HTTPRoute {
        metadata: ObjectMeta { name: None, generate_name: None, namespace: None, uid: None },
        parent_refs: None,
        hostnames: Some(vec![
            HostText { text: "10.0.0.1".to_owned(), octets: Some(vec![10, 0, 0, 1]) },
            HostText { text: "a.example".to_owned(), octets: None },
        ]),
        rules: None,
    };
    assert_eq!(Route::try_from(&spelled).unwrap().hostnames(), &vec!["a.example".to_owned()]);
    spelled.hostnames = Some(vec![]);
    assert_eq!(Route::try_from(&spelled).unwrap().hostnames(), &Vec::<String>::new());
}
