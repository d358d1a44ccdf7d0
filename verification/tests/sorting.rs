//! How the ways in which routes take requests are sorted.
use std::cmp::Ordering;

use kubvernor::common::kube::{HTTPMethodMatch, HeaderMatch, PathMatch, PathMatchType, RouteMatch};
use kubvernor::common::route::{FilterHeaders, HTTPEffectiveRoutingRule};
use kubvernor::model::Model;
use kubvernor::sorting::sort;

fn header(name: &str, value: &str) -> HeaderMatch {
    HeaderMatch { name: name.to_owned(), match_type: None, value: value.to_owned() }
}

fn rule(name: &str, path: Option<PathMatch>, headers: Option<Vec<HeaderMatch>>) -> HTTPEffectiveRoutingRule {
    HTTPEffectiveRoutingRule {
        route_matcher: RouteMatch { headers, method: None, path, query_params: None },
        backends: vec![],
        name: name.to_owned(),
        hostnames: vec![],
        request_headers: FilterHeaders::default(),
        response_headers: FilterHeaders::default(),
        redirect_filter: None,
    }
}

fn exact(value: &str) -> Option<PathMatch> {
    Some(PathMatch { match_type: Some(PathMatchType::Exact), value: Some(value.to_owned()) })
}

fn prefix(value: &str) -> Option<PathMatch> {
    Some(PathMatch { match_type: Some(PathMatchType::PathPrefix), value: Some(value.to_owned()) })
}

fn headers_rules() -> Vec<HTTPEffectiveRoutingRule> {
    vec![
        rule("route1", None, Some(vec![header("version", "one")])),
        rule("route2", None, Some(vec![header("version", "two")])),
        rule("route3", None, Some(vec![header("version", "two"), header("color", "orange")])),
        rule("route4.1", None, Some(vec![header("color", "blue")])),
        rule("route4.2", None, Some(vec![header("color", "green")])),
        rule("route5.1", None, Some(vec![header("color", "red")])),
        rule("route5.2", None, Some(vec![header("color", "yellow")])),
    ]
}

fn path_rules() -> Vec<HTTPEffectiveRoutingRule> {
    vec![
        rule("route3", exact("/"), None),
        rule("route1", exact("/one"), None),
        rule("route2", exact("/two"), None),
    ]
}

fn prefix_rules() -> Vec<HTTPEffectiveRoutingRule> {
    vec![
        rule("route3", prefix("/"), None),
        rule("route1", prefix("/one"), None),
        rule("route2", prefix("/two"), None),
    ]
}

fn mixed_rules() -> Vec<HTTPEffectiveRoutingRule> {
    vec![
        rule("route0", prefix("/"), None),
        rule("route1", prefix("/one"), None),
        rule("route2", prefix("/two"), None),
        rule("route3", exact("/"), None),
        rule("route4", exact("/blah"), None),
    ]
}

fn paths_and_headers_rules() -> Vec<HTTPEffectiveRoutingRule> {
    vec![
        rule("route1", exact("/"), None),
        rule("route2", exact("/"), Some(vec![header("color", "green")])),
    ]
}

fn extended_rules() -> Vec<HTTPEffectiveRoutingRule> {
    vec![
        rule("route3", exact("/match/exact/one"), None),
        rule("route2", exact("/match/exact"), None),
        rule("route1", exact("/match"), None),
        rule("route4", prefix("/match"), None),
        rule("route5", prefix("/match/prefix"), None),
        rule("route6", prefix("/match/prefix/one"), None),
    ]
}

fn names(rules: &[HTTPEffectiveRoutingRule]) -> Vec<&str> {
    rules.iter().map(|r| r.name.as_str()).collect()
}

fn check(mut rules: Vec<HTTPEffectiveRoutingRule>, expected_names: Vec<&str>) {
    println!("{rules:#?}");
    rules.sort_by(|this, other| this.partial_cmp(other).unwrap_or(Ordering::Less));
    assert_eq!(expected_names, names(&rules));
}

fn check_sorted(rules: Vec<HTTPEffectiveRoutingRule>, expected_names: Vec<&str>) {
    let sorted = sort(&rules);
    assert_eq!(expected_names, names(&sorted));
    assert_eq!(names(&sort(&sorted)), expected_names);
}

#[test]
fn test_test_headers_sorting_rules() {
    check(headers_rules(), vec!["route3", "route1", "route2", "route4.1", "route4.2", "route5.1", "route5.2"]);
}

#[test]
fn common_test_headers_sorting_rules() {
    check_sorted(headers_rules(), vec!["route3", "route1", "route2", "route4.1", "route4.2", "route5.1", "route5.2"]);
    check(headers_rules(), vec!["route3", "route1", "route2", "route4.1", "route4.2", "route5.1", "route5.2"]);
}

#[test]
fn test_test_path_sorting_rules() {
    check(path_rules(), vec!["route1", "route2", "route3"]);
}

#[test]
fn common_test_path_sorting_rules() {
    check_sorted(path_rules(), vec!["route1", "route2", "route3"]);
    check(path_rules(), vec!["route1", "route2", "route3"]);
}

#[test]
fn test_test_path_prefix_sorting_rules() {
    check(prefix_rules(), vec!["route1", "route2", "route3"]);
}

#[test]
fn common_test_path_prefix_sorting_rules() {
    check_sorted(prefix_rules(), vec!["route1", "route2", "route3"]);
    check(prefix_rules(), vec!["route1", "route2", "route3"]);
}

#[test]
fn test_test_path_mixed_sorting_rules() {
    check(mixed_rules(), vec!["route4", "route3", "route1", "route2", "route0"]);
}

#[test]
fn common_test_path_mixed_sorting_rules() {
    check_sorted(mixed_rules(), vec!["route4", "route3", "route1", "route2", "route0"]);
    check(mixed_rules(), vec!["route4", "route3", "route1", "route2", "route0"]);
}

#[test]
fn test_test_paths_and_headers_sorting_rules() {
    check(paths_and_headers_rules(), vec!["route2", "route1"]);
}

#[test]
fn common_test_paths_and_headers_sorting_rules() {
    check_sorted(paths_and_headers_rules(), vec!["route2", "route1"]);
    check(paths_and_headers_rules(), vec!["route2", "route1"]);
}

#[test]
fn test_test_path_sorting_rules_extended() {
    check(extended_rules(), vec!["route3", "route2", "route1", "route6", "route5", "route4"]);
}

#[test]
fn common_test_path_sorting_rules_extended() {
    check_sorted(extended_rules(), vec!["route3", "route2", "route1", "route6", "route5", "route4"]);
    check(extended_rules(), vec!["route3", "route2", "route1", "route6", "route5", "route4"]);
}

#[test]
fn headers_come_before_paths() {
    let more_headers = rule("headers", prefix("/a"), Some(vec![header("a", "1"), header("b", "2")]));
    let longer_path = rule("path", prefix("/a/b"), None);
    assert_eq!(longer_path.partial_cmp(&more_headers), Some(Ordering::Greater));
    assert_eq!(more_headers.partial_cmp(&longer_path), Some(Ordering::Less));
}

#[test]
fn fewer_parameters_of_the_query_come_first() {
    let with_query = |name: &str, params: Option<Vec<HeaderMatch>>| {
        let mut made = rule(name, exact("/x"), None);
        made.route_matcher.query_params = params;
        made
    };
    let one = with_query("one", Some(vec![header("a", "1")]));
    let two = with_query("two", Some(vec![header("a", "1"), header("b", "2")]));
    let none = with_query("none", None);
    assert_eq!(names(&sort(&vec![none, two, one])), vec!["one", "two", "none"]);
}

#[test]
fn a_rule_stands_equal_to_itself() {
    for rules in [headers_rules(), path_rules(), mixed_rules(), extended_rules()] {
        for each in &rules {
            assert_eq!(each.partial_cmp(&each.dup()), Some(Ordering::Equal));
        }
    }
}

#[test]
fn sorting_keeps_the_order_of_equals() {
    let rules = vec![
        rule("first", exact("/x"), None),
        rule("longer", exact("/x/y"), None),
        rule("second", exact("/x"), None),
        rule("third", exact("/x"), None),
    ];
    assert_eq!(names(&sort(&rules)), vec!["longer", "first", "second", "third"]);
}

#[test]
fn methods_are_sorted_by_their_places() {
    let with_method = |name: &str, method: Option<HTTPMethodMatch>| {
        let mut made = rule(name, exact("/x"), None);
        made.route_matcher.method = method;
        made
    };
    let get = with_method("get", Some(HTTPMethodMatch::Get));
    let none = with_method("none", None);
    assert_eq!(get.partial_cmp(&none), Some(Ordering::Less));
}
