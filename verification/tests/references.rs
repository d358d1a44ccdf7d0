//! References to objects, and the grants of references.
use kubvernor::common::kube::ObjectMeta;
use kubvernor::common::reference_grants::{
    ReferenceGrant, ReferenceGrantFrom, ReferenceGrantRef, ReferenceGrantTo, ReferenceGrantsResolver,
};
use kubvernor::common::references::{MultiReferencesResolver, ResolvedReference, RouteToReferenceMapping};
use kubvernor::common::resource_key::ResourceKey;
use kubvernor::model::Model;
use kubvernor::ordered::{OrderedMap, OrderedSet};

fn found(content: &str) -> ResolvedReference {
    ResolvedReference {
        metadata: ObjectMeta { name: None, generate_name: None, namespace: None, uid: None },
        content: content.to_owned(),
    }
}

fn mapping(route: &ResourceKey, resources: &[&ResourceKey]) -> RouteToReferenceMapping {
    let mut set = OrderedSet::new();
    for resource in resources {
        set.insert(resource.dup());
    }
    let mut map = OrderedMap::new();
    map.insert(route.dup(), set);
    map
}

#[test]
fn test_resolver_multiple_references() {
    let mut resolver = MultiReferencesResolver::new();

    let g1 = ResourceKey::new("g1");
    let g2 = ResourceKey::new("g2");

    let r1 = ResourceKey::new("r1");
    let r2 = ResourceKey::new("r2");
    let r3 = ResourceKey::new("r2");

    let route1 = ResourceKey::new("route1");
    let route2 = ResourceKey::new("route2");
    let g1_mapping = mapping(&route1, &[&r1, &r2, &r3]);
    let g2_mapping = mapping(&route2, &[&r1, &r2, &r3]);

    resolver.add_references_for_gateway(&g1, g1_mapping);
    resolver.add_references_for_gateway(&g2, g2_mapping);

    assert_eq!(resolver.parents(&r1).unwrap(), 2_usize);
    assert_eq!(resolver.parents(&r2).unwrap(), 2_usize);
    assert_eq!(resolver.parents(&r3).unwrap(), 2_usize);

    assert_eq!(resolver.get_reference(&r1), None);
    assert_eq!(resolver.get_reference(&r2), None);
    assert_eq!(resolver.get_reference(&r3), None);

    resolver.on_lookup(&r1, Some(found("")));
    resolver.on_lookup(&r2, Some(found("")));
    resolver.on_lookup(&r3, Some(found("")));

    resolver.delete_references_for_gateway(&g1);
    assert_eq!(resolver.parents(&r1).unwrap(), 1_usize);
    assert_eq!(resolver.parents(&r2).unwrap(), 1_usize);
    assert_eq!(resolver.parents(&r3).unwrap(), 1_usize);

    assert!(resolver.get_reference(&r1).is_some());
    assert!(resolver.get_reference(&r2).is_some());
    assert!(resolver.get_reference(&r3).is_some());

    resolver.delete_references_for_gateway(&g2);
    assert_eq!(resolver.parents(&r1), None);
    assert_eq!(resolver.parents(&r2), None);
    assert_eq!(resolver.parents(&r3), None);
    assert!(resolver.get_reference(&r1).is_none());
    assert!(resolver.get_reference(&r2).is_none());
    assert!(resolver.get_reference(&r3).is_none());
}

#[test]
fn adding_again_replaces_the_references_of_a_gateway() {
    let mut resolver = MultiReferencesResolver::new();
    let gateway = ResourceKey::new("g");
    let route = ResourceKey::new("route");
    let (a, b) = (ResourceKey::new("a"), ResourceKey::new("b"));
    assert!(resolver.has_room(&gateway, &mapping(&route, &[&a])));
    resolver.add_references_for_gateway(&gateway, mapping(&route, &[&a]));
    assert!(resolver.has_room(&gateway, &mapping(&route, &[&a, &b])));
    assert!(resolver.on_lookup(&a, Some(found("x"))).is_some());
    resolver.add_references_for_gateway(&gateway, mapping(&route, &[&b]));
    assert_eq!(resolver.parents(&a), None);
    assert!(resolver.get_reference(&a).is_none());
    assert_eq!(resolver.parents(&b), Some(1));
    resolver.add_references_for_gateway(&gateway, OrderedMap::new());
    assert_eq!(resolver.parents(&b), Some(1));
    assert_eq!(resolver.keys(), vec![b]);
}

#[test]
fn lookups_tell_which_gateways_and_routes_are_affected() {
    let mut resolver = MultiReferencesResolver::new();
    let (g1, g2) = (ResourceKey::new("g1"), ResourceKey::new("g2"));
    let (route1, route2) = (ResourceKey::new("route1"), ResourceKey::new("route2"));
    let (a, b) = (ResourceKey::new("a"), ResourceKey::new("b"));
    resolver.add_references_for_gateway(&g1, mapping(&route1, &[&a]));
    resolver.add_references_for_gateway(&g2, mapping(&route2, &[&b]));
    let update = resolver.on_lookup(&a, Some(found("x"))).unwrap();
    assert_eq!(update.reference, a);
    assert_eq!(update.gateways.items(), &vec![g1.dup()]);
    assert_eq!(update.routes.items(), &vec![route1.dup()]);
    assert!(resolver.on_lookup(&a, Some(found("x"))).is_none());
    assert!(resolver.on_lookup(&a, Some(found("y"))).is_some());
    assert!(resolver.on_lookup(&a, None).is_some());
    assert!(resolver.on_lookup(&a, None).is_none());
    let affected = resolver.delete_route_references(&route1);
    assert_eq!(affected.items(), &vec![g1]);
    assert_eq!(resolver.parents(&a), None);
    assert_eq!(resolver.parents(&b), Some(1));
}

fn key(group: &str, kind: &str, name: &str, namespace: &str) -> ResourceKey {
    ResourceKey {
        group: group.to_owned(),
        kind: kind.to_owned(),
        name: name.to_owned(),
        namespace: namespace.to_owned(),
    }
}

fn grant() -> ReferenceGrant {
    ReferenceGrant {
        from: vec![ReferenceGrantFrom {
            group: "from_group_1".to_owned(),
            kind: "from_kind_1".to_owned(),
            namespace: "from_namespace_1".to_owned(),
        }],
        to: vec![ReferenceGrantTo {
            group: "to_group_1".to_owned(),
            kind: "to_kind_1".to_owned(),
            name: Some("to_name_1".to_owned()),
        }],
    }
}

fn listed(resolver: &ReferenceGrantsResolver) -> Vec<Option<Vec<ReferenceGrant>>> {
    resolver.references().iter().map(|_| Some(vec![grant()])).collect()
}

#[test]
fn test_resolver_references() {
    let mut resolver = ReferenceGrantsResolver::new();
    let grants = listed(&resolver);
    resolver.resolve_internal(&grants);
    assert!(resolver.nothing_granted());

    let to_1 = key("to_group_1", "to_kind_1", "to_name_1", "");
    let from_1 = key("from_group_1", "from_kind_1", "", "from_namespace_1");
    let to_2 = key("to_group_2", "to_kind_2", "to_name_2", "");
    let from_2 = key("from_group_2", "from_kind_2", "", "from_namespace_2");
    let gateway_id_1 = key("gateway", "gateway", "gateway_1", "namespace_1");
    let gateway_id_2 = key("gateway", "gateway", "gateway_2", "namespace_1");

    let mut gateway_references = OrderedSet::new();
    gateway_references.insert(ReferenceGrantRef {
        from: from_1.dup(),
        to: to_1.dup(),
        gateway_key: gateway_id_1.dup(),
    });
    gateway_references.insert(ReferenceGrantRef {
        from: from_2.dup(),
        to: to_2.dup(),
        gateway_key: gateway_id_2.dup(),
    });

    resolver.add_references(&gateway_references);
    let grants = listed(&resolver);
    let changed = resolver.resolve_internal(&grants);
    assert_eq!(resolver.is_allowed(&from_1, &to_1, &gateway_id_1), true);
    assert_eq!(resolver.is_allowed(&from_2, &to_2, &gateway_id_2), false);
    assert_eq!(resolver.is_allowed(&from_1, &to_1, &gateway_id_2), false);
    assert_eq!(changed.len(), 1);
    assert_eq!(changed.items()[0].gateway_key, gateway_id_1);

    let unchanged = resolver.resolve_internal(&grants);
    assert_eq!(unchanged.len(), 0);
    let revoked = resolver.resolve_internal(&vec![None, None]);
    assert_eq!(revoked.len(), 1);
    assert!(resolver.nothing_granted());
}

#[test]
fn grants_stand_for_keys() {
    let grant = grant();
    assert_eq!(grant.from[0].key(), key("from_group_1", "from_kind_1", "", "from_namespace_1"));
    assert_eq!(grant.to[0].key(), key("to_group_1", "to_kind_1", "to_name_1", ""));
    let all = ReferenceGrantTo { group: "g".to_owned(), kind: "k".to_owned(), name: None };
    assert_eq!(all.key(), key("g", "k", "", ""));
}
