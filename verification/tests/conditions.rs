//! The conditions of listeners.
use kubvernor::common::listener::{
    ListenerCondition, ListenerConditionReason, ListenerConditionType, ListenerConditions,
};
use kubvernor::common::resolved_refs::ResolvedRefs;

#[test]
fn test_test_enums() {
    let r1 = ResolvedRefs::Resolved(vec!["blah".to_owned()]);
    let r2 = ResolvedRefs::Resolved(vec!["blah2".to_owned()]);
    let d1 = r1.discriminant();
    let d2 = r2.discriminant();
    println!("{d1} {d2} {:?}", d1.cmp(&d2));
    assert_eq!(d1, d2);
    let e1 = ListenerCondition::ResolvedRefs(ResolvedRefs::Resolved(vec!["blah".to_owned()]));
    let e2 = ListenerCondition::ResolvedRefs(ResolvedRefs::Resolved(vec!["blah2".to_owned()]));
    let e3 = ListenerCondition::ResolvedRefs(ResolvedRefs::ResolvedWithNotAllowedRoutes(vec![]));
    let e4 = ListenerCondition::ResolvedRefs(ResolvedRefs::InvalidAllowedRoutes);
    let e5 = ListenerCondition::Accepted;
    assert_eq!(e1, e2);
    assert_eq!(e1, e3);
    assert_eq!(e1, e4);
    assert_ne!(e1, e5);
    let d1 = e1.discriminant();
    let d2 = e3.discriminant();

    println!("{d1:?} {d2:?} {:?}", d1.cmp(&d2));

    let mut set = ListenerConditions::new();
    set.replace(e1);
    set.replace(e3);
    set.replace(e2);
    set.replace(e4);
    assert_eq!(set.len(), 1);
}

#[test]
fn common_test_enums() {
    let r1 = ResolvedRefs::Resolved(vec!["blah".to_owned()]);
    let r2 = ResolvedRefs::Resolved(vec!["blah2".to_owned()]);
    let d1 = r1.discriminant();
    let d2 = r2.discriminant();
    println!("{d1} {d2} {:?}", d1.cmp(&d2));
    assert_eq!(d1, d2);
    let e1 = ListenerCondition::ResolvedRefs(ResolvedRefs::Resolved(vec!["blah".to_owned()]));
    let e2 = ListenerCondition::ResolvedRefs(ResolvedRefs::Resolved(vec!["blah2".to_owned()]));
    let e3 = ListenerCondition::ResolvedRefs(ResolvedRefs::ResolvedWithNotAllowedRoutes(vec![]));
    let e4 = ListenerCondition::ResolvedRefs(ResolvedRefs::InvalidAllowedRoutes);
    let e5 = ListenerCondition::Accepted;
    assert_eq!(e1, e2);
    assert_eq!(e1, e3);
    assert_eq!(e1, e4);
    assert_ne!(e1, e5);
    let d1 = e1.discriminant();
    let d2 = e3.discriminant();

    println!("{d1:?} {d2:?} {:?}", d1.cmp(&d2));

    let mut set = ListenerConditions::new();
    set.replace(e1);
    set.replace(e3);
    set.replace(e2);
    set.replace(e4);
    assert_eq!(set.len(), 1);
}

#[test]
fn a_listener_is_in_one_condition_of_each_kind() {
    let mut set = ListenerConditions::new();
    set.replace(ListenerCondition::Programmed);
    set.replace(ListenerCondition::Accepted);
    set.replace(ListenerCondition::NotAccepted);
    set.replace(ListenerCondition::UnresolvedRouteRefs);
    set.replace(ListenerCondition::NotProgrammed);
    assert_eq!(set.len(), 3);
    let places: Vec<u8> = set.entries().iter().map(|(place, _)| *place).collect();
    assert_eq!(places, vec![1, 2, 3]);
    assert!(matches!(set.entries()[0].1, ListenerCondition::NotAccepted));
    assert!(matches!(set.entries()[1].1, ListenerCondition::NotProgrammed));
}

#[test]
fn conditions_are_reported() {
    let refs = |refs: ResolvedRefs| ListenerCondition::ResolvedRefs(refs);
    let resolved = refs(ResolvedRefs::Resolved(vec!["HTTPRoute".to_owned()]));
    assert_eq!(
        resolved.resolved_type(),
        ("True", ListenerConditionType::ResolvedRefs, ListenerConditionReason::ResolvedRefs),
    );
    assert_eq!(
        refs(ResolvedRefs::InvalidAllowedRoutes).resolved_type(),
        ("False", ListenerConditionType::ResolvedRefs, ListenerConditionReason::InvalidRouteKinds),
    );
    assert_eq!(
        refs(ResolvedRefs::InvalidCertificates(vec![])).resolved_type(),
        ("False", ListenerConditionType::ResolvedRefs, ListenerConditionReason::InvalidCertificateRef),
    );
    assert_eq!(
        refs(ResolvedRefs::RefNotPermitted(vec![])).resolved_type(),
        ("False", ListenerConditionType::ResolvedRefs, ListenerConditionReason::RefNotPermitted),
    );
    assert_eq!(
        ListenerCondition::NotAccepted.resolved_type(),
        ("False", ListenerConditionType::Accepted, ListenerConditionReason::Accepted),
    );
    assert_eq!(resolved.supported_routes(), vec!["HTTPRoute".to_owned()]);
    assert_eq!(
        ListenerCondition::Accepted.supported_routes(),
        vec!["GRPCRoute".to_owned(), "HTTPRoute".to_owned(), "TCPRoute".to_owned()],
    );
}
