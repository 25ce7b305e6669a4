use std::collections::HashSet;

use spektra::visibility::{Access, Visibility, ADMINISTRATOR, OPERATOR, READER, TECHNICIAN};

fn access(role: &str) -> Access {
    Access {
        user_id: 1,
        role: role.to_owned(),
        visibility: Visibility::Fleet,
    }
}

#[test]
fn the_fleet_view_allows_every_node() {
    let visibility = Visibility::Fleet;

    assert!(visibility.allows(1));
    assert!(visibility.allows(9_999));
    assert_eq!(visibility.node_filter(), None);
}

#[test]
fn a_technician_only_sees_their_own_nodes() {
    let visibility = Visibility::Nodes([1_i64, 2].into_iter().collect());

    assert!(visibility.allows(1));
    assert!(visibility.allows(2));
    assert!(!visibility.allows(3));

    let mut filter = visibility.node_filter().expect("a filtered view");
    filter.sort_unstable();
    assert_eq!(filter, vec![1, 2]);
}

#[test]
fn a_technician_with_no_dispatches_sees_nothing() {
    let visibility = Visibility::Nodes(HashSet::new());

    assert!(!visibility.allows(1));
    assert_eq!(visibility.node_filter(), Some(Vec::new()));
}

#[test]
fn a_reader_may_not_act() {
    assert!(!access(READER).may_act());
    assert!(access(OPERATOR).may_act());
    assert!(access(TECHNICIAN).may_act());
    assert!(access(ADMINISTRATOR).may_act());
}

#[test]
fn only_operators_and_administrators_dispatch() {
    assert!(access(OPERATOR).may_dispatch());
    assert!(access(ADMINISTRATOR).may_dispatch());
    assert!(!access(TECHNICIAN).may_dispatch());
    assert!(!access(READER).may_dispatch());
}

#[test]
fn only_the_assignee_or_an_administrator_may_complete() {
    assert!(access(TECHNICIAN).may_complete(1));
    assert!(!access(TECHNICIAN).may_complete(2));
    assert!(access(ADMINISTRATOR).may_complete(2));
    assert!(!access(OPERATOR).may_complete(2));
    assert!(!access(READER).may_complete(1));
}

#[test]
fn only_an_administrator_administers() {
    assert!(access(ADMINISTRATOR).is_admin());
    assert!(!access(OPERATOR).is_admin());
    assert!(!access(TECHNICIAN).is_admin());
    assert!(!access(READER).is_admin());
}

#[test]
fn only_a_technician_is_narrowed_to_their_own_orders() {
    assert!(access(TECHNICIAN).sees_only_own_orders());
    assert!(!access(OPERATOR).sees_only_own_orders());
}
