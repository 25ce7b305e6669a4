use spektra::admin::{
    check_new_account, check_node_update, owner_after, removes_own_access, AccountRefusal,
    NodeUpdateRefusal, PositionCheck,
};

#[test]
fn an_account_is_stored_trimmed_and_lowercased() {
    let account = check_new_account(" Tech@Example.DK ", " Ida Hansen ", " technician ", "long enough password")
        .expect("a valid account");
    assert_eq!(account.email, "tech@example.dk");
    assert_eq!(account.full_name, "Ida Hansen");
    assert_eq!(account.role, "technician");
}

#[test]
fn each_rule_on_a_new_account_has_its_refusal() {
    let password = "long enough password";
    assert_eq!(
        check_new_account("no-at-sign", "Ida", "reader", password).err(),
        Some(AccountRefusal::MissingEmail)
    );
    let long = format!("{}@example.dk", "a".repeat(320));
    assert_eq!(
        check_new_account(&long, "Ida", "reader", password).err(),
        Some(AccountRefusal::EmailTooLong)
    );
    assert_eq!(
        check_new_account("ida@example.dk", "  ", "reader", password).err(),
        Some(AccountRefusal::BadName)
    );
    assert_eq!(
        check_new_account("ida@example.dk", "Ida", "reader", "short").err(),
        Some(AccountRefusal::ShortPassword)
    );
}

#[test]
fn an_administrator_cannot_remove_their_own_access() {
    assert!(removes_own_access(1, 1, Some(true), None));
    assert!(removes_own_access(1, 1, None, Some("operator")));
    assert!(!removes_own_access(1, 1, None, Some("administrator")));
    assert!(!removes_own_access(1, 2, Some(true), None));
}

#[test]
fn a_node_change_is_checked_in_order() {
    assert_eq!(
        check_node_update(false, true, false, None, PositionCheck::Absent),
        Err(NodeUpdateRefusal::NotOwner)
    );
    assert_eq!(
        check_node_update(true, false, true, None, PositionCheck::Absent),
        Err(NodeUpdateRefusal::OwnerChangeNotAllowed)
    );
    assert_eq!(
        check_node_update(true, true, false, Some(""), PositionCheck::Absent),
        Err(NodeUpdateRefusal::BadName)
    );
    assert_eq!(
        check_node_update(true, true, false, None, PositionCheck::Half),
        Err(NodeUpdateRefusal::PositionHalf)
    );
    assert_eq!(
        check_node_update(true, true, false, Some(" Skagen "), PositionCheck::OnTheGlobe),
        Ok(Some("Skagen".to_owned()))
    );
}

#[test]
fn owner_zero_means_nobody() {
    assert_eq!(owner_after(0), None);
    assert_eq!(owner_after(5), Some(5));
}
