use spektra::enums::{AlarmState, WorkOrderStatus};
use spektra::orders::{alarm_after_completion, check_dispatch, describe, FieldReport};

fn report(fault: bool, cause: Option<&str>, action: Option<&str>) -> FieldReport {
    FieldReport {
        fault_present: fault,
        cause: cause.map(ToOwned::to_owned),
        action_taken: action.map(ToOwned::to_owned),
    }
}

#[test]
fn a_confirmed_fault_says_so() {
    assert_eq!(
        describe(&report(true, None, None)),
        "fault confirmed on site"
    );
}

#[test]
fn a_clear_visit_says_so() {
    assert_eq!(
        describe(&report(false, None, None)),
        "no fault found on site"
    );
}

#[test]
fn the_cause_and_the_action_both_reach_the_event() {
    assert_eq!(
        describe(&report(
            true,
            Some("water in the feeder"),
            Some("replaced it")
        )),
        "fault confirmed on site: water in the feeder; replaced it"
    );
    assert_eq!(
        describe(&report(true, Some("water in the feeder"), None)),
        "fault confirmed on site: water in the feeder"
    );
    assert_eq!(
        describe(&report(false, None, Some("retightened the connector"))),
        "no fault found on site; retightened the connector"
    );
}

#[test]
fn a_closed_alarm_cannot_be_dispatched() {
    assert!(check_dispatch("Aalborg", true, AlarmState::Closed).is_err());
    assert!(check_dispatch("Aalborg", false, AlarmState::Open).is_err());
    assert!(check_dispatch("Aalborg", true, AlarmState::Open).is_ok());
}

#[test]
fn completing_an_order_closes_its_alarm() {
    assert_eq!(alarm_after_completion(AlarmState::Open).0, AlarmState::Closed);
    let _ = WorkOrderStatus::Assigned;
}
