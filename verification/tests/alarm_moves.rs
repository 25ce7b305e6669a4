use std::collections::HashSet;

use spektra::alarms::{transition_alarm, AlarmChange, AlarmRow, TransitionRefusal};
use spektra::enums::{AlarmState, Metric, WorkOrderStatus};
use spektra::orders::{
    complete, dispatch, CompletionRefusal, DispatchRefusal, FieldReport, NewOrder, OrderRow,
};
use spektra::visibility::{Access, Visibility, OPERATOR, READER, TECHNICIAN};

fn access(user_id: i64, role: &str, visibility: Visibility) -> Access {
    Access {
        user_id,
        role: role.to_owned(),
        visibility,
    }
}

fn alarm(state: AlarmState) -> AlarmRow {
    AlarmRow {
        id: 9,
        node_id: 4,
        channel_id: Some(12),
        metric: Some(Metric::SignalStrength),
        state,
        raised_at: 1_000,
        updated_at: 2_000,
        closed_at: None,
    }
}

fn order(status: WorkOrderStatus, technician: i64) -> OrderRow {
    OrderRow {
        id: 31,
        alarm_id: 9,
        technician_user_id: technician,
        station_name: "Aalborg".to_owned(),
        status,
        fault_present: None,
        cause: None,
        action_taken: None,
        completed_at: None,
        created_at: 1_500,
    }
}

fn report() -> FieldReport {
    FieldReport {
        fault_present: true,
        cause: Some("water in the feeder".to_owned()),
        action_taken: Some("replaced it".to_owned()),
    }
}

#[test]
fn an_acknowledgement_moves_the_alarm_and_records_one_event() {
    let moved = transition_alarm(
        &access(7, OPERATOR, Visibility::Fleet),
        alarm(AlarmState::Open),
        AlarmState::Acknowledged,
        "looking at it".to_owned(),
        5_000,
    )
    .expect("an allowed move");

    assert_eq!(moved.alarm.state, AlarmState::Acknowledged);
    assert_eq!(moved.alarm.updated_at, 5_000);
    assert_eq!(moved.alarm.closed_at, None);
    assert_eq!(moved.alarm.raised_at, 1_000);
    assert_eq!(
        moved.event,
        AlarmChange {
            alarm_id: 9,
            from_state: Some(AlarmState::Open),
            to_state: AlarmState::Acknowledged,
            changed_by_user_id: Some(7),
            reason: "looking at it".to_owned(),
        }
    );
}

#[test]
fn closing_an_alarm_stamps_when_it_closed() {
    let moved = transition_alarm(
        &access(7, OPERATOR, Visibility::Fleet),
        alarm(AlarmState::UnderVerification),
        AlarmState::Closed,
        "resolved".to_owned(),
        6_000,
    )
    .expect("an allowed move");

    assert_eq!(moved.alarm.state, AlarmState::Closed);
    assert_eq!(moved.alarm.closed_at, Some(6_000));
}

#[test]
fn a_refused_move_writes_nothing() {
    let fleet = || Visibility::Fleet;
    assert_eq!(
        transition_alarm(&access(7, OPERATOR, fleet()), alarm(AlarmState::Open), AlarmState::Closed, "  ".to_owned(), 1),
        Err(TransitionRefusal::MissingReason)
    );
    assert_eq!(
        transition_alarm(&access(7, READER, fleet()), alarm(AlarmState::Open), AlarmState::Closed, "done".to_owned(), 1),
        Err(TransitionRefusal::MayNotAct)
    );
    assert_eq!(
        transition_alarm(
            &access(7, TECHNICIAN, Visibility::Nodes(HashSet::from([5]))),
            alarm(AlarmState::Open),
            AlarmState::Closed,
            "done".to_owned(),
            1
        ),
        Err(TransitionRefusal::NotVisible)
    );
    assert_eq!(
        transition_alarm(&access(7, OPERATOR, fleet()), alarm(AlarmState::Closed), AlarmState::Open, "again".to_owned(), 1),
        Err(TransitionRefusal::Illegal)
    );
}

#[test]
fn a_field_report_completes_the_order_and_closes_its_alarm() {
    let done = complete(
        &access(3, TECHNICIAN, Visibility::Nodes(HashSet::from([4]))),
        order(WorkOrderStatus::Assigned, 3),
        alarm(AlarmState::UnderVerification),
        report(),
        8_000,
    )
    .expect("a completion");

    assert_eq!(done.order.status, WorkOrderStatus::Completed);
    assert_eq!(done.order.fault_present, Some(true));
    assert_eq!(done.order.cause.as_deref(), Some("water in the feeder"));
    assert_eq!(done.order.action_taken.as_deref(), Some("replaced it"));
    assert_eq!(done.order.completed_at, Some(8_000));
    assert_eq!(done.order.station_name, "Aalborg");
    assert_eq!(done.alarm_state(), AlarmState::Closed);
    assert_eq!(done.alarm.closed_at, Some(8_000));
    assert_eq!(
        done.event,
        Some(AlarmChange {
            alarm_id: 9,
            from_state: Some(AlarmState::UnderVerification),
            to_state: AlarmState::Closed,
            changed_by_user_id: Some(3),
            reason: "fault confirmed on site: water in the feeder; replaced it".to_owned(),
        })
    );
}

#[test]
fn a_report_on_an_alarm_closed_already_adds_no_event() {
    let mut closed = alarm(AlarmState::Closed);
    closed.closed_at = Some(4_000);
    let done = complete(
        &access(3, TECHNICIAN, Visibility::Fleet),
        order(WorkOrderStatus::Assigned, 3),
        closed,
        report(),
        8_000,
    )
    .expect("a completion");

    assert_eq!(done.alarm, closed);
    assert_eq!(done.event, None);
}

#[test]
fn a_refused_report_writes_nothing() {
    assert_eq!(
        complete(&access(3, READER, Visibility::Fleet), order(WorkOrderStatus::Assigned, 3), alarm(AlarmState::Open), report(), 1),
        Err(CompletionRefusal::MayNotAct)
    );
    assert_eq!(
        complete(&access(3, TECHNICIAN, Visibility::Fleet), order(WorkOrderStatus::Assigned, 8), alarm(AlarmState::Open), report(), 1),
        Err(CompletionRefusal::NotAssignee)
    );
    assert_eq!(
        complete(&access(3, TECHNICIAN, Visibility::Fleet), order(WorkOrderStatus::Completed, 3), alarm(AlarmState::Open), report(), 1),
        Err(CompletionRefusal::AlreadyCompleted)
    );
}

#[test]
fn a_dispatch_opens_an_order_and_puts_the_alarm_under_verification() {
    let done = dispatch(
        &access(7, OPERATOR, Visibility::Fleet),
        alarm(AlarmState::Acknowledged),
        3,
        "  Aalborg  ",
        7_000,
    )
    .expect("a dispatch");

    assert_eq!(
        done.order,
        NewOrder {
            alarm_id: 9,
            technician_user_id: 3,
            station_name: "Aalborg".to_owned(),
        }
    );
    assert_eq!(done.alarm.state, AlarmState::UnderVerification);
    assert_eq!(done.alarm.updated_at, 7_000);
    assert_eq!(done.alarm.closed_at, None);
    assert_eq!(
        done.event,
        Some(AlarmChange {
            alarm_id: 9,
            from_state: Some(AlarmState::Acknowledged),
            to_state: AlarmState::UnderVerification,
            changed_by_user_id: Some(7),
            reason: "dispatched to technician 3 at Aalborg".to_owned(),
        })
    );
}

#[test]
fn a_second_dispatch_leaves_the_alarm_where_it_is() {
    let verifying = alarm(AlarmState::UnderVerification);
    let done = dispatch(&access(7, OPERATOR, Visibility::Fleet), verifying, 4, "Skagen", 7_000)
        .expect("a dispatch");

    assert_eq!(done.alarm, verifying);
    assert_eq!(done.event, None);
    assert_eq!(done.order.technician_user_id, 4);
}

#[test]
fn a_refused_dispatch_writes_nothing() {
    let fleet = || Visibility::Fleet;
    assert_eq!(
        dispatch(&access(7, OPERATOR, fleet()), alarm(AlarmState::Open), 3, "   ", 1),
        Err(DispatchRefusal::MissingStation)
    );
    assert_eq!(
        dispatch(&access(7, OPERATOR, fleet()), alarm(AlarmState::Open), 3, &"x".repeat(201), 1),
        Err(DispatchRefusal::StationTooLong)
    );
    assert_eq!(
        dispatch(&access(7, TECHNICIAN, fleet()), alarm(AlarmState::Open), 3, "Aalborg", 1),
        Err(DispatchRefusal::MayNotDispatch)
    );
    assert_eq!(
        dispatch(&access(7, OPERATOR, fleet()), alarm(AlarmState::Closed), 3, "Aalborg", 1),
        Err(DispatchRefusal::AlarmClosed)
    );
}
