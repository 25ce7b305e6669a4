//! Work orders: dispatching an alarm to a technician, filing the field
//! report, the words recorded on the alarm's history for each, and what a
//! field report writes.
use vstd::prelude::*;

use crate::alarms::{move_alarm, moved, AlarmChange, AlarmRow};
use crate::enums::{AlarmState, WorkOrderStatus};
use crate::text::{push_signed_decimal, signed_decimal, trim, trimmed};
use crate::visibility::{is_role, Access, ADMINISTRATOR, OPERATOR, READER};

verus! {

/// Longest station name accepted, in characters.
pub const MAX_STATION_CHARS: usize = 200;

/// What the technician found.
#[derive(Debug)]
pub struct FieldReport {
    /// Whether the fault was still there when they arrived.
    pub fault_present: bool,
    /// What caused it, in the technician's words.
    pub cause: Option<String>,
    /// What they did about it.
    pub action_taken: Option<String>,
}

/// The verdict a field report opens with.
pub open spec fn verdict(fault_present: bool) -> Seq<char> {
    if fault_present {
        "fault confirmed on site"@
    } else {
        "no fault found on site"@
    }
}

/// What a field report records on the alarm's history: the verdict, then
/// the cause after a colon and the action after a semicolon, each if given.
pub open spec fn description(report: &FieldReport) -> Seq<char> {
    let head = verdict(report.fault_present);
    let with_cause = match report.cause {
        Some(cause) => head + ": "@ + cause@,
        None => head,
    };
    match report.action_taken {
        Some(action) => with_cause + "; "@ + action@,
        None => with_cause,
    }
}

/// The reason recorded on a field report's alarm event.
pub fn describe(report: &FieldReport) -> (text: String)
    ensures
        text@ == description(report),
{
    let mut text = if report.fault_present {
        String::from_str("fault confirmed on site")
    } else {
        String::from_str("no fault found on site")
    };
    match &report.cause {
        Some(cause) => {
            text.append(": ");
            text.append(cause.as_str());
        },
        None => {},
    }
    match &report.action_taken {
        Some(action) => {
            text.append("; ");
            text.append(action.as_str());
        },
        None => {},
    }
    text
}

/// Why a dispatch was refused.
#[derive(Debug, Clone, Copy, PartialEq, Eq, Structural)]
pub enum DispatchRefusal {
    /// The station name is empty once trimmed.
    MissingStation,
    /// The station name is longer than [`MAX_STATION_CHARS`].
    StationTooLong,
    /// Only operators and administrators dispatch.
    MayNotDispatch,
    /// A closed alarm cannot be dispatched.
    AlarmClosed,
}

/// What a dispatch does once it is allowed.
#[derive(Debug, Clone, PartialEq, Eq)]
pub struct DispatchPlan {
    /// The station name as stored: the request's name, trimmed.
    pub station: String,
    /// Whether the alarm moves to under verification, recording an event;
    /// an alarm already under verification stays where it is.
    pub moves_alarm: bool,
}

/// The first check a dispatch request fails, if any, in the order the
/// server checks them: the station name, the user's role, and whether the
/// alarm is closed.
pub open spec fn dispatch_refusal(station_name: Seq<char>, may_dispatch: bool, from: AlarmState) -> Option<
    DispatchRefusal,
> {
    if trimmed(station_name).len() == 0 {
        Some(DispatchRefusal::MissingStation)
    } else if trimmed(station_name).len() > MAX_STATION_CHARS {
        Some(DispatchRefusal::StationTooLong)
    } else if !may_dispatch {
        Some(DispatchRefusal::MayNotDispatch)
    } else if from == AlarmState::Closed {
        Some(DispatchRefusal::AlarmClosed)
    } else {
        None
    }
}

/// The answer to a request to dispatch an alarm in state `from`.
pub fn check_dispatch(station_name: &str, may_dispatch: bool, from: AlarmState) -> (answer: Result<
    DispatchPlan,
    DispatchRefusal,
>)
    ensures
        match dispatch_refusal(station_name@, may_dispatch, from) {
            Some(refusal) => answer == Err::<DispatchPlan, DispatchRefusal>(refusal),
            None => answer matches Ok(plan) && plan.station@ == trimmed(station_name@)
                && plan.moves_alarm == (from != AlarmState::UnderVerification),
        },
{
    let station = trim(station_name);
    let length = station.unicode_len();
    if length == 0 {
        return Err(DispatchRefusal::MissingStation);
    }
    if length > MAX_STATION_CHARS {
        return Err(DispatchRefusal::StationTooLong);
    }
    if !may_dispatch {
        return Err(DispatchRefusal::MayNotDispatch);
    }
    if from == AlarmState::Closed {
        return Err(DispatchRefusal::AlarmClosed);
    }
    Ok(DispatchPlan { station: station.to_owned(), moves_alarm: from != AlarmState::UnderVerification })
}

/// The reason a dispatch records on the alarm's history.
pub open spec fn dispatch_note(technician_user_id: i64, station: Seq<char>) -> Seq<char> {
    "dispatched to technician "@ + signed_decimal(technician_user_id as int) + " at "@ + station
}

/// The reason a dispatch records on the alarm's history.
pub fn dispatch_reason(technician_user_id: i64, station: &str) -> (text: String)
    ensures
        text@ == dispatch_note(technician_user_id, station@),
{
    let mut text = String::from_str("dispatched to technician ");
    push_signed_decimal(&mut text, technician_user_id);
    text.append(" at ");
    text.append(station);
    text
}

/// The work order a dispatch creates: the store adds its id, its status
/// (assigned) and when it was created.
#[derive(Debug, Clone, PartialEq, Eq)]
pub struct NewOrder {
    pub alarm_id: i64,
    pub technician_user_id: i64,
    pub station_name: String,
}

/// What a dispatch writes: the new order, the alarm's row afterwards, and
/// the event appended to its history, if any.
#[derive(Debug, Clone, PartialEq, Eq)]
pub struct Dispatched {
    pub order: NewOrder,
    pub alarm: AlarmRow,
    pub event: Option<AlarmChange>,
}

/// The row of `alarm` once it is under verification, updated at `now_ms`;
/// nothing else about it changes.
pub open spec fn under_verification(alarm: AlarmRow, now_ms: i64) -> AlarmRow {
    AlarmRow { state: AlarmState::UnderVerification, updated_at: now_ms, ..alarm }
}

/// A user's request to send technician `technician_user_id` to the station
/// `station_name` for `alarm`, at `now_ms`: refused as [`check_dispatch`]
/// says; else a new order for the trimmed station name, and, unless the
/// alarm is under verification already, the alarm moved there now with one
/// event from its old state, by the user, carrying [`dispatch_reason`].
/// Reading the alarm and writing the result are the store's part.
pub fn dispatch(
    access: &Access,
    alarm: AlarmRow,
    technician_user_id: i64,
    station_name: &str,
    now_ms: i64,
) -> (answer: Result<Dispatched, DispatchRefusal>)
    ensures
        match dispatch_refusal(
            station_name@,
            is_role(access.role@, OPERATOR) || is_role(access.role@, ADMINISTRATOR),
            alarm.state,
        ) {
            Some(refusal) => answer == Err::<Dispatched, DispatchRefusal>(refusal),
            None => {
                &&& answer matches Ok(done)
                &&& done.order.alarm_id == alarm.id
                &&& done.order.technician_user_id == technician_user_id
                &&& done.order.station_name@ == trimmed(station_name@)
                &&& if alarm.state == AlarmState::UnderVerification {
                    done.alarm == alarm && done.event is None
                } else {
                    &&& done.alarm == under_verification(alarm, now_ms)
                    &&& done.event matches Some(event)
                    &&& event.alarm_id == alarm.id
                    &&& event.from_state == Some(alarm.state)
                    &&& event.to_state == AlarmState::UnderVerification
                    &&& event.changed_by_user_id == Some(access.user_id)
                    &&& event.reason@ == dispatch_note(technician_user_id, trimmed(station_name@))
                }
            },
        },
{
    let may_dispatch = access.may_dispatch();
    let plan = match check_dispatch(station_name, may_dispatch, alarm.state) {
        Err(refusal) => return Err(refusal),
        Ok(plan) => plan,
    };
    let order = NewOrder {
        alarm_id: alarm.id,
        technician_user_id,
        station_name: plan.station,
    };
    if !plan.moves_alarm {
        return Ok(Dispatched { order, alarm, event: None });
    }
    let reason = dispatch_reason(technician_user_id, order.station_name.as_str());
    let after = AlarmRow { state: AlarmState::UnderVerification, updated_at: now_ms, ..alarm };
    let event = AlarmChange {
        alarm_id: alarm.id,
        from_state: Some(alarm.state),
        to_state: AlarmState::UnderVerification,
        changed_by_user_id: Some(access.user_id),
        reason,
    };
    Ok(Dispatched { order, alarm: after, event: Some(event) })
}

/// Why a field report was refused.
#[derive(Debug, Clone, Copy, PartialEq, Eq, Structural)]
pub enum CompletionRefusal {
    /// The user's role may read work orders but not complete them.
    MayNotAct,
    /// The order is assigned to another technician.
    NotAssignee,
    /// The order already has its field report.
    AlreadyCompleted,
}

/// The answer to a field report on an order assigned to `assignee` with
/// status `status`, checked in the order the server checks it: the user's
/// role, whose order it is, and whether it already has its report.
pub open spec fn completion_verdict(access: &Access, assignee: i64, status: WorkOrderStatus) -> Result<
    (),
    CompletionRefusal,
> {
    if is_role(access.role@, READER) {
        Err(CompletionRefusal::MayNotAct)
    } else if !(assignee == access.user_id || is_role(access.role@, ADMINISTRATOR)) {
        Err(CompletionRefusal::NotAssignee)
    } else if status == WorkOrderStatus::Completed {
        Err(CompletionRefusal::AlreadyCompleted)
    } else {
        Ok(())
    }
}

/// The answer to a field report on an order assigned to `assignee` with
/// status `status`.
pub fn check_completion(access: &Access, assignee: i64, status: WorkOrderStatus) -> (answer: Result<
    (),
    CompletionRefusal,
>)
    ensures
        answer == completion_verdict(access, assignee, status),
{
    if !access.may_act() {
        return Err(CompletionRefusal::MayNotAct);
    }
    if !access.may_complete(assignee) {
        return Err(CompletionRefusal::NotAssignee);
    }
    if status == WorkOrderStatus::Completed {
        return Err(CompletionRefusal::AlreadyCompleted);
    }
    Ok(())
}

/// Where a completed order leaves its alarm: closed. The alarm's history
/// gains an event only if the alarm was not closed already.
pub fn alarm_after_completion(from: AlarmState) -> (after: (AlarmState, bool))
    ensures
        after == (AlarmState::Closed, from != AlarmState::Closed),
{
    (AlarmState::Closed, from != AlarmState::Closed)
}

/// A work order as the store holds it, instants in Unix milliseconds.
#[derive(Debug, Clone, PartialEq, Eq)]
pub struct OrderRow {
    pub id: i64,
    pub alarm_id: i64,
    pub technician_user_id: i64,
    pub station_name: String,
    pub status: WorkOrderStatus,
    /// Whether the technician found the fault still present; absent until completed.
    pub fault_present: Option<bool>,
    pub cause: Option<String>,
    pub action_taken: Option<String>,
    pub completed_at: Option<i64>,
    pub created_at: i64,
}

/// What a field report writes: the completed order, the alarm's row
/// afterwards, and the event appended to its history, if any.
#[derive(Debug, Clone, PartialEq, Eq)]
pub struct Completion {
    pub order: OrderRow,
    pub alarm: AlarmRow,
    pub event: Option<AlarmChange>,
}

impl Completion {
    /// The alarm's state after the report was filed.
    pub fn alarm_state(&self) -> (state: AlarmState)
        ensures
            state == self.alarm.state,
    {
        self.alarm.state
    }
}

/// The row of `order` once `report` is filed at `now_ms`: completed, with
/// the report's verdict, cause and action, and completed now.
pub open spec fn completed(order: OrderRow, report: FieldReport, now_ms: i64) -> OrderRow {
    OrderRow {
        id: order.id,
        alarm_id: order.alarm_id,
        technician_user_id: order.technician_user_id,
        station_name: order.station_name,
        status: WorkOrderStatus::Completed,
        fault_present: Some(report.fault_present),
        cause: report.cause,
        action_taken: report.action_taken,
        completed_at: Some(now_ms),
        created_at: order.created_at,
    }
}

/// A user's field report on `order`, whose alarm's row is `alarm`, filed at
/// `now_ms`: refused as [`check_completion`] says; else the order completed
/// with the report, and the alarm closed now with one event from its old
/// state to closed, by the user, carrying [`describe`] of the report. An
/// alarm that is closed already keeps its row and gains no event. Reading
/// the rows and writing the result are the store's part.
pub fn complete(access: &Access, order: OrderRow, alarm: AlarmRow, report: FieldReport, now_ms: i64) -> (answer:
    Result<Completion, CompletionRefusal>)
    ensures
        match completion_verdict(access, order.technician_user_id, order.status) {
            Err(refusal) => answer == Err::<Completion, CompletionRefusal>(refusal),
            Ok(()) => {
                &&& answer matches Ok(done)
                &&& done.order == completed(order, report, now_ms)
                &&& if alarm.state == AlarmState::Closed {
                    done.alarm == alarm && done.event is None
                } else {
                    &&& done.alarm == moved(alarm, AlarmState::Closed, now_ms)
                    &&& done.event matches Some(event)
                    &&& event.alarm_id == order.alarm_id
                    &&& event.from_state == Some(alarm.state)
                    &&& event.to_state == AlarmState::Closed
                    &&& event.changed_by_user_id == Some(access.user_id)
                    &&& event.reason@ == description(&report)
                }
            },
        },
{
    match check_completion(access, order.technician_user_id, order.status) {
        Err(refusal) => Err(refusal),
        Ok(()) => {
            let reason = describe(&report);
            let from = alarm.state;
            let done_order = OrderRow {
                id: order.id,
                alarm_id: order.alarm_id,
                technician_user_id: order.technician_user_id,
                station_name: order.station_name,
                status: WorkOrderStatus::Completed,
                fault_present: Some(report.fault_present),
                cause: report.cause,
                action_taken: report.action_taken,
                completed_at: Some(now_ms),
                created_at: order.created_at,
            };
            if from == AlarmState::Closed {
                Ok(Completion { order: done_order, alarm, event: None })
            } else {
                let after = move_alarm(alarm, AlarmState::Closed, now_ms);
                let event = AlarmChange {
                    alarm_id: order.alarm_id,
                    from_state: Some(from),
                    to_state: AlarmState::Closed,
                    changed_by_user_id: Some(access.user_id),
                    reason,
                };
                Ok(Completion { order: done_order, alarm: after, event: Some(event) })
            }
        },
    }
}

} // verus!
