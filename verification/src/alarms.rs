//! The alarm lifecycle: which moves are legal, which are offered, what a
//! request to move an alarm is answered, and what the move writes.
use vstd::prelude::*;

use crate::enums::{AlarmState, Metric};
use crate::templates::Transition;
use crate::text::{blank, is_blank};
use crate::visibility::{is_role, Access, READER};

verus! {

/// Whether the lifecycle allows a move from `from` to `to`: one step forward
/// from open to acknowledged to under verification, or straight to closed
/// from any state but closed.
pub open spec fn allowed(from: AlarmState, to: AlarmState) -> bool {
    match (from, to) {
        (AlarmState::Open, AlarmState::Acknowledged) => true,
        (AlarmState::Acknowledged, AlarmState::UnderVerification) => true,
        (AlarmState::Open, AlarmState::Closed) => true,
        (AlarmState::Acknowledged, AlarmState::Closed) => true,
        (AlarmState::UnderVerification, AlarmState::Closed) => true,
        _ => false,
    }
}

/// Position of a state along the lifecycle.
pub open spec fn rank(state: AlarmState) -> int {
    match state {
        AlarmState::Open => 0,
        AlarmState::Acknowledged => 1,
        AlarmState::UnderVerification => 2,
        AlarmState::Closed => 3,
    }
}

/// The states in the order the lifecycle runs through them.
pub open spec fn lifecycle() -> Seq<AlarmState> {
    seq![AlarmState::Open, AlarmState::Acknowledged, AlarmState::UnderVerification, AlarmState::Closed]
}

/// The button text for moving an alarm to `to`.
pub open spec fn action_label(to: AlarmState) -> Seq<char> {
    match to {
        AlarmState::Open => "Genåbn"@,
        AlarmState::Acknowledged => "Kvittér"@,
        AlarmState::UnderVerification => "Send til verifikation"@,
        AlarmState::Closed => "Luk"@,
    }
}

fn action_text(to: AlarmState) -> (text: &'static str)
    ensures
        text@ == action_label(to),
{
    match to {
        AlarmState::Open => "Genåbn",
        AlarmState::Acknowledged => "Kvittér",
        AlarmState::UnderVerification => "Send til verifikation",
        AlarmState::Closed => "Luk",
    }
}

/// The moves an alarm in `from` offers its viewer: every allowed next state,
/// in lifecycle order, for a viewer who may act; none for anybody else.
pub fn offered_actions(from: AlarmState, may_act: bool) -> (actions: Vec<Transition>)
    ensures
        !may_act ==> actions@.len() == 0,
        may_act ==> actions@.len() == lifecycle().filter(|to: AlarmState| allowed(from, to)).len(),
        may_act ==> forall|i: int|
            #![trigger actions@[i]]
            0 <= i < actions@.len() ==> {
                let to = lifecycle().filter(|to: AlarmState| allowed(from, to))[i];
                actions@[i].to@ == to.label_of() && actions@[i].label@ == action_label(to)
            },
{
    let mut actions: Vec<Transition> = Vec::new();
    if !may_act {
        return actions;
    }
    let next = next_states(from);
    let mut i: usize = 0;
    while i < next.len()
        invariant
            i <= next@.len(),
            actions@.len() == i,
            forall|k: int|
                #![trigger actions@[k]]
                0 <= k < i ==> actions@[k].to@ == next@[k].label_of() && actions@[k].label@
                    == action_label(next@[k]),
        decreases next@.len() - i,
    {
        let to = next[i];
        actions.push(Transition { to: to.label(), label: action_text(to) });
        i = i + 1;
    }
    actions
}

/// Whether an alarm offers its viewer a dispatch: the viewer may dispatch and
/// the alarm is still open to work.
pub fn offers_dispatch(may_dispatch: bool, state: AlarmState) -> (offered: bool)
    ensures
        offered == (may_dispatch && state != AlarmState::Closed),
{
    may_dispatch && !matches!(state, AlarmState::Closed)
}

/// Whether a move along the lifecycle is allowed.
pub fn may_transition(from: AlarmState, to: AlarmState) -> (may: bool)
    ensures
        may == allowed(from, to),
{
    match (from, to) {
        (AlarmState::Open, AlarmState::Acknowledged) => true,
        (AlarmState::Acknowledged, AlarmState::UnderVerification) => true,
        (AlarmState::Open, AlarmState::Closed) => true,
        (AlarmState::Acknowledged, AlarmState::Closed) => true,
        (AlarmState::UnderVerification, AlarmState::Closed) => true,
        _ => false,
    }
}

/// The states an alarm may move to from where it is, in lifecycle order.
pub fn next_states(from: AlarmState) -> (next: Vec<AlarmState>)
    ensures
        next@ == lifecycle().filter(|to: AlarmState| allowed(from, to)),
{
    let all = [
        AlarmState::Open,
        AlarmState::Acknowledged,
        AlarmState::UnderVerification,
        AlarmState::Closed,
    ];
    let ghost order = lifecycle();
    assert(all@ == order);
    let mut next: Vec<AlarmState> = Vec::new();
    let mut i: usize = 0;
    while i < 4
        invariant
            all@ == order,
            order == lifecycle(),
            0 <= i <= 4,
            next@ == order.take(i as int).filter(|to: AlarmState| allowed(from, to)),
        decreases 4 - i,
    {
        proof {
            reveal_with_fuel(Seq::<_>::filter, 1);
            assert(order.take(i + 1).drop_last() =~= order.take(i as int));
        }
        if may_transition(from, all[i]) {
            next.push(all[i]);
        }
        i = i + 1;
    }
    assert(order.take(4) =~= order);
    next
}

/// Why a requested move was refused.
#[derive(Debug, Clone, Copy, PartialEq, Eq, Structural)]
pub enum TransitionRefusal {
    /// The request gave no reason, or only white space.
    MissingReason,
    /// The user's role may read alarms but not change them.
    MayNotAct,
    /// The alarm is on a node the user is not dispatched to.
    NotVisible,
    /// The lifecycle does not allow the move.
    Illegal,
}

/// The answer to a request to move an alarm from `from` to `to`, checked in
/// the order the server checks it: the reason, the user's role, whether the
/// user may see the alarm's node, and the lifecycle.
pub open spec fn transition_verdict(
    reason: Seq<char>,
    may_act: bool,
    node_visible: bool,
    from: AlarmState,
    to: AlarmState,
) -> Result<(), TransitionRefusal> {
    if blank(reason) {
        Err(TransitionRefusal::MissingReason)
    } else if !may_act {
        Err(TransitionRefusal::MayNotAct)
    } else if !node_visible {
        Err(TransitionRefusal::NotVisible)
    } else if !allowed(from, to) {
        Err(TransitionRefusal::Illegal)
    } else {
        Ok(())
    }
}

/// The answer to a request to move an alarm from `from` to `to`.
pub fn check_transition(
    reason: &str,
    may_act: bool,
    node_visible: bool,
    from: AlarmState,
    to: AlarmState,
) -> (answer: Result<(), TransitionRefusal>)
    ensures
        answer == transition_verdict(reason@, may_act, node_visible, from, to),
{
    if is_blank(reason) {
        return Err(TransitionRefusal::MissingReason);
    }
    if !may_act {
        return Err(TransitionRefusal::MayNotAct);
    }
    if !node_visible {
        return Err(TransitionRefusal::NotVisible);
    }
    if !may_transition(from, to) {
        return Err(TransitionRefusal::Illegal);
    }
    Ok(())
}

/// An alarm as the store holds it, instants in Unix milliseconds. The
/// detector's explanation is stored beside it and no move touches it.
#[derive(Debug, Clone, Copy, PartialEq, Eq)]
pub struct AlarmRow {
    pub id: i64,
    pub node_id: i64,
    /// Absent for whole-node alarms such as silence.
    pub channel_id: Option<i64>,
    /// Absent for whole-node alarms such as silence.
    pub metric: Option<Metric>,
    pub state: AlarmState,
    pub raised_at: i64,
    pub updated_at: i64,
    pub closed_at: Option<i64>,
}

/// One step of an alarm's history, as it is appended.
#[derive(Debug, Clone, PartialEq, Eq)]
pub struct AlarmChange {
    pub alarm_id: i64,
    /// Absent for the event that raised the alarm.
    pub from_state: Option<AlarmState>,
    pub to_state: AlarmState,
    /// Absent when the detector made the move rather than a person.
    pub changed_by_user_id: Option<i64>,
    pub reason: String,
}

/// What an allowed move writes: the alarm's new row and the one event
/// appended to its history.
#[derive(Debug, Clone, PartialEq, Eq)]
pub struct Transitioned {
    pub alarm: AlarmRow,
    pub event: AlarmChange,
}

/// The row of `alarm` once it has moved to `to` at `now_ms`: the new
/// state, updated now, and closed now exactly when the new state is closed.
pub open spec fn moved(alarm: AlarmRow, to: AlarmState, now_ms: i64) -> AlarmRow {
    AlarmRow {
        id: alarm.id,
        node_id: alarm.node_id,
        channel_id: alarm.channel_id,
        metric: alarm.metric,
        state: to,
        raised_at: alarm.raised_at,
        updated_at: now_ms,
        closed_at: if to == AlarmState::Closed {
            Some(now_ms)
        } else {
            None
        },
    }
}

/// The row of `alarm` once it has moved to `to` at `now_ms`.
pub fn move_alarm(alarm: AlarmRow, to: AlarmState, now_ms: i64) -> (after: AlarmRow)
    ensures
        after == moved(alarm, to, now_ms),
{
    let closed_at = if to == AlarmState::Closed {
        Some(now_ms)
    } else {
        None
    };
    AlarmRow {
        id: alarm.id,
        node_id: alarm.node_id,
        channel_id: alarm.channel_id,
        metric: alarm.metric,
        state: to,
        raised_at: alarm.raised_at,
        updated_at: now_ms,
        closed_at,
    }
}

/// A user's request to move `alarm` to `to` for `reason` at `now_ms`:
/// refused as [`check_transition`] says, else the alarm's new row and one
/// event from its old state to `to`, by the user, carrying the reason as
/// given. Reading the row and writing the result are the store's part.
pub fn transition_alarm(
    access: &Access,
    alarm: AlarmRow,
    to: AlarmState,
    reason: String,
    now_ms: i64,
) -> (answer: Result<Transitioned, TransitionRefusal>)
    ensures
        match transition_verdict(
            reason@,
            !is_role(access.role@, READER),
            access.visibility.shows(alarm.node_id),
            alarm.state,
            to,
        ) {
            Err(refusal) => answer == Err::<Transitioned, TransitionRefusal>(refusal),
            Ok(()) => answer == Ok::<Transitioned, TransitionRefusal>(
                Transitioned {
                    alarm: moved(alarm, to, now_ms),
                    event: AlarmChange {
                        alarm_id: alarm.id,
                        from_state: Some(alarm.state),
                        to_state: to,
                        changed_by_user_id: Some(access.user_id),
                        reason,
                    },
                },
            ),
        },
{
    let may_act = access.may_act();
    let visible = access.visibility.allows(alarm.node_id);
    match check_transition(reason.as_str(), may_act, visible, alarm.state, to) {
        Err(refusal) => Err(refusal),
        Ok(()) => {
            let after = move_alarm(alarm, to, now_ms);
            let event = AlarmChange {
                alarm_id: alarm.id,
                from_state: Some(alarm.state),
                to_state: to,
                changed_by_user_id: Some(access.user_id),
                reason,
            };
            Ok(Transitioned { alarm: after, event })
        },
    }
}

/// A closed alarm is final: no move leaves it.
pub proof fn lemma_closed_is_final(to: AlarmState)
    ensures
        !allowed(AlarmState::Closed, to),
{
}

/// No move leaves an alarm where it already is.
pub proof fn lemma_no_move_in_place(state: AlarmState)
    ensures
        !allowed(state, state),
{
}

/// The lifecycle only runs forwards, and only closing may skip a step.
pub proof fn lemma_lifecycle_runs_forwards(from: AlarmState, to: AlarmState)
    requires
        allowed(from, to),
    ensures
        rank(from) < rank(to),
        rank(to) == rank(from) + 1 || to == AlarmState::Closed,
{
}

/// Every alarm that is not closed can still be closed.
pub proof fn lemma_every_open_alarm_can_close(from: AlarmState)
    requires
        from != AlarmState::Closed,
    ensures
        allowed(from, AlarmState::Closed),
{
}

} // verus!
