use spektra::alarms::{may_transition, next_states, offered_actions, offers_dispatch};
use spektra::enums::AlarmState;

const ALL: [AlarmState; 4] = [
    AlarmState::Open,
    AlarmState::Acknowledged,
    AlarmState::UnderVerification,
    AlarmState::Closed,
];

#[test]
fn the_lifecycle_runs_forwards() {
    assert!(may_transition(AlarmState::Open, AlarmState::Acknowledged));
    assert!(may_transition(
        AlarmState::Acknowledged,
        AlarmState::UnderVerification
    ));
    assert!(may_transition(
        AlarmState::UnderVerification,
        AlarmState::Closed
    ));
}

#[test]
fn the_lifecycle_does_not_run_backwards() {
    assert!(!may_transition(AlarmState::Acknowledged, AlarmState::Open));
    assert!(!may_transition(
        AlarmState::UnderVerification,
        AlarmState::Acknowledged
    ));
}

#[test]
fn a_step_may_not_be_skipped_except_to_closed() {
    assert!(!may_transition(
        AlarmState::Open,
        AlarmState::UnderVerification
    ));
    assert!(may_transition(AlarmState::Open, AlarmState::Closed));
    assert!(may_transition(AlarmState::Acknowledged, AlarmState::Closed));
}

#[test]
fn a_closed_alarm_is_final() {
    for to in ALL {
        assert!(
            !may_transition(AlarmState::Closed, to),
            "a closed alarm moved to {to:?}"
        );
    }
}

#[test]
fn an_alarm_never_transitions_to_where_it_already_is() {
    for state in ALL {
        assert!(!may_transition(state, state), "{state:?} moved to itself");
    }
}

#[test]
fn the_offered_moves_match_the_rule() {
    assert_eq!(
        next_states(AlarmState::Open),
        vec![AlarmState::Acknowledged, AlarmState::Closed]
    );
    assert_eq!(
        next_states(AlarmState::Acknowledged),
        vec![AlarmState::UnderVerification, AlarmState::Closed]
    );
    assert_eq!(
        next_states(AlarmState::UnderVerification),
        vec![AlarmState::Closed]
    );
    assert!(next_states(AlarmState::Closed).is_empty());
}

#[test]
fn a_viewer_who_may_act_is_offered_each_legal_move() {
    let actions = offered_actions(AlarmState::Open, true);
    let moves: Vec<(&str, &str)> = actions.iter().map(|a| (a.to, a.label)).collect();
    assert_eq!(moves, vec![("acknowledged", "Kvittér"), ("closed", "Luk")]);

    assert!(offered_actions(AlarmState::Open, false).is_empty());
    assert!(offered_actions(AlarmState::Closed, true).is_empty());
}

#[test]
fn a_closed_alarm_offers_no_dispatch() {
    assert!(offers_dispatch(true, AlarmState::Open));
    assert!(!offers_dispatch(true, AlarmState::Closed));
    assert!(!offers_dispatch(false, AlarmState::Open));
}
