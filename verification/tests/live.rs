use spektra::live::{Command, Reach, Sessions, SAMPLE_INTERVAL_MS, SESSION_TTL_MS};

const NOW: i64 = 1_772_000_000_000;

fn sample_id(command: Option<Command>) -> u64 {
    match command {
        Some(Command::Sample { session_id, .. }) => session_id,
        other => panic!("expected a sample command, got {other:?}"),
    }
}

#[test]
fn a_node_nobody_dialled_in_for_cannot_be_told() {
    let mut sessions = Sessions::new();

    assert_eq!(sessions.open(1, NOW), (Reach::Absent, None));
    assert!(sessions.is_open(1, NOW));
}

#[test]
fn opening_reaches_a_node_that_is_watching() {
    let mut sessions = Sessions::new();
    assert_eq!(sessions.watch(1, NOW), None);

    let (reach, command) = sessions.open(1, NOW);
    assert_eq!(reach, Reach::Told);

    match command {
        Some(Command::Sample {
            session_id,
            min_interval_ms,
            ..
        }) => {
            assert_ne!(session_id, 0);
            assert_eq!(min_interval_ms, SAMPLE_INTERVAL_MS);
        }
        other => panic!("expected a command, got {other:?}"),
    }
}

#[test]
fn a_node_that_dials_in_mid_session_is_told_about_it() {
    let mut sessions = Sessions::new();
    assert_eq!(sessions.open(1, NOW).0, Reach::Absent);

    assert_ne!(sample_id(sessions.watch(1, NOW + 10)), 0);
}

#[test]
fn renewing_keeps_the_same_session_id() {
    let mut sessions = Sessions::new();
    sessions.watch(1, NOW);

    let (reach, command) = sessions.open(1, NOW);
    assert_eq!(reach, Reach::Told);
    let first = sample_id(command);
    let (reach, command) = sessions.open(1, NOW + 1_000);
    assert_eq!(reach, Reach::Told);
    let second = sample_id(command);

    assert_eq!(first, second);
}

#[test]
fn only_the_running_session_is_accepted() {
    let mut sessions = Sessions::new();
    sessions.watch(1, NOW);
    let id = sample_id(sessions.open(1, NOW).1);

    assert!(sessions.accepts(1, id, NOW));
    assert!(!sessions.accepts(1, id.wrapping_add(1), NOW));
    assert!(!sessions.accepts(1, 0, NOW));
    assert!(!sessions.accepts(2, id, NOW), "another node's id was accepted");
}

#[test]
fn closing_stops_the_node_and_the_session() {
    let mut sessions = Sessions::new();
    sessions.watch(1, NOW);
    let id = sample_id(sessions.open(1, NOW).1);

    assert_eq!(sessions.close(1), Some(Command::Stop));

    assert!(!sessions.accepts(1, id, NOW));
    assert!(!sessions.is_open(1, NOW));
}

#[test]
fn a_sweep_drops_an_expired_session() {
    let mut sessions = Sessions::new();
    sessions.watch(1, NOW);
    assert_eq!(sessions.open(1, NOW).0, Reach::Told);

    let later = NOW + SESSION_TTL_MS + 1;
    assert!(!sessions.is_open(1, later), "an expired session still reads open");

    assert_eq!(sessions.sweep(later), vec![1]);
}

#[test]
fn a_redial_replaces_the_stream_it_found() {
    let mut sessions = Sessions::new();
    sessions.watch(1, NOW);
    sessions.watch(1, NOW);

    assert_eq!(sessions.open(1, NOW).0, Reach::Told);
}

#[test]
fn a_sweep_forgets_a_node_whose_stream_went_away() {
    let mut sessions = Sessions::new();
    sessions.watch(1, NOW);
    sessions.stream_lost(1);

    sessions.sweep(NOW);

    assert_eq!(
        sessions.open(1, NOW).0,
        Reach::Absent,
        "a dead stream still counts as reachable"
    );
}

#[test]
fn sessions_on_different_nodes_get_different_ids() {
    let mut sessions = Sessions::new();
    sessions.watch(1, NOW);
    sessions.watch(2, NOW);
    let first = sample_id(sessions.open(1, NOW).1);
    let second = sample_id(sessions.open(2, NOW).1);

    assert_ne!(first, second);
}
