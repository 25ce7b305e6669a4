use spektra::agent::{
    begin_registration, bearer_value, finish_registration, keeps_session, Delivery, Enrolment,
    LiveSession, RegistrationAnswer, RegistrationError,
};
use spektra::enums::AlarmState;
use spektra::events::{relays, AlarmEvent, NodeEvent};
use spektra::identity::Identity;
use spektra::visibility::Visibility;

fn stored() -> Identity {
    Identity {
        identity: "abc".to_owned(),
        node_id: 4,
        credential: "secret".to_owned(),
    }
}

#[test]
fn a_stored_identity_is_resumed() {
    assert_eq!(
        begin_registration(Some(stored()), None),
        Ok(Enrolment::Resume(stored()))
    );
}

#[test]
fn registering_needs_an_enrollment_token() {
    assert_eq!(
        begin_registration(None, None),
        Err(RegistrationError::MissingEnrollmentToken)
    );
    match begin_registration(None, Some("token".to_owned())) {
        Ok(Enrolment::Register { identity, token }) => {
            assert_eq!(identity.len(), 32);
            assert_eq!(token, "token");
        }
        other => panic!("expected a registration, got {other:?}"),
    }
}

#[test]
fn a_known_identity_without_its_credential_is_lost() {
    assert_eq!(
        finish_registration("abc".to_owned(), RegistrationAnswer::AlreadyExists),
        Err(RegistrationError::LostCredential {
            identity: "abc".to_owned()
        })
    );
    assert_eq!(
        finish_registration(
            "abc".to_owned(),
            RegistrationAnswer::Registered {
                node_id: 4,
                credential: "secret".to_owned()
            }
        ),
        Ok(stored())
    );
}

#[test]
fn a_call_carries_its_credential_as_a_bearer() {
    assert_eq!(bearer_value("secret"), "Bearer secret");
}

#[test]
fn a_channel_is_forwarded_once_per_interval() {
    let mut session = LiveSession::start(9, 1_000, 60_000, 1_000);

    assert!(session.due(96_500_000, 1_000));
    assert!(!session.due(96_500_000, 1_500));
    assert!(session.due(89_700_000, 1_500));
    assert!(session.due(96_500_000, 2_000));
    assert!(session.running(60_999));
    assert!(!session.running(61_000));
}

#[test]
fn a_session_ends_when_the_server_names_another() {
    assert!(keeps_session(9, Delivery::Acknowledged { session_id: 9 }));
    assert!(!keeps_session(9, Delivery::Acknowledged { session_id: 10 }));
    assert!(keeps_session(9, Delivery::Refused));
    assert!(!keeps_session(9, Delivery::Failed));
}

#[test]
fn a_dashboard_sees_only_the_nodes_its_viewer_may() {
    let narrowed = Visibility::Nodes([3_i64].into_iter().collect());
    let event = NodeEvent::Silent {
        node_id: 3,
        since: 1_772_000_000,
    };

    assert!(relays(&narrowed, event.node_id()));
    assert!(!relays(&narrowed, 4));
    assert_eq!(event.status(), ("silent", Some(1_772_000_000)));
    assert_eq!(
        NodeEvent::SuspensionChanged {
            node_id: 3,
            suspended: false
        }
        .status(),
        ("reporting", None)
    );
}

#[test]
fn a_changed_alarm_replaces_its_entry() {
    let changed = AlarmEvent::StateChanged {
        alarm_id: 7,
        node_id: 3,
        from: AlarmState::Open,
        to: AlarmState::Closed,
    };
    let raised = AlarmEvent::Raised {
        alarm_id: 8,
        node_id: 3,
        metric: None,
    };

    assert!(changed.stub().replace);
    assert!(!raised.stub().replace);
    assert_eq!(raised.stub().alarm_id, 8);
}

#[test]
fn delivered_reports_leave_the_journal() {
    assert_eq!(spektra::agent::undelivered(vec![1, 2, 3, 4], 3), vec![4]);
    assert_eq!(spektra::agent::undelivered(vec![1, 2], 0), vec![1, 2]);
}

#[test]
fn an_unlabelled_channel_is_called_by_its_frequency() {
    assert_eq!(spektra::agent::channel_label(96_500_000, ""), "96500000 Hz");
    assert_eq!(spektra::agent::channel_label(96_500_000, "DR P1"), "DR P1");
    assert!(spektra::agent::plan_changed(3, 4));
    assert!(!spektra::agent::plan_changed(4, 4));
}
