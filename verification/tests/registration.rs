use spektra::ingest::{
    check_registration, prepare_channel, ChannelRefusal, plan_enrollment, Enrollment, EnrollmentRefusal, LocationCheck,
    RegistrationRefusal,
};

fn check(
    version: &str,
    identity: &str,
    name: &str,
    location: LocationCheck,
    device: Option<&str>,
    metrics: Option<&[i32]>,
) -> Result<(), RegistrationRefusal> {
    check_registration(version, "1", identity, name, location, device, metrics)
}

#[test]
fn a_complete_registration_is_accepted() {
    assert_eq!(
        check("1", "abc", "node", LocationCheck::OnTheGlobe, Some("rtlsdr"), Some(&[1, 2])),
        Ok(())
    );
}

#[test]
fn each_missing_part_of_a_registration_is_named() {
    let good = Some(&[1_i32][..]);
    assert_eq!(
        check("2", "abc", "node", LocationCheck::OnTheGlobe, Some("rtlsdr"), good),
        Err(RegistrationRefusal::UnsupportedVersion)
    );
    assert_eq!(
        check("1", "", "node", LocationCheck::OnTheGlobe, Some("rtlsdr"), good),
        Err(RegistrationRefusal::EmptyIdentity)
    );
    assert_eq!(
        check("1", "abc", "node", LocationCheck::Missing, Some("rtlsdr"), good),
        Err(RegistrationRefusal::MissingLocation)
    );
    assert_eq!(
        check("1", "abc", "node", LocationCheck::OnTheGlobe, None, good),
        Err(RegistrationRefusal::MissingHardware)
    );
    assert_eq!(
        check("1", "abc", "node", LocationCheck::OnTheGlobe, Some("rtlsdr"), Some(&[3, 0])),
        Err(RegistrationRefusal::UnspecifiedMetric)
    );
    assert_eq!(
        check("1", "abc", "node", LocationCheck::OnTheGlobe, Some("rtlsdr"), Some(&[])),
        Err(RegistrationRefusal::NoMetrics)
    );
}

#[test]
fn a_credential_stays_with_the_identity_it_enrolled() {
    assert_eq!(
        plan_enrollment(Some("abc"), "xyz", false, false, true),
        Err(EnrollmentRefusal::BoundElsewhere)
    );
    assert_eq!(
        plan_enrollment(Some("abc"), "abc", true, false, true),
        Ok(Enrollment {
            set_name: true,
            set_location: false
        })
    );
    assert_eq!(
        plan_enrollment(None, "abc", false, true, true),
        Ok(Enrollment {
            set_name: false,
            set_location: true
        })
    );
}

#[test]
fn a_channel_without_a_label_is_named_by_its_frequency() {
    assert_eq!(prepare_channel(96_500_000, ""), Ok((96_500_000, "96500000 Hz".to_owned())));
    assert_eq!(prepare_channel(96_500_000, "DR P1"), Ok((96_500_000, "DR P1".to_owned())));
    assert_eq!(prepare_channel(u64::MAX, ""), Err(ChannelRefusal::FrequencyTooLarge));
    assert_eq!(
        prepare_channel(96_500_000, &"x".repeat(101)),
        Err(ChannelRefusal::LabelTooLong)
    );
}

#[test]
fn a_suspended_node_is_turned_away() {
    use_admission();
}

fn use_admission() {
    assert_eq!(
        spektra::ingest::let_in(None),
        Err(spektra::ingest::AdmissionRefusal::UnknownCredential)
    );
    assert_eq!(
        spektra::ingest::let_in(Some((3, true, 60))),
        Err(spektra::ingest::AdmissionRefusal::Suspended)
    );
    assert_eq!(
        spektra::ingest::let_in(Some((3, false, 60))),
        Ok(spektra::ingest::NodeAuth {
            node_id: 3,
            cycle_ms: 60_000
        })
    );
    assert!(spektra::ingest::credential_live(false, None, 10));
    assert!(!spektra::ingest::credential_live(false, Some(10), 10));
    assert!(!spektra::ingest::credential_live(true, None, 10));
}
