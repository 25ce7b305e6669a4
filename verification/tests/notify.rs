use spektra::config::{ChannelSpec, DAB_BANDWIDTH_HZ, FM_BANDWIDTH_HZ};
use spektra::enums::{Metric, Modulation};
use spektra::notify::{endpoint, priority, tags, title, Notice};
use spektra::ops::HealthStatus;

const URGENT_SEVERITY: f64 = 3.0;

fn notice(metric: Option<Metric>, severity: Option<f64>) -> Notice {
    Notice {
        alarm_id: 1,
        node_id: 2,
        node_name: "Hadsund".to_owned(),
        metric,
        urgent: severity.map(|severity| severity >= URGENT_SEVERITY),
        summary: "signal to noise fell to 12.0 dB".to_owned(),
    }
}

#[test]
fn a_metric_alarm_names_the_metric_and_the_node() {
    assert_eq!(
        title(&notice(Some(Metric::SignalToNoise), Some(2.0))),
        "signal_to_noise on Hadsund"
    );
}

#[test]
fn a_silent_node_says_so() {
    assert_eq!(title(&notice(None, None)), "Hadsund is silent");
}

#[test]
fn a_silent_node_wakes_somebody() {
    assert_eq!(priority(&notice(None, None)), 4);
}

#[test]
fn a_marginal_deviation_waits_for_the_morning() {
    assert_eq!(priority(&notice(Some(Metric::SignalToNoise), Some(1.2))), 3);
}

#[test]
fn a_bad_deviation_is_urgent() {
    let bad = notice(Some(Metric::SignalToNoise), Some(6.0));

    assert_eq!(priority(&bad), 5);
    assert!(tags(&bad).contains(&"rotating_light"));
}

#[test]
fn tags_stay_short() {
    for case in [
        notice(None, None),
        notice(Some(Metric::SignalStrength), Some(1.0)),
        notice(Some(Metric::SignalStrength), Some(9.0)),
    ] {
        assert!(tags(&case).len() <= 2, "{:?}", tags(&case));
    }
}

#[test]
fn an_endpoint_never_ends_in_a_double_slash() {
    assert_eq!(endpoint("https://ntfy.example.org/"), "https://ntfy.example.org/");
    assert_eq!(endpoint("https://ntfy.example.org"), "https://ntfy.example.org/");
    assert_eq!(endpoint("https://ntfy.example.org///"), "https://ntfy.example.org/");
}

fn spec() -> ChannelSpec {
    ChannelSpec {
        frequency_hz: 89_700_000,
        modulation: Some(Modulation::Fm),
        bandwidth_hz: 0,
    }
}

#[test]
fn a_zero_bandwidth_takes_the_default_for_the_modulation() {
    assert_eq!(spec().effective_bandwidth_hz(), FM_BANDWIDTH_HZ);
    assert_eq!(
        ChannelSpec {
            modulation: Some(Modulation::Dab),
            ..spec()
        }
        .effective_bandwidth_hz(),
        DAB_BANDWIDTH_HZ
    );
    assert_eq!(
        ChannelSpec {
            bandwidth_hz: 12_500,
            ..spec()
        }
        .effective_bandwidth_hz(),
        12_500
    );
    assert_eq!(
        ChannelSpec {
            modulation: None,
            ..spec()
        }
        .effective_bandwidth_hz(),
        FM_BANDWIDTH_HZ
    );
}

#[test]
fn a_serving_process_says_ok() {
    let status = HealthStatus::serving("1.2.3");
    assert_eq!(status.status, "ok");
    assert_eq!(status.version, "1.2.3");
}
