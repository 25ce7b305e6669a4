use spektra::clock::Moment;
use spektra::enums::Metric;
use spektra::panel::{
    charted_metrics, metrics_toggle, panel_link, span_choices, state_of, wanted_channels, SpanQuery,
};

fn query(span: Option<&str>, metrics: Option<&str>) -> SpanQuery {
    SpanQuery {
        span: span.map(ToOwned::to_owned),
        metrics: metrics.map(ToOwned::to_owned),
    }
}

#[test]
fn an_unknown_span_falls_back_to_six_hours() {
    assert_eq!(query(None, None).key(), "6h");
    assert_eq!(query(Some("1y"), None).key(), "6h");
    assert_eq!(query(Some("7d"), None).key(), "7d");
    assert_eq!(query(Some("90d"), None).hours(), 2160);
    assert_eq!(query(Some("24h"), None).hours(), 24);
    assert_eq!(query(Some("nonsense"), None).hours(), 6);
}

#[test]
fn all_metrics_only_when_asked_for_by_name() {
    assert!(query(None, Some("all")).show_all());
    assert!(!query(None, Some("ALL")).show_all());
    assert!(!query(None, None).show_all());
}

#[test]
fn the_default_span_leaves_the_link_bare() {
    assert_eq!(
        panel_link(42, "6h", false),
        ("/nodes/42".to_owned(), "/fragments/nodes/42".to_owned())
    );
    assert_eq!(
        panel_link(42, "7d", true),
        (
            "/nodes/42?span=7d&metrics=all".to_owned(),
            "/fragments/nodes/42?span=7d&metrics=all".to_owned()
        )
    );
    assert_eq!(panel_link(42, "6h", true).0, "/nodes/42?metrics=all");
}

#[test]
fn the_span_in_force_is_the_current_button() {
    let choices = span_choices(3, "24h", false);
    let labels: Vec<&str> = choices.iter().map(|choice| choice.label).collect();
    assert_eq!(labels, vec!["6t", "24t", "7d", "90d"]);
    let current: Vec<bool> = choices.iter().map(|choice| choice.current).collect();
    assert_eq!(current, vec![false, true, false, false]);
    assert_eq!(choices[2].url, "/nodes/3?span=7d");

    let toggle = metrics_toggle(3, "24h", false);
    assert_eq!(toggle.url, "/nodes/3?span=24h&metrics=all");
    assert!(!toggle.current);
}

#[test]
fn a_node_goes_silent_after_five_minutes() {
    let second = |seconds: i64| Moment { seconds, nanos: 0 };
    let now = 1_772_000_000;
    assert_eq!(state_of(true, Some(second(now)), second(now)), "suspended");
    assert_eq!(state_of(false, None, second(now)), "never seen");
    assert_eq!(state_of(false, Some(second(now - 300)), second(now)), "reporting");
    assert_eq!(state_of(false, Some(second(now - 301)), second(now)), "silent");
}

#[test]
fn silence_counts_whole_seconds_only() {
    let seen = Moment {
        seconds: 1_772_000_000,
        nanos: 900_000_000,
    };
    let almost = Moment {
        seconds: 1_772_000_301,
        nanos: 500_000_000,
    };
    let past = Moment {
        seconds: 1_772_000_301,
        nanos: 900_000_000,
    };
    assert_eq!(state_of(false, Some(seen), almost), "reporting");
    assert_eq!(state_of(false, Some(seen), past), "silent");
}

#[test]
fn a_channel_without_measurements_charts_the_main_three() {
    let measured = vec![(5_i64, Metric::CarrierOffset), (5, Metric::SignalStrength)];

    assert_eq!(
        charted_metrics(&measured, 9, false),
        vec![
            Metric::SignalStrength,
            Metric::SignalToNoise,
            Metric::DemodErrorRate
        ]
    );
    assert_eq!(charted_metrics(&measured, 5, false), vec![Metric::SignalStrength]);
    assert_eq!(
        charted_metrics(&measured, 5, true),
        vec![Metric::SignalStrength, Metric::CarrierOffset]
    );
}

#[test]
fn assigned_and_measured_channels_are_listed_once() {
    let measured = vec![(3_i64, Metric::SignalStrength), (1, Metric::SpectrumOccupancy)];
    assert_eq!(wanted_channels(&vec![4, 1], &measured), vec![1, 3, 4]);
}
