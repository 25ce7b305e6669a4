use spektra::enums::{Metric, RollupResolution};
use spektra::series::{parse_metric, Source, SpanQuery, DEFAULT_SPAN_HOURS, MAX_SPAN_DAYS};

#[test]
fn a_short_span_reads_the_raw_windows() {
    for hours in [1_i64, 3, 6] {
        assert_eq!(Source::for_span(hours), Source::Raw, "{hours} hours");
    }
}

#[test]
fn a_span_past_the_raw_retention_reads_rollups() {
    assert_eq!(Source::for_span(7), Source::Hourly);
    assert_eq!(Source::for_span(7 * 24), Source::Hourly);
    assert_eq!(Source::for_span(8 * 24), Source::Daily);
    assert_eq!(Source::for_span(90 * 24), Source::Daily);
    assert_eq!(Source::for_span(91 * 24), Source::Weekly);
    assert_eq!(Source::for_span(365 * 24), Source::Weekly);
}

#[test]
fn every_source_names_the_table_it_reads() {
    assert_eq!(Source::Raw.resolution(), None);
    assert_eq!(Source::Hourly.resolution(), Some(RollupResolution::Hourly));
    assert_eq!(Source::Daily.resolution(), Some(RollupResolution::Daily));
    assert_eq!(Source::Weekly.resolution(), Some(RollupResolution::Weekly));
}

#[test]
fn a_missing_span_is_a_day() {
    let span = SpanQuery { hours: None };

    assert_eq!(span.duration(), DEFAULT_SPAN_HOURS);
}

#[test]
fn a_span_is_clamped_at_both_ends() {
    assert_eq!(SpanQuery { hours: Some(0) }.duration(), 1);
    assert_eq!(SpanQuery { hours: Some(-5) }.duration(), 1);
    assert_eq!(
        SpanQuery {
            hours: Some(1_000_000)
        }
        .duration(),
        MAX_SPAN_DAYS * 24
    );
}

#[test]
fn a_metric_label_round_trips() {
    assert_eq!(
        parse_metric("signal_to_noise").ok(),
        Some(Metric::SignalToNoise)
    );
    assert!(parse_metric("signal to noise").is_err());
    assert!(parse_metric("").is_err());
}
