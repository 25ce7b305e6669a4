use spektra::clock::Moment;
use spektra::ops::{instant, mean, Metrics, Problem, Snapshot};

fn at(minutes: i64) -> i64 {
    minutes.saturating_mul(60)
}

fn now(minutes: i64) -> Moment {
    Moment {
        seconds: at(minutes),
        nanos: 0,
    }
}

fn snapshot() -> Snapshot {
    Snapshot {
        measurements_accepted: 100,
        health_accepted: 10,
        registrations: 1,
        ingest_rejected: 0,
        ingest_failed: 0,
        last_ingest_at: Some(at(100)),
        last_detection_at: Some(at(100)),
        last_maintenance_at: Some(at(60)),
        alarms_raised: 0,
        http_requests: 50,
        http_server_errors: 0,
        http_mean_micros: 1_200,
        http_slowest_micros: 9_000,
        pool_size: 8,
        pool_available: 8,
        pool_waiting: 0,
    }
}

fn mentions_ingest(problem: &Problem) -> bool {
    matches!(
        problem,
        Problem::IngestNeverAccepted | Problem::IngestStalled { .. }
    )
}

fn mentions_refusals(problem: &Problem) -> bool {
    matches!(problem, Problem::Refused { .. } | Problem::EveryCallFailed)
}

#[test]
fn a_working_server_reports_no_problems() {
    assert!(snapshot().is_healthy(now(101), 3));
}

#[test]
fn a_stalled_ingest_is_a_problem() {
    let problems = snapshot().problems(now(200), 3);

    assert_eq!(problems.len(), 2, "{problems:?}");
    assert!(problems.iter().any(mentions_ingest));
}

#[test]
fn an_empty_fleet_cannot_stall_ingest() {
    let quiet = Snapshot {
        last_ingest_at: None,
        ..snapshot()
    };

    assert!(quiet.problems(now(101), 0).is_empty());
    assert!(!quiet.problems(now(101), 1).is_empty());
}

#[test]
fn a_stuck_detector_is_a_problem() {
    let problems = snapshot().problems(now(110), 3);

    assert!(
        problems
            .iter()
            .any(|problem| matches!(problem, Problem::DetectorStalled { .. })),
        "{problems:?}"
    );
}

#[test]
fn a_few_rejections_are_normal() {
    let noisy = Snapshot {
        measurements_accepted: 100,
        ingest_rejected: 5,
        ..snapshot()
    };

    assert!(
        noisy.is_healthy(now(101), 3),
        "{:?}",
        noisy.problems(now(101), 3)
    );
}

#[test]
fn a_flood_of_rejections_is_not() {
    let broken = Snapshot {
        measurements_accepted: 10,
        health_accepted: 0,
        registrations: 0,
        ingest_rejected: 40,
        ..snapshot()
    };

    assert!(
        broken.problems(now(101), 3).iter().any(mentions_refusals),
        "{:?}",
        broken.problems(now(101), 3)
    );
}

#[test]
fn a_handful_of_calls_does_not_trigger_a_rate() {
    let early = Snapshot {
        measurements_accepted: 1,
        health_accepted: 0,
        registrations: 0,
        ingest_rejected: 2,
        ingest_failed: 0,
        ..snapshot()
    };

    assert!(!early.problems(now(101), 3).iter().any(mentions_refusals));
}

#[test]
fn a_never_stamped_counter_reads_as_never() {
    assert_eq!(instant(0), None);
    assert!(instant(1_700_000_000).is_some());
}

#[test]
fn the_counters_count() {
    let mut metrics = Metrics::new();
    let now = 1_772_000_000;

    metrics.measurement_accepted(now);
    metrics.measurement_accepted(now);
    metrics.health_accepted(now);
    metrics.registered(now);
    metrics.ingest_rejected();
    metrics.ingest_failed();
    metrics.detection_finished(3, now);
    metrics.http_served(500, 200);
    metrics.http_served(1_500, 503);

    assert_eq!(metrics.measurements_accepted, 2);
    assert_eq!(metrics.health_accepted, 1);
    assert_eq!(metrics.registrations, 1);
    assert_eq!(metrics.ingest_rejected, 1);
    assert_eq!(metrics.ingest_failed, 1);
    assert_eq!(metrics.alarms_raised, 3);
    assert_eq!(metrics.http_requests, 2);
    assert_eq!(metrics.http_server_errors, 1);
    assert_eq!(metrics.http_slowest_micros, 1_500);
    assert!(metrics.last_ingest_at > 0);
}

#[test]
fn a_mean_over_nothing_is_zero() {
    assert_eq!(mean(0, 0), 0);
    assert_eq!(mean(1_000, 4), 250);
}

#[test]
fn a_snapshot_carries_the_pool_and_the_mean() {
    let mut metrics = Metrics::new();
    metrics.http_served(500, 200);
    metrics.http_served(1_500, 200);

    let snapshot = metrics.snapshot(8, 6, 1);
    assert_eq!(snapshot.http_mean_micros, 1_000);
    assert_eq!((snapshot.pool_size, snapshot.pool_available, snapshot.pool_waiting), (8, 6, 1));
    assert_eq!(snapshot.last_ingest_at, None);
}

#[test]
fn each_problem_reads_as_a_line() {
    assert_eq!(
        Problem::IngestNeverAccepted.message().as_deref(),
        Some("ingest has accepted nothing since the server started")
    );
    assert_eq!(
        Problem::IngestStalled { at: 1_700_000_000 }.message().as_deref(),
        Some("ingest has accepted nothing since 2023-11-14 22:13:20, which is more than 15 minutes")
    );
    assert_eq!(
        Problem::DetectorStalled { at: 0 }.message().as_deref(),
        Some("the detector last finished a pass at 1970-01-01 00:00:00")
    );
    assert_eq!(
        Problem::EveryCallFailed.message().as_deref(),
        Some("every ingest call has failed inside the server")
    );
    assert_eq!(Problem::Refused { refused: 9, calls: 20 }.message(), None);
}

#[test]
fn a_stalled_ingest_line_mentions_ingest() {
    let problems = snapshot().problems(now(200), 3);
    assert!(problems
        .iter()
        .filter_map(Problem::message)
        .any(|line| line.contains("ingest")));
}

#[test]
fn a_stall_is_judged_to_the_nanosecond() {
    let mut quiet = snapshot();
    quiet.last_detection_at = None;
    let limit = Moment {
        seconds: at(100) + 15 * 60,
        nanos: 0,
    };
    assert!(quiet.problems(limit, 3).is_empty());
    let just_after = Moment {
        seconds: at(100) + 15 * 60,
        nanos: 1,
    };
    assert_eq!(
        quiet.problems(just_after, 3),
        vec![Problem::IngestStalled { at: at(100) }]
    );
}
