use chrono::{NaiveDate, NaiveDateTime};
use spektra::enums::RollupResolution;
use spektra::rollup::{bucket_end, bucket_start, horizon, next_bucket, plan_run, MAX_BUCKETS_PER_RUN};

fn seconds(at: NaiveDateTime) -> i64 {
    at.and_utc().timestamp()
}

fn at(hour: u32, minute: u32) -> i64 {
    seconds(
        NaiveDate::from_ymd_opt(2026, 9, 16)
            .expect("a real date")
            .and_hms_opt(hour, minute, 0)
            .expect("a real time"),
    )
}

fn midnight(year: i32, month: u32, day: u32) -> i64 {
    seconds(
        NaiveDate::from_ymd_opt(year, month, day)
            .expect("a real date")
            .and_hms_opt(0, 0, 0)
            .expect("midnight"),
    )
}

#[test]
fn an_hourly_bucket_starts_on_the_hour() {
    assert_eq!(
        bucket_start(RollupResolution::Hourly, at(13, 47)),
        Some(at(13, 0))
    );
}

#[test]
fn a_daily_bucket_starts_at_midnight() {
    assert_eq!(
        bucket_start(RollupResolution::Daily, at(13, 47)),
        Some(at(0, 0))
    );
}

#[test]
fn a_weekly_bucket_starts_on_monday() {
    let monday = midnight(2026, 9, 14);

    assert_eq!(
        bucket_start(RollupResolution::Weekly, at(13, 47)),
        Some(monday)
    );
}

#[test]
fn a_bucket_ends_one_period_after_it_starts() {
    assert_eq!(
        bucket_end(RollupResolution::Hourly, at(13, 0)),
        Some(at(14, 0))
    );
    assert_eq!(
        bucket_end(RollupResolution::Daily, at(0, 0)),
        Some(midnight(2026, 9, 17))
    );
    assert_eq!(
        bucket_end(RollupResolution::Weekly, at(0, 0)),
        Some(midnight(2026, 9, 23))
    );
}

#[test]
fn a_week_before_the_epoch_still_starts_on_monday() {
    assert_eq!(
        bucket_start(RollupResolution::Weekly, midnight(1969, 12, 31) + 5),
        Some(midnight(1969, 12, 29))
    );
}

#[test]
fn the_next_bucket_is_the_end_of_this_one() {
    assert_eq!(
        next_bucket(RollupResolution::Daily, at(0, 0)),
        bucket_end(RollupResolution::Daily, at(0, 0))
    );
}

#[test]
fn a_run_builds_complete_missing_buckets_only() {
    let first = at(10, 0);
    let stored = vec![at(11, 0)];
    let plan = plan_run(RollupResolution::Hourly, first, at(13, 30), &stored);

    assert_eq!(plan, vec![(at(10, 0), at(11, 0)), (at(12, 0), at(13, 0))]);
}

#[test]
fn a_run_stops_at_its_budget() {
    let first = midnight(2000, 1, 1);
    let plan = plan_run(RollupResolution::Hourly, first, midnight(2026, 1, 1), &Vec::new());

    assert_eq!(plan.len(), MAX_BUCKETS_PER_RUN);
    assert_eq!(plan.first().copied(), Some((first, first + 3_600)));
}

#[test]
fn a_horizon_is_whole_days_back() {
    assert_eq!(horizon(midnight(2026, 9, 16), 14), Some(midnight(2026, 9, 2)));
    assert_eq!(horizon(midnight(2026, 9, 16), u64::MAX), None);
}
