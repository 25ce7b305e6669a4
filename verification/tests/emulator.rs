use spektra::emulator::{plan_backfill, tally, Backfill, Signal, MAX_HEALTH_SAMPLES};

#[test]
fn an_identity_seeds_the_same_generator_every_time() {
    let first = Signal::for_identity("abc123");
    let second = Signal::for_identity("abc123");
    assert_eq!(first.is_faulty(), second.is_faulty());
}

#[test]
fn roughly_one_identity_in_five_is_faulty() {
    let faulty = (0..1_000)
        .filter(|i| Signal::for_identity(&format!("node-{i}")).is_faulty())
        .count();
    assert!((120..=280).contains(&faulty), "{faulty} of 1000");
}

#[test]
fn a_tally_counts_each_outcome_once() {
    let mut sent = 0_u64;
    let mut failed = 0_u64;
    tally(true, &mut sent, &mut failed);
    tally(true, &mut sent, &mut failed);
    tally(false, &mut sent, &mut failed);
    assert_eq!((sent, failed), (2, 1));

    let mut full = u64::MAX;
    tally(true, &mut full, &mut failed);
    assert_eq!(full, u64::MAX);
}

#[test]
fn a_week_of_minutes_is_ten_thousand_and_eighty_windows() {
    let plan = plan_backfill(60, 168).expect("something to send");
    assert_eq!(
        plan,
        Backfill {
            window: 60,
            span: 604_800,
            total: 10_080
        }
    );
    assert_eq!(plan.window_age(3), 180);
}

#[test]
fn no_history_means_no_backfill() {
    assert_eq!(plan_backfill(60, 0), None);
    assert_eq!(plan_backfill(60, -3), None);
    assert_eq!(plan_backfill(7_200, 1), None);
}

#[test]
fn a_zero_window_is_one_second() {
    let plan = plan_backfill(0, 1).expect("something to send");
    assert_eq!(plan.window, 1);
    assert_eq!(plan.total, 3_600);
}

#[test]
fn health_samples_end_now_and_stay_few() {
    let plan = plan_backfill(60, 168).expect("something to send");
    let ages = plan.health_ages();
    assert_eq!(ages.len() as i64, MAX_HEALTH_SAMPLES + 1);
    assert_eq!(ages.first().copied(), Some(604_800));
    assert_eq!(ages.last().copied(), Some(0));

    let short = plan_backfill(600, 1).expect("six windows");
    assert_eq!(short.health_ages(), vec![3_600, 3_000, 2_400, 1_800, 1_200, 600, 0]);
}
