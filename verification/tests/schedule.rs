use spektra::ingest::{report_schedule, DEFAULT_CYCLE_MS};

const BASE_MS: i64 = 1_772_000_000_000;

fn at(millis: i64) -> i64 {
    BASE_MS.saturating_add(millis)
}

fn delay_ms(node_id: i64, now: i64, cycle_ms: i64) -> i64 {
    let next = report_schedule(node_id, now, cycle_ms).expect("a schedule");
    next.saturating_sub(now)
}

fn slot_ms(node_id: i64, now: i64, cycle_ms: i64) -> i64 {
    delay_ms(node_id, now, cycle_ms)
        .saturating_add(now)
        .rem_euclid(cycle_ms)
}

#[test]
fn a_node_always_lands_on_its_own_slot() {
    let expected = slot_ms(7, at(0), DEFAULT_CYCLE_MS);

    for offset in (0..DEFAULT_CYCLE_MS).step_by(997) {
        assert_eq!(slot_ms(7, at(offset), DEFAULT_CYCLE_MS), expected);
    }
}

#[test]
fn a_fleet_of_sequential_ids_spreads_over_the_whole_cycle() {
    let fleet = 7_200_i64;
    let now = at(0);

    let mut slots: Vec<i64> = (1..=fleet)
        .map(|id| slot_ms(id, now, DEFAULT_CYCLE_MS))
        .collect();
    slots.sort_unstable();
    slots.dedup();

    assert_eq!(slots.len(), 7_200, "ids collided on a slot");

    let ideal = DEFAULT_CYCLE_MS / fleet;
    let widest = slots
        .windows(2)
        .filter_map(|pair| match pair {
            [before, after] => Some(after.saturating_sub(*before)),
            _ => None,
        })
        .max()
        .expect("a gap");

    assert!(
        widest <= ideal.saturating_mul(4),
        "widest gap {widest} ms against an ideal spacing of {ideal} ms"
    );
}

#[test]
fn the_next_report_is_always_ahead_and_within_one_cycle() {
    for node_id in 0..500_i64 {
        let now = at(node_id.saturating_mul(37));
        let delay = delay_ms(node_id, now, DEFAULT_CYCLE_MS);

        assert!(delay > 0, "node {node_id} was told to report in the past");
        assert!(delay <= DEFAULT_CYCLE_MS, "node {node_id} waits {delay} ms");
    }
}

#[test]
fn a_shorter_cycle_reports_sooner_and_still_spreads() {
    let cycle = 5_000_i64;
    let now = at(0);

    for node_id in 0..500_i64 {
        let delay = delay_ms(node_id, now, cycle);

        assert!(delay > 0, "node {node_id} was told to report in the past");
        assert!(delay <= cycle, "node {node_id} waits {delay} ms of {cycle}");
    }

    let mut slots: Vec<i64> = (1..=500_i64).map(|id| slot_ms(id, now, cycle)).collect();
    slots.sort_unstable();
    slots.dedup();

    assert_eq!(slots.len(), 500, "ids collided inside the shorter cycle");
}

#[test]
fn a_cycle_of_zero_falls_back_to_the_default() {
    let now = at(1_234);

    assert_eq!(
        delay_ms(11, now, 0),
        delay_ms(11, now, DEFAULT_CYCLE_MS),
        "a zero cycle did not fall back"
    );
}
