use spektra::numbers::push_padded;
use spektra::calendar::Day;
use spektra::partitions::{
    missing_partitions, next_day, parse_partition_name, partition_name, stale_partitions,
    DEFAULT_PARTITION,
};

fn day(year: i32, month: u32, day: u32) -> Day {
    Day::from_ymd(year, month, day).expect("a real date")
}

#[test]
fn a_partition_is_named_after_its_day() {
    let start = day(2026, 9, 17);

    assert_eq!(partition_name(start), "measurements_2026_09_17");
}

#[test]
fn a_partition_name_round_trips() {
    for (year, month, d) in [(2026, 1, 1), (2026, 9, 17), (2027, 12, 31)] {
        let start = day(year, month, d);

        assert_eq!(parse_partition_name(&partition_name(start)), Some(start));
    }
}

#[test]
fn the_default_partition_is_not_one_of_ours() {
    assert_eq!(parse_partition_name(DEFAULT_PARTITION), None);
    assert_eq!(parse_partition_name("measurements"), None);
    assert_eq!(parse_partition_name("measurements_2026_09"), None);
    assert_eq!(parse_partition_name("rollups_2026_09_17"), None);
}

#[test]
fn the_last_day_of_a_month_rolls_into_the_next() {
    let september = day(2026, 9, 30);

    assert_eq!(next_day(september), Day::from_ymd(2026, 10, 1));
}

#[test]
fn december_rolls_into_january() {
    let december = day(2026, 12, 31);

    assert_eq!(next_day(december), Day::from_ymd(2027, 1, 1));
}

#[test]
fn a_leap_day_exists_only_in_a_leap_year() {
    assert!(Day::from_ymd(2024, 2, 29).is_some());
    assert!(Day::from_ymd(2026, 2, 29).is_none());
    assert!(Day::from_ymd(2000, 2, 29).is_some());
    assert!(Day::from_ymd(1900, 2, 29).is_none());
    assert_eq!(next_day(day(2024, 2, 28)), Day::from_ymd(2024, 2, 29));
}

#[test]
fn only_partitions_ending_by_the_cutoff_are_stale() {
    let existing = vec![
        DEFAULT_PARTITION.to_owned(),
        "measurements_2026_09_14".to_owned(),
        "measurements_2026_09_15".to_owned(),
        "measurements_2026_09_16".to_owned(),
        "something_else".to_owned(),
    ];

    assert_eq!(
        stale_partitions(&existing, day(2026, 9, 16)),
        vec!["measurements_2026_09_14".to_owned(), "measurements_2026_09_15".to_owned()]
    );
}

#[test]
fn only_missing_days_are_created() {
    let known = vec!["measurements_2026_09_30".to_owned()];

    assert_eq!(
        missing_partitions(day(2026, 9, 29), day(2026, 10, 2), &known),
        vec![day(2026, 9, 29), day(2026, 10, 1), day(2026, 10, 2)]
    );
    assert!(missing_partitions(day(2026, 10, 2), day(2026, 9, 29), &known).is_empty());
}

#[test]
fn padding_writes_what_the_format_writes() {
    for (value, width) in [(i64::MIN, 25_usize), (-7, 4), (2026, 4), (3, 2), (42, 70), (i64::MAX, 0)] {
        let mut text = String::from("x");
        push_padded(&mut text, value, width);
        assert_eq!(text, format!("x{value:0width$}"));
    }
}
