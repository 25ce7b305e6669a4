use spektra::journal::{frame, journal_bytes, newest_half, over_limit, split_records, ReportBuffer};

fn journal(records: &[Vec<u8>]) -> Vec<u8> {
    records.iter().flat_map(|record| frame(record)).collect()
}

#[test]
fn a_buffer_round_trips_its_records() {
    let records = vec![vec![1_u8, 2, 3], Vec::new(), vec![7_u8; 300]];
    let raw = journal(&records);

    assert_eq!(split_records(&raw), records);
}

#[test]
fn a_partial_trailing_record_does_not_lose_the_whole_journal() {
    let records = vec![vec![1_u8, 2, 3], vec![9_u8; 200]];
    let mut raw = journal(&records);
    let last = frame(&[5_u8; 150]);
    for cut in 0..last.len() {
        let mut cut_short = raw.clone();
        cut_short.extend_from_slice(&last[..cut]);
        assert_eq!(split_records(&cut_short), records, "cut at {cut}");
    }
    raw.extend_from_slice(&last);
    assert_eq!(split_records(&raw).len(), 3);
}

#[test]
fn a_long_record_takes_a_two_byte_delimiter() {
    assert_eq!(frame(&[0_u8; 300])[..2], [0xAC, 0x02]);
    assert_eq!(frame(&[4_u8])[..], [1, 4]);
}

#[test]
fn a_full_buffer_keeps_its_newest_half() {
    assert_eq!(newest_half(vec![1, 2, 3, 4, 5]), vec![4, 5]);
    assert_eq!(newest_half(vec![1, 2, 3, 4]), vec![3, 4]);
    assert!(newest_half(vec![1]).is_empty());
}

#[test]
fn a_zero_limit_never_trims() {
    assert!(!over_limit(0, u64::MAX));
    assert!(over_limit(10, 11));
    assert!(!over_limit(10, 10));

    let buffer = ReportBuffer::new("state/pending.pb".to_owned(), 64);
    assert_eq!(buffer.path(), "state/pending.pb");
    assert_eq!(buffer.limit_bytes(), 64);
    assert!(buffer.needs_trimming(65));
}

#[test]
fn a_pushed_record_reads_back_after_the_others() {
    let mut records = vec![vec![1_u8, 2, 3], vec![9_u8; 200]];
    let mut raw = journal_bytes(&records);
    assert_eq!(raw, journal(&records));
    raw.extend(frame(&[5_u8, 5]));
    records.push(vec![5, 5]);

    assert_eq!(split_records(&raw), records);
}

#[test]
fn an_empty_journal_holds_nothing() {
    assert!(journal_bytes(&Vec::new()).is_empty());
    assert!(split_records(&[]).is_empty());
}
