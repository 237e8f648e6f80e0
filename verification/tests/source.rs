use bridge::source::LogSource;
use bridge::types::RawLog;

fn log_at(block: u64, index: u64) -> RawLog {
    RawLog {
        address: vec![0u8; 20],
        topics: vec![vec![0u8; 32]],
        data: vec![0u8; 64],
        block_number: block,
        log_index: index,
        transaction_hash: vec![0u8; 32],
    }
}

#[test]
fn no_scan_while_head_is_not_past_cursor() {
    let s = LogSource::new(10);
    assert_eq!(s.scan_range(9), None);
    assert_eq!(s.scan_range(10), None);
}

#[test]
fn scan_range_covers_cursor_to_head() {
    let s = LogSource::new(10);
    assert_eq!(s.scan_range(15), Some((11, 15)));
    assert_eq!(s.scan_range(11), Some((11, 11)));
}

#[test]
fn valid_batch_is_in_range_and_strictly_ordered() {
    let s = LogSource::new(10);
    let logs = vec![log_at(11, 0), log_at(11, 1), log_at(14, 0)];
    assert!(s.validate_batch(15, &logs));
    assert!(s.validate_batch(15, &Vec::new()));
}

#[test]
fn batch_outside_range_is_rejected() {
    let s = LogSource::new(10);
    assert!(!s.validate_batch(15, &vec![log_at(10, 0)]));
    assert!(!s.validate_batch(15, &vec![log_at(16, 0)]));
}

#[test]
fn unordered_batch_is_rejected() {
    let s = LogSource::new(10);
    assert!(!s.validate_batch(15, &vec![log_at(12, 0), log_at(11, 0)]));
    // a repeated position is not strictly increasing either
    assert!(!s.validate_batch(15, &vec![log_at(12, 3), log_at(12, 3)]));
}

#[test]
fn cursor_advances_only_to_the_scanned_head() {
    let mut s = LogSource::new(10);
    s.advance(15);
    assert_eq!(s.cursor, 15);
    // next cycle resumes from there
    assert_eq!(s.scan_range(20), Some((16, 20)));
}
