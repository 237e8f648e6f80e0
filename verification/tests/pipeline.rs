use bridge::gate::ConfirmationGate;
use bridge::pipeline::ingest_batch;
use bridge::source::LogSource;
use bridge::types::RawLog;

fn log_at(block: u64, index: u64) -> RawLog {
    RawLog {
        address: vec![0u8; 20],
        topics: vec![vec![0u8; 32]],
        data: vec![0u8; 64],
        block_number: block,
        log_index: index,
        transaction_hash: vec![block as u8; 32],
    }
}

#[test]
fn delivered_batch_advances_the_cursor() {
    let mut source = LogSource::new(10);
    let mut gate = ConfirmationGate::new(12);
    let logs = vec![log_at(11, 0), log_at(12, 0), log_at(12, 1)];
    let delivered = ingest_batch(&mut source, &mut gate, 15, 15, logs);
    assert!(delivered);
    assert_eq!(source.cursor, 15);
    assert_eq!(gate.len(), 3);
}

#[test]
fn invalid_batch_leaves_cursor_and_buffer_alone() {
    let mut source = LogSource::new(10);
    let mut gate = ConfirmationGate::new(12);
    // block 10 is already scanned: out of range, the whole batch is refused
    let logs = vec![log_at(10, 0), log_at(11, 0)];
    let delivered = ingest_batch(&mut source, &mut gate, 15, 15, logs);
    assert!(!delivered);
    assert_eq!(source.cursor, 10);
    assert_eq!(gate.len(), 0);
}

#[test]
fn empty_batch_still_acknowledges_the_range() {
    let mut source = LogSource::new(10);
    let mut gate = ConfirmationGate::new(12);
    let delivered = ingest_batch(&mut source, &mut gate, 15, 15, Vec::new());
    assert!(delivered);
    assert_eq!(source.cursor, 15);
    assert_eq!(gate.len(), 0);
}

#[test]
fn redelivered_range_reaches_the_buffer_twice() {
    // A range never acknowledged is re-queried; its logs land in the buffer
    // again, and the submitter's idempotency absorbs them downstream.
    let mut source = LogSource::new(10);
    let mut gate = ConfirmationGate::new(12);
    let delivered = ingest_batch(&mut source, &mut gate, 15, 15, vec![log_at(11, 0)]);
    assert!(delivered);
    // simulate a crash before the cursor write was persisted
    let mut resumed = LogSource::new(10);
    let delivered_again = ingest_batch(&mut resumed, &mut gate, 15, 15, vec![log_at(11, 0)]);
    assert!(delivered_again);
    assert_eq!(gate.len(), 2);
}
