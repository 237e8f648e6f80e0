use bridge::submitter::{AcceptOutcome, RecordState, Submitter};
use bridge::types::Deposit;

fn deposit_with_hash(tag: u8) -> Deposit {
    Deposit {
        recipient: vec![0xAAu8; 20],
        value: vec![0u8; 32],
        hash: vec![tag; 32],
    }
}

#[test]
fn duplicate_delivery_yields_one_record_and_one_submission() {
    // The same deposit delivered twice (a re-scan after a failed downstream
    // acknowledgment): exactly one record, exactly one Submit answer.
    let mut s = Submitter::new(5);
    let d = deposit_with_hash(1);
    assert_eq!(s.accept(&d), AcceptOutcome::Submit);
    assert_eq!(s.accept(&d), AcceptOutcome::Resume);
    assert_eq!(s.records.len(), 1);
    assert_eq!(s.records[0].state, RecordState::Pending);
}

#[test]
fn completed_deposit_is_discarded_on_redelivery() {
    let mut s = Submitter::new(5);
    let d = deposit_with_hash(2);
    assert_eq!(s.accept(&d), AcceptOutcome::Submit);
    assert!(s.on_node_accepted(&d.hash, vec![0x55u8; 32]));
    assert!(s.on_inclusion_confirmed(&d.hash));
    assert_eq!(s.records[0].state, RecordState::Complete);
    // redelivery after completion: discarded, still one record
    assert_eq!(s.accept(&d), AcceptOutcome::Discard);
    assert_eq!(s.records.len(), 1);
}

#[test]
fn three_rejections_then_acceptance_completes_without_alert() {
    // Rejected 3 times, accepted on the 4th attempt, max attempts 5: the
    // record stays pending through the retries, ends complete, and no
    // permanent-failure alert is ever raised.
    let mut s = Submitter::new(5);
    let d = deposit_with_hash(3);
    assert_eq!(s.accept(&d), AcceptOutcome::Submit);
    for expected_attempts in 1..=3u64 {
        let alert = s.on_node_rejected(&d.hash);
        assert!(!alert);
        assert_eq!(s.records[0].state, RecordState::Pending);
        assert_eq!(s.records[0].attempts, expected_attempts);
    }
    assert!(s.on_node_accepted(&d.hash, vec![0x99u8; 32]));
    assert_eq!(s.records[0].state, RecordState::Submitted);
    assert!(s.on_inclusion_confirmed(&d.hash));
    assert_eq!(s.records[0].state, RecordState::Complete);
    assert_eq!(s.records[0].attempts, 3);
    assert_eq!(s.records[0].tx_id, Some(vec![0x99u8; 32]));
}

#[test]
fn exhausted_budget_raises_alert_and_halts_the_hash() {
    let mut s = Submitter::new(2);
    let d = deposit_with_hash(4);
    assert_eq!(s.accept(&d), AcceptOutcome::Submit);
    assert!(!s.on_node_rejected(&d.hash));
    let alert = s.on_node_rejected(&d.hash);
    assert!(alert);
    assert_eq!(s.records[0].state, RecordState::Failed);
    assert_eq!(s.records[0].attempts, 2);
    // the hash stays recorded and is never submitted again
    assert_eq!(s.accept(&d), AcceptOutcome::Discard);
    // further node reports change nothing
    assert!(!s.on_node_rejected(&d.hash));
    assert_eq!(s.records[0].state, RecordState::Failed);
}

#[test]
fn inclusion_timeout_retries_with_budget_left() {
    let mut s = Submitter::new(3);
    let d = deposit_with_hash(5);
    assert_eq!(s.accept(&d), AcceptOutcome::Submit);
    assert!(s.on_node_accepted(&d.hash, vec![0x10u8; 32]));
    // not seen included in time: back to pending for a fresh submission
    assert!(!s.on_inclusion_timeout(&d.hash));
    assert_eq!(s.records[0].state, RecordState::Pending);
    assert_eq!(s.records[0].attempts, 1);
    assert_eq!(s.records[0].tx_id, None);
}

#[test]
fn independent_hashes_are_tracked_independently() {
    let mut s = Submitter::new(5);
    let d1 = deposit_with_hash(6);
    let d2 = deposit_with_hash(7);
    assert_eq!(s.accept(&d1), AcceptOutcome::Submit);
    assert_eq!(s.accept(&d2), AcceptOutcome::Submit);
    assert_eq!(s.records.len(), 2);
    assert!(s.on_node_accepted(&d1.hash, vec![0x20u8; 32]));
    assert!(s.on_inclusion_confirmed(&d1.hash));
    assert_eq!(s.records[0].state, RecordState::Complete);
    assert_eq!(s.records[1].state, RecordState::Pending);
}

#[test]
fn reports_for_unknown_hashes_change_nothing() {
    let mut s = Submitter::new(5);
    let unknown = vec![0xFFu8; 32];
    assert!(!s.on_node_accepted(&unknown, vec![0u8; 32]));
    assert!(!s.on_node_rejected(&unknown));
    assert!(!s.on_inclusion_confirmed(&unknown));
    assert!(!s.on_inclusion_timeout(&unknown));
    assert_eq!(s.records.len(), 0);
}
