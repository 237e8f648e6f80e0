use bridge::gate::{screen_reorg, ConfirmationGate, PendingConfirmation};
use bridge::types::RawLog;

fn log_at(block: u64, index: u64) -> RawLog {
    RawLog {
        address: vec![0u8; 20],
        topics: vec![vec![0u8; 32]],
        data: vec![0u8; 64],
        block_number: block,
        log_index: index,
        transaction_hash: vec![block as u8; 32],
    }
}

#[test]
fn deposit_released_exactly_at_confirmation_depth() {
    // A log observed at block 100 with 12 required confirmations is released
    // exactly when the head reaches 112, not before.
    let mut gate = ConfirmationGate::new(12);
    assert!(gate.observe(log_at(100, 0), 100));
    let mut released_at = None;
    let mut head = 99u64;
    while head < 112 {
        head += 1;
        if let Some(entry) = gate.pop_ready(head) {
            released_at = Some((head, entry.log.block_number));
            break;
        }
    }
    assert_eq!(released_at, Some((112, 100)));
    assert_eq!(gate.len(), 0);
}

#[test]
fn nothing_released_below_threshold() {
    let mut gate = ConfirmationGate::new(12);
    assert!(gate.observe(log_at(100, 0), 100));
    for head in 0..112u64 {
        assert!(gate.pop_ready(head).is_none());
    }
    assert_eq!(gate.len(), 1);
}

#[test]
fn release_keeps_block_index_order() {
    let mut gate = ConfirmationGate::new(2);
    assert!(gate.observe(log_at(1, 0), 1));
    assert!(gate.observe(log_at(1, 1), 1));
    assert!(gate.observe(log_at(2, 0), 2));
    let mut order = Vec::new();
    while let Some(entry) = gate.pop_ready(100) {
        order.push((entry.log.block_number, entry.log.log_index));
    }
    assert_eq!(order, vec![(1, 0), (1, 1), (2, 0)]);
}

#[test]
fn out_of_order_log_is_rejected() {
    let mut gate = ConfirmationGate::new(2);
    assert!(gate.observe(log_at(5, 1), 5));
    assert!(!gate.observe(log_at(5, 0), 5));
    assert!(!gate.observe(log_at(4, 9), 5));
    // a re-delivered copy of the same position is taken again
    assert!(gate.observe(log_at(5, 1), 6));
    assert_eq!(gate.len(), 2);
}

#[test]
fn front_entry_gates_later_ones() {
    // The buffer is scanned from the front; the first unready entry stops
    // the cycle even if it blocks nothing else.
    let mut gate = ConfirmationGate::new(10);
    assert!(gate.observe(log_at(50, 0), 50));
    assert!(gate.observe(log_at(90, 0), 90));
    // head 70: front (block 50) is ready, second (block 90) is not
    assert!(gate.pop_ready(70).is_some());
    assert!(gate.pop_ready(70).is_none());
    assert_eq!(gate.len(), 1);
}

#[test]
fn reorganized_entry_is_dropped_silently() {
    let entry = PendingConfirmation {
        log: log_at(7, 0),
        observed_at: 7,
    };
    assert!(screen_reorg(entry, false).is_none());
    let entry2 = PendingConfirmation {
        log: log_at(7, 0),
        observed_at: 7,
    };
    let kept = screen_reorg(entry2, true);
    assert_eq!(kept.map(|e| e.log.block_number), Some(7));
}
