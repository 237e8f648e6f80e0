use bridge::kovan::{ConfigError, DecodeError, KovanBridge};
use bridge::types::{bytes_eq, copy_bytes, slice_range, RawLog};

fn selector() -> Vec<u8> {
    vec![0xAA, 0xBB, 0xCC, 0xDD]
}

fn topic() -> Vec<u8> {
    let mut t = vec![0u8; 32];
    t[0] = 0xEE;
    t
}

fn bridge() -> KovanBridge {
    KovanBridge::new(Some(selector()), Some(topic())).unwrap()
}

fn recipient() -> Vec<u8> {
    let mut r = vec![0xAAu8; 20];
    r[19] = 0x01;
    r
}

fn value_word(v: u64) -> Vec<u8> {
    let mut w = vec![0u8; 32];
    w[24..32].copy_from_slice(&v.to_be_bytes());
    w
}

fn deposit(v: u64) -> bridge::types::Deposit {
    bridge::types::Deposit {
        recipient: recipient(),
        value: value_word(v),
        hash: vec![0x11u8; 32],
    }
}

fn log_with_data(data: Vec<u8>, block: u64, index: u64) -> RawLog {
    RawLog {
        address: vec![0u8; 20],
        topics: vec![topic()],
        data,
        block_number: block,
        log_index: index,
        transaction_hash: vec![0x77u8; 32],
    }
}

#[test]
fn payload_has_selector_and_three_words() {
    let b = bridge();
    let d = deposit(1000);
    let payload = b.deposit_payload(&d);
    assert_eq!(payload.len(), 4 + 32 + 32 + 32);
    assert_eq!(&payload[0..4], &selector()[..]);
    // recipient word: 12 zero bytes then the address
    assert_eq!(&payload[4..16], &[0u8; 12][..]);
    assert_eq!(&payload[16..36], &recipient()[..]);
    assert_eq!(&payload[36..68], &value_word(1000)[..]);
    assert_eq!(&payload[68..100], &[0x11u8; 32][..]);
}

#[test]
fn decode_round_trip_returns_recipient_and_value() {
    // Encode a deposit, carry its two event words in a synthetic log, and
    // decode: the recipient and value come back unchanged.
    let b = bridge();
    let d = deposit(1000);
    let payload = b.deposit_payload(&d);
    let event_data = payload[4..68].to_vec();
    let log = log_with_data(event_data, 100, 0);
    let decoded = b.deposit_from_log(&log).unwrap();
    assert_eq!(decoded.recipient, recipient());
    assert_eq!(decoded.value, value_word(1000));
}

#[test]
fn decoded_hash_is_transaction_hash() {
    let b = bridge();
    let d = deposit(7);
    let payload = b.deposit_payload(&d);
    let log = log_with_data(payload[4..68].to_vec(), 5, 0);
    let decoded = b.deposit_from_log(&log).unwrap();
    assert_eq!(decoded.hash, vec![0x77u8; 32]);
}

#[test]
fn decode_rejects_wrong_field_count() {
    let b = bridge();
    let log = log_with_data(vec![0u8; 63], 1, 0);
    assert!(matches!(
        b.deposit_from_log(&log),
        Err(DecodeError::WrongFieldCount)
    ));
    let log3 = log_with_data(vec![0u8; 96], 1, 0);
    assert!(matches!(
        b.deposit_from_log(&log3),
        Err(DecodeError::WrongFieldCount)
    ));
}

#[test]
fn decode_rejects_non_address_first_word() {
    let b = bridge();
    let mut data = vec![0u8; 64];
    data[3] = 1; // padding byte not zero: not coercible to an address
    let log = log_with_data(data, 1, 0);
    assert!(matches!(
        b.deposit_from_log(&log),
        Err(DecodeError::TypeMismatch)
    ));
}

#[test]
fn filter_matches_address_and_topic_with_open_range() {
    let b = bridge();
    let addr = vec![0x42u8; 20];
    let f = b.deposits_filter(&addr);
    assert_eq!(f.address, addr);
    assert_eq!(f.topic0, topic());
    assert_eq!(f.from_block, None);
    assert_eq!(f.to_block, None);
}

#[test]
fn binding_reports_missing_abi_entries() {
    assert_eq!(
        KovanBridge::new(None, Some(topic())).err(),
        Some(ConfigError::MissingDepositFunction)
    );
    assert_eq!(
        KovanBridge::new(Some(vec![1, 2, 3]), Some(topic())).err(),
        Some(ConfigError::MissingDepositFunction)
    );
    assert_eq!(
        KovanBridge::new(Some(selector()), None).err(),
        Some(ConfigError::MissingDepositEvent)
    );
    assert_eq!(
        KovanBridge::new(Some(selector()), Some(vec![0u8; 31])).err(),
        Some(ConfigError::MissingDepositEvent)
    );
}

#[test]
fn decode_batch_keeps_order_and_counts_drops() {
    let b = bridge();
    let d1 = deposit(1);
    let d2 = deposit(2);
    let p1 = b.deposit_payload(&d1);
    let p2 = b.deposit_payload(&d2);
    let logs = vec![
        log_with_data(p1[4..68].to_vec(), 10, 0),
        log_with_data(vec![0u8; 10], 10, 1),
        log_with_data(p2[4..68].to_vec(), 11, 0),
    ];
    let (deposits, dropped) = b.decode_batch(&logs);
    assert_eq!(deposits.len(), 2);
    assert_eq!(dropped, 1);
    assert_eq!(deposits[0].value, value_word(1));
    assert_eq!(deposits[1].value, value_word(2));
}

#[test]
fn byte_helpers_copy_and_compare() {
    let a = vec![1u8, 2, 3];
    let c = copy_bytes(&a);
    assert_eq!(a, c);
    assert!(bytes_eq(&a, &c));
    assert!(!bytes_eq(&a, &vec![1u8, 2]));
    assert!(!bytes_eq(&a, &vec![1u8, 2, 4]));
    assert_eq!(slice_range(&a, 1, 3), vec![2u8, 3]);
}
