use protocol_layer::shared::crypto::{generate_keypair, hash_data};
use protocol_layer::shared::types::Priority;
use protocol_layer::shared::utils::{generate_id, timestamp_millis};

#[test]
fn sha256_digest_is_32_bytes_and_deterministic() {
    let a = hash_data(b"hello");
    let b = hash_data(b"hello");
    let c = hash_data(b"world");
    assert_eq!(a.len(), 32);
    assert_eq!(a, b);
    assert_ne!(a, c);
    // the well-known SHA-256 of the empty input starts with 0xe3 0xb0
    let empty = hash_data(b"");
    assert_eq!(empty[0], 0xe3);
    assert_eq!(empty[1], 0xb0);
}

#[test]
fn keypair_signs_deterministically_per_key() {
    let key = generate_keypair();
    let bytes = key.to_bytes();
    assert_eq!(bytes.len(), 32);
}

#[test]
fn generated_ids_differ() {
    let a = generate_id();
    let b = generate_id();
    assert_ne!(a, b);
}

#[test]
fn clock_is_monotonic_enough() {
    let a = timestamp_millis();
    let b = timestamp_millis();
    assert!(b >= a);
    assert!(a > 0);
}

#[test]
fn priority_order_and_default() {
    assert!(Priority::Critical.rank() > Priority::High.rank());
    assert!(Priority::High.rank() > Priority::Normal.rank());
    assert!(Priority::Normal.rank() > Priority::Low.rank());
    assert_eq!(Priority::default(), Priority::Normal);
}
