use aura::state::{decode_state, encode_state};

#[test]
fn round_trip_restores_values() {
    let blob = encode_state(&[1, 2], &[0.25f64.to_bits(), 0.75f64.to_bits()]);
    let values = decode_state(&blob).expect("well-formed blob");
    assert_eq!(values, vec![(1, 0.25f64.to_bits()), (2, 0.75f64.to_bits())]);
    assert_eq!(f64::from_bits(values[0].1), 0.25);
    assert_eq!(f64::from_bits(values[1].1), 0.75);
}

#[test]
fn malformed_blob_rejected_without_touching_state() {
    assert_eq!(decode_state(&[]), None);
    assert_eq!(decode_state(&[1, 0]), None);
}

#[test]
fn blob_layout_is_count_then_le_entries() {
    let blob = encode_state(&[7], &[0x0102_0304_0506_0708]);
    assert_eq!(
        blob,
        vec![1, 0, 0, 0, 7, 0, 0, 0, 8, 7, 6, 5, 4, 3, 2, 1]
    );
}

#[test]
fn empty_store_encodes_zero_count() {
    assert_eq!(encode_state(&[], &[]), vec![0, 0, 0, 0]);
    assert_eq!(decode_state(&[0, 0, 0, 0]), Some(vec![]));
}

#[test]
fn truncated_entry_rejected() {
    let mut blob = encode_state(&[1, 2], &[3, 4]);
    blob.pop();
    assert_eq!(decode_state(&blob), None);
}

#[test]
fn trailing_bytes_ignored() {
    let mut blob = encode_state(&[5], &[9]);
    blob.extend_from_slice(&[0xAA, 0xBB]);
    assert_eq!(decode_state(&blob), Some(vec![(5, 9)]));
}

#[test]
fn huge_count_rejected() {
    assert_eq!(decode_state(&[0xFF, 0xFF, 0xFF, 0xFF, 1, 2, 3]), None);
}
