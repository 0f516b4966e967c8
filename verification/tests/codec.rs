//! The envelope codec: exact wire bytes, round trips, and every decode
//! error.

use tabs_bridge::envelope::{decode, encode, Envelope};
use tabs_bridge::error::DecodeError;

#[test]
fn encode_exact_bytes() {
    let e = Envelope::new(b"ab".to_vec(), b"xyz".to_vec());
    let raw = encode(&e);
    assert_eq!(raw, vec![2, 0, 0, 0, b'a', b'b', b'x', b'y', b'z']);
}

#[test]
fn round_trip_basic() {
    let e = Envelope::new(b"record-1".to_vec(), vec![0, 1, 2, 254, 255]);
    let raw = encode(&e);
    let back = decode(&raw).expect("well-formed envelope must decode");
    assert_eq!(back.id, b"record-1".to_vec());
    assert_eq!(back.payload, vec![0, 1, 2, 254, 255]);
}

#[test]
fn round_trip_empty_payload() {
    let e = Envelope::new(b"a".to_vec(), Vec::new());
    let raw = encode(&e);
    assert_eq!(raw, vec![1, 0, 0, 0, b'a']);
    let back = decode(&raw).expect("well-formed envelope must decode");
    assert_eq!(back.id, b"a".to_vec());
    assert_eq!(back.payload, Vec::<u8>::new());
}

#[test]
fn decode_truncated() {
    assert_eq!(decode(&vec![]).err(), Some(DecodeError::Truncated));
    assert_eq!(decode(&vec![1, 0, 0]).err(), Some(DecodeError::Truncated));
}

#[test]
fn decode_id_out_of_bounds() {
    // The header claims five identifier bytes; only one follows.
    assert_eq!(decode(&vec![5, 0, 0, 0, b'a']).err(), Some(DecodeError::IdOutOfBounds));
}

#[test]
fn decode_empty_id() {
    assert_eq!(decode(&vec![0, 0, 0, 0]).err(), Some(DecodeError::EmptyId));
    assert_eq!(decode(&vec![0, 0, 0, 0, 9, 9]).err(), Some(DecodeError::EmptyId));
}
