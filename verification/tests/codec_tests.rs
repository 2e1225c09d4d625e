use base64::engine::Engine;
use cnblog_sync::codec::{codec_round_trip, decode, encode};

#[test]
fn round_trip_empty() {
    let bytes: Vec<u8> = Vec::new();
    let text = encode(&bytes);
    assert_eq!(text, "");
    let back = decode(text.as_str()).unwrap();
    assert_eq!(back, bytes);
}

#[test]
fn round_trip_representative() {
    let bytes: Vec<u8> = vec![0, 1, 2, 250, 251, 252, 253, 254, 255, 77, 100];
    let back = decode(encode(&bytes).as_str()).unwrap();
    assert_eq!(back, bytes);
    let verified = codec_round_trip(&bytes);
    assert_eq!(verified, bytes);
}

#[test]
fn encode_matches_reference_engine() {
    // The wrapper must produce the standard encoding, not echo its input.
    let bytes: Vec<u8> = b"hello world".to_vec();
    let text = encode(&bytes);
    assert_eq!(text, "aGVsbG8gd29ybGQ=");
    let reference = base64::engine::general_purpose::STANDARD.encode(&bytes);
    assert_eq!(text, reference);
}

#[test]
fn decode_rejects_invalid_text() {
    assert!(decode("not base64!!").is_err());
    assert!(decode("AB").is_err());
}
