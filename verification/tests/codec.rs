use node_config::CodecError;
use node_config::decode_bytes;
use node_config::decode_number;
use node_config::encode_bytes;
use node_config::encode_number;
use node_config::encode_number_compact;

#[test]
fn encode_empty_is_bare_prefix() {
    assert_eq!(encode_bytes(&vec![]), "0x");
}

#[test]
fn encode_single_byte() {
    assert_eq!(encode_bytes(&vec![0xab]), "0xab");
    assert_eq!(encode_bytes(&vec![0x00]), "0x00");
    assert_eq!(encode_bytes(&vec![0x0f]), "0x0f");
}

#[test]
fn encode_is_lowercase_and_ordered() {
    assert_eq!(encode_bytes(&vec![0xde, 0xad, 0xbe, 0xef]), "0xdeadbeef");
}

#[test]
fn bytes_round_trip() {
    let values: Vec<Vec<u8>> = vec![
        vec![],
        vec![0x00],
        vec![0xff],
        vec![0x01, 0x02, 0x03],
        vec![0x11; 20],
        vec![0x22; 32],
    ];
    for v in values {
        let text = encode_bytes(&v);
        assert_eq!(decode_bytes(&text, v.len()), Ok(v));
    }
}

#[test]
fn decode_prefix_tolerance_and_case() {
    assert_eq!(decode_bytes("0xAB", 1), Ok(vec![0xab]));
    assert_eq!(decode_bytes("AB", 1), Ok(vec![0xab]));
    assert_eq!(decode_bytes("0xab", 1), Ok(vec![0xab]));
    assert_eq!(decode_bytes("ab", 1), Ok(vec![0xab]));
    assert_eq!(decode_bytes("0xAb", 1), Ok(vec![0xab]));
}

#[test]
fn decode_rejects_odd_length() {
    assert_eq!(decode_bytes("0x0", 1), Err(CodecError::InvalidHex));
    assert_eq!(decode_bytes("abc", 2), Err(CodecError::InvalidHex));
}

#[test]
fn decode_rejects_non_hex() {
    assert_eq!(decode_bytes("0xzz", 1), Err(CodecError::InvalidHex));
    assert_eq!(decode_bytes("0x1g", 1), Err(CodecError::InvalidHex));
    assert_eq!(decode_bytes("hello!", 3), Err(CodecError::InvalidHex));
}

#[test]
fn decode_rejects_wrong_length() {
    assert_eq!(decode_bytes("0xabcd", 1), Err(CodecError::LengthMismatch));
    assert_eq!(decode_bytes("0xab", 2), Err(CodecError::LengthMismatch));
    assert_eq!(decode_bytes("0x", 1), Err(CodecError::LengthMismatch));
}

#[test]
fn decode_empty_payload_is_empty_value() {
    assert_eq!(decode_bytes("0x", 0), Ok(vec![]));
    assert_eq!(decode_bytes("", 0), Ok(vec![]));
}

#[test]
fn encode_number_canonical_width() {
    let text = encode_number(1000, 8);
    assert_eq!(text, "0x00000000000003e8");
    assert_eq!(text.len(), 18);
    for v in [0u64, 1, 255, 256, u64::MAX] {
        assert_eq!(encode_number(v, 8).len(), 18);
    }
}

#[test]
fn encode_number_zero_is_all_zero_digits() {
    assert_eq!(encode_number(0, 8), "0x0000000000000000");
    assert_eq!(encode_number(0, 1), "0x00");
}

#[test]
fn encode_number_narrow_widths() {
    assert_eq!(encode_number(255, 1), "0xff");
    assert_eq!(encode_number(0x0102, 2), "0x0102");
    assert_eq!(encode_number(u64::MAX, 8), "0xffffffffffffffff");
}

#[test]
fn decode_number_pads_short_input() {
    assert_eq!(decode_number("0x01", 8), Ok(1));
    assert_eq!(decode_number("0x03e8", 8), Ok(1000));
    assert_eq!(decode_number("03e8", 8), Ok(1000));
    assert_eq!(decode_number("0x00000000000003e8", 8), Ok(1000));
}

#[test]
fn decode_number_empty_payload_is_zero() {
    assert_eq!(decode_number("0x", 8), Ok(0));
}

#[test]
fn decode_number_overflow_rejection() {
    assert_eq!(
        decode_number("0x0102030405060708ff", 8),
        Err(CodecError::Overflow)
    );
    assert_eq!(decode_number("0x0102", 1), Err(CodecError::Overflow));
}

#[test]
fn decode_number_rejects_bad_hex() {
    assert_eq!(decode_number("0x123", 8), Err(CodecError::InvalidHex));
    assert_eq!(decode_number("0xgg", 8), Err(CodecError::InvalidHex));
}

#[test]
fn compact_encoding_strips_leading_zeros() {
    assert_eq!(encode_number_compact(1000, 8), "0x03e8");
    assert_eq!(encode_number_compact(1, 8), "0x01");
    assert_eq!(encode_number_compact(0, 8), "0x");
    assert_eq!(encode_number_compact(u64::MAX, 8), "0xffffffffffffffff");
}

#[test]
fn compact_number_round_trip() {
    for v in [0u64, 1, 255, 256, 1000, 65535, 1 << 40, u64::MAX] {
        let text = encode_number_compact(v, 8);
        assert_eq!(decode_number(&text, 8), Ok(v));
    }
}

#[test]
fn number_round_trip() {
    for v in [0u64, 1, 999, 1000, 65535, u64::MAX] {
        let text = encode_number(v, 8);
        assert_eq!(decode_number(&text, 8), Ok(v));
    }
}
