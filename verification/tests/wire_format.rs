use ng_async::errors::PipeError;
use ng_async::errors::is_unexpected_error;
use ng_async::wire::nullptr;
use ng_async::wire::parse_decimal;
use ng_async::wire::ptr_size;
use ng_async::wire::u64_from_be_bytes;
use ng_async::wire::u64_to_be_bytes;
use ng_async::wire::u64_to_decimal;

#[test]
fn address_field_is_eight_bytes() {
    assert_eq!(ptr_size(), 8);
}

#[test]
fn sentinel_is_the_zero_address() {
    assert_eq!(nullptr(), 0);
}

#[test]
fn big_endian_encoding_is_network_order() {
    assert_eq!(u64_to_be_bytes(0x0102030405060708), vec![1, 2, 3, 4, 5, 6, 7, 8]);
    assert_eq!(u64_to_be_bytes(0), vec![0; 8]);
    assert_eq!(u64_to_be_bytes(0xff), vec![0, 0, 0, 0, 0, 0, 0, 0xff]);
}

#[test]
fn big_endian_round_trip() {
    for x in [0u64, 1, 255, 256, 0xdead_beef, u64::MAX] {
        let bytes = u64_to_be_bytes(x);
        assert_eq!(u64_from_be_bytes(&bytes, 0), x);
    }
}

#[test]
fn big_endian_decode_at_offset() {
    let mut bytes = vec![9, 9, 9];
    bytes.extend_from_slice(&u64_to_be_bytes(77));
    assert_eq!(u64_from_be_bytes(&bytes, 3), 77);
}

#[test]
fn decimal_encoding_is_ascii_digits() {
    assert_eq!(u64_to_decimal(0), b"0".to_vec());
    assert_eq!(u64_to_decimal(7), b"7".to_vec());
    assert_eq!(u64_to_decimal(12345), b"12345".to_vec());
    assert_eq!(u64_to_decimal(u64::MAX), b"18446744073709551615".to_vec());
}

#[test]
fn decimal_round_trip() {
    for x in [0u64, 9, 10, 4096, u64::MAX] {
        assert_eq!(parse_decimal(&u64_to_decimal(x)), Some(x));
    }
}

#[test]
fn decimal_parse_rejects_empty() {
    assert_eq!(parse_decimal(&Vec::new()), None);
}

#[test]
fn decimal_parse_rejects_non_digits() {
    assert_eq!(parse_decimal(&b"12a4".to_vec()), None);
    assert_eq!(parse_decimal(&b"-5".to_vec()), None);
    assert_eq!(parse_decimal(&b" 1".to_vec()), None);
}

#[test]
fn decimal_parse_rejects_overflow() {
    assert_eq!(parse_decimal(&b"18446744073709551615".to_vec()), Some(u64::MAX));
    assert_eq!(parse_decimal(&b"18446744073709551616".to_vec()), None);
    assert_eq!(parse_decimal(&b"99999999999999999999999".to_vec()), None);
}

#[test]
fn only_the_closed_condition_goes_unreported() {
    assert!(!is_unexpected_error(&PipeError::Closed));
    assert!(is_unexpected_error(&PipeError::TypeMismatch));
    assert!(is_unexpected_error(&PipeError::ProtocolViolation));
}
