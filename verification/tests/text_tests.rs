use stiv::text::{decimal_bytes, parse_u32, push_ascii, push_bytes, push_decimal, str_chars, tail_equals};

#[test]
fn decimal_of_zero_and_large_numbers() {
    assert_eq!(decimal_bytes(0), b"0".to_vec());
    assert_eq!(decimal_bytes(7), b"7".to_vec());
    assert_eq!(decimal_bytes(4096), b"4096".to_vec());
    assert_eq!(decimal_bytes(u64::MAX), b"18446744073709551615".to_vec());
}

#[test]
fn push_helpers_append() {
    let mut out = b"a=".to_vec();
    push_decimal(&mut out, 42);
    push_ascii(&mut out, ",q=2");
    push_bytes(&mut out, &[59, 60]);
    assert_eq!(out, b"a=42,q=2;<".to_vec());
}

#[test]
fn parse_accepts_digits_and_plus() {
    assert_eq!(parse_u32("0"), Some(0));
    assert_eq!(parse_u32("17"), Some(17));
    assert_eq!(parse_u32("+3"), Some(3));
    assert_eq!(parse_u32("4294967295"), Some(u32::MAX));
    assert_eq!(parse_u32("0004"), Some(4));
}

#[test]
fn parse_rejects_what_from_str_rejects() {
    for s in ["", "+", "-1", "-0", " 1", "1 ", "12a", "4294967296", "99999999999999999999", "++1"] {
        assert_eq!(parse_u32(s), None, "{s:?}");
        assert!(s.parse::<u32>().is_err(), "{s:?}");
    }
}

#[test]
fn parse_agrees_with_std_on_samples() {
    for s in ["1", "+0", "65535", "123456789", "4294967294"] {
        assert_eq!(parse_u32(s), s.parse::<u32>().ok());
    }
}

#[test]
fn decimal_round_trip_on_samples() {
    for n in [0u32, 1, 9, 10, 99, 100, 65535, u32::MAX] {
        let text = String::from_utf8(decimal_bytes(n as u64)).unwrap();
        assert_eq!(parse_u32(&text), Some(n));
    }
}

#[test]
fn chars_and_tail_comparison() {
    let v = str_chars("photo.jpeg");
    assert_eq!(v.len(), 10);
    assert!(tail_equals(&v, 6, &['j', 'p', 'e', 'g']));
    assert!(!tail_equals(&v, 6, &['j', 'p', 'g']));
    assert!(tail_equals(&v, 10, &[]));
}
