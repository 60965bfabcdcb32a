use stm32_kernel::decimal::{format_decimal, parse_usize};

#[test]
fn formats_zero() {
    assert_eq!(format_decimal(0), b"0".to_vec());
}

#[test]
fn formats_like_display() {
    for n in [1usize, 9, 10, 99, 100, 1000, 12345, usize::MAX] {
        assert_eq!(format_decimal(n), n.to_string().into_bytes());
    }
}

#[test]
fn parses_plain_digits() {
    assert_eq!(parse_usize(b"123"), Some(123));
    assert_eq!(parse_usize(b"007"), Some(7));
}

#[test]
fn parses_leading_plus() {
    assert_eq!(parse_usize(b"+42"), Some(42));
}

#[test]
fn rejects_empty_and_sign_only() {
    assert_eq!(parse_usize(b""), None);
    assert_eq!(parse_usize(b"+"), None);
    assert_eq!(parse_usize(b"-1"), None);
    assert_eq!(parse_usize(b"++1"), None);
}

#[test]
fn rejects_non_digits() {
    assert_eq!(parse_usize(b"12a"), None);
    assert_eq!(parse_usize(b" 12"), None);
}

#[test]
fn rejects_overflow() {
    let max = usize::MAX.to_string();
    assert_eq!(parse_usize(max.as_bytes()), Some(usize::MAX));
    let over = format!("{}0", usize::MAX);
    assert_eq!(parse_usize(over.as_bytes()), None);
    let over_by_one = (usize::MAX as u128 + 1).to_string();
    assert_eq!(parse_usize(over_by_one.as_bytes()), None);
}

#[test]
fn agrees_with_from_str() {
    for s in ["0", "+0", "18", "+", "", "x", "99999999999999999999999", "00012", "1_000"] {
        assert_eq!(parse_usize(s.as_bytes()), s.parse::<usize>().ok(), "{}", s);
    }
}

#[test]
fn round_trip() {
    for n in [0usize, 7, 10, 65535, 1 << 40, usize::MAX] {
        assert_eq!(parse_usize(&format_decimal(n)), Some(n));
    }
}
