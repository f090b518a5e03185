use hurlsp::bytes::str_eq;
use hurlsp::decimal::{parse_i64, parse_usize, push_decimal};

#[test]
fn parse_usize_reads_digits() {
    assert_eq!(parse_usize(b"0"), Some(0));
    assert_eq!(parse_usize(b"42"), Some(42));
    assert_eq!(parse_usize(b"+42"), Some(42));
    assert_eq!(parse_usize(b"007"), Some(7));
    assert_eq!(parse_usize(usize::MAX.to_string().as_bytes()), Some(usize::MAX));
}

#[test]
fn parse_usize_rejects_what_is_no_length() {
    assert_eq!(parse_usize(b""), None);
    assert_eq!(parse_usize(b"+"), None);
    assert_eq!(parse_usize(b"-1"), None);
    assert_eq!(parse_usize(b"1 "), None);
    assert_eq!(parse_usize(b" 1"), None);
    assert_eq!(parse_usize(b"1_0"), None);
    assert_eq!(parse_usize(b"++1"), None);
    assert_eq!(parse_usize(b"18446744073709551616"), None);
    assert_eq!(parse_usize(b"99999999999999999999999"), None);
}

#[test]
fn parse_usize_agrees_with_std() {
    for text in ["", "0", "+0", "-0", "12", "1x", "x1", "+", "18446744073709551615", "18446744073709551616", "00000000000000000000001"] {
        assert_eq!(parse_usize(text.as_bytes()), text.parse::<usize>().ok(), "{:?}", text);
    }
}

#[test]
fn parse_i64_reads_signed_numbers() {
    assert_eq!(parse_i64(b"0"), Some(0));
    assert_eq!(parse_i64(b"-0"), Some(0));
    assert_eq!(parse_i64(b"+17"), Some(17));
    assert_eq!(parse_i64(b"-17"), Some(-17));
    assert_eq!(parse_i64(b"9223372036854775807"), Some(i64::MAX));
    assert_eq!(parse_i64(b"-9223372036854775808"), Some(i64::MIN));
}

#[test]
fn parse_i64_rejects_what_is_no_integer() {
    assert_eq!(parse_i64(b""), None);
    assert_eq!(parse_i64(b"-"), None);
    assert_eq!(parse_i64(b"+"), None);
    assert_eq!(parse_i64(b"+-1"), None);
    assert_eq!(parse_i64(b"1.0"), None);
    assert_eq!(parse_i64(b"abc"), None);
    assert_eq!(parse_i64(b"9223372036854775808"), None);
    assert_eq!(parse_i64(b"-9223372036854775809"), None);
}

#[test]
fn parse_i64_agrees_with_std() {
    for text in ["", "-", "+", "5", "-5", "+5", "--5", "5-", "9223372036854775807", "9223372036854775808", "-9223372036854775808", "-9223372036854775809", "000", "-000"] {
        assert_eq!(parse_i64(text.as_bytes()), text.parse::<i64>().ok(), "{:?}", text);
    }
}

#[test]
fn push_decimal_writes_digits() {
    let mut out = b"n=".to_vec();
    push_decimal(&mut out, 0);
    assert_eq!(out, b"n=0");
    push_decimal(&mut out, 1203);
    assert_eq!(out, b"n=01203");
    let mut max = Vec::new();
    push_decimal(&mut max, usize::MAX);
    assert_eq!(max, usize::MAX.to_string().into_bytes());
}

#[test]
fn push_decimal_then_parse_usize_gives_the_number_back() {
    for n in [0usize, 1, 9, 10, 11, 99, 100, 4096, 1_000_000, usize::MAX] {
        let mut out = Vec::new();
        push_decimal(&mut out, n);
        assert_eq!(parse_usize(&out), Some(n));
    }
}

#[test]
fn str_eq_compares_texts() {
    assert!(str_eq("", ""));
    assert!(str_eq("initialize", "initialize"));
    assert!(!str_eq("initialize", "initialized"));
    assert!(!str_eq("a", "b"));
    assert!(str_eq("\u{e9}t\u{e9}", "\u{e9}t\u{e9}"));
}
