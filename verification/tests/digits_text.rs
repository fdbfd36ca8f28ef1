use pidwait::{contains_str, i64_to_string, parse_u64, split_fields, trim_ws, u64_to_string};

#[test]
fn parse_simple() {
    assert_eq!(parse_u64("101"), Some(101));
    assert_eq!(parse_u64("0"), Some(0));
    assert_eq!(parse_u64("007"), Some(7));
}

#[test]
fn parse_rejects_empty() {
    assert_eq!(parse_u64(""), None);
}

#[test]
fn parse_rejects_non_digits() {
    assert_eq!(parse_u64("12a"), None);
    assert_eq!(parse_u64(" 5"), None);
    assert_eq!(parse_u64("+5"), None);
    assert_eq!(parse_u64("-5"), None);
    assert_eq!(parse_u64("5.0"), None);
}

#[test]
fn parse_bounds() {
    assert_eq!(parse_u64("18446744073709551615"), Some(u64::MAX));
    assert_eq!(parse_u64("18446744073709551616"), None);
    assert_eq!(parse_u64("99999999999999999999999"), None);
}

#[test]
fn render_unsigned() {
    assert_eq!(u64_to_string(0), "0");
    assert_eq!(u64_to_string(101), "101");
    assert_eq!(u64_to_string(u64::MAX), "18446744073709551615");
}

#[test]
fn render_signed() {
    assert_eq!(i64_to_string(0), "0");
    assert_eq!(i64_to_string(42), "42");
    assert_eq!(i64_to_string(-5), "-5");
    assert_eq!(i64_to_string(i64::MIN), "-9223372036854775808");
}

#[test]
fn render_parse_round_trip() {
    for n in [0u64, 1, 9, 10, 99, 100, 4194304, u64::MAX] {
        assert_eq!(parse_u64(&u64_to_string(n)), Some(n));
    }
}

#[test]
fn contains_basics() {
    assert!(contains_str("sleep 50", "sleep"));
    assert!(contains_str("sleep 50", "p 5"));
    assert!(contains_str("sleep 50", ""));
    assert!(!contains_str("sleep 50", "Sleep"));
    assert!(!contains_str("ab", "abc"));
    assert!(contains_str("", ""));
}

#[test]
fn trim_basics() {
    assert_eq!(trim_ws("  a b  "), "a b");
    assert_eq!(trim_ws("\t x\r\n"), "x");
    assert_eq!(trim_ws("   "), "");
    assert_eq!(trim_ws("ab"), "ab");
}

#[test]
fn split_basics() {
    assert_eq!(split_fields("  101 sleep 50"), ("101", "sleep 50"));
    assert_eq!(split_fields("a b c"), ("a", "b c"));
    assert_eq!(split_fields("xyz"), ("", ""));
    assert_eq!(split_fields(""), ("", ""));
}
