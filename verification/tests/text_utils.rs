//! The character-level utilities underneath the parsers and formatters.

use ggoto::text::{
    parse_hundredths_opt, parse_u64_opt, str_contains, str_eq, str_le, to_lowercase,
    u64_to_string,
};

fn chars(s: &str) -> Vec<char> {
    s.chars().collect()
}

#[test]
fn test_parse_u64_accepts_plain_and_plus() {
    assert_eq!(parse_u64_opt(&chars("0")), Some(0));
    assert_eq!(parse_u64_opt(&chars("1234")), Some(1234));
    assert_eq!(parse_u64_opt(&chars("+77")), Some(77));
    assert_eq!(parse_u64_opt(&chars("18446744073709551615")), Some(u64::MAX));
}

#[test]
fn test_parse_u64_rejects_malformed_and_overflow() {
    assert_eq!(parse_u64_opt(&chars("")), None);
    assert_eq!(parse_u64_opt(&chars("+")), None);
    assert_eq!(parse_u64_opt(&chars("12a")), None);
    assert_eq!(parse_u64_opt(&chars("-5")), None);
    assert_eq!(parse_u64_opt(&chars("18446744073709551616")), None);
}

#[test]
fn test_parse_hundredths_values() {
    assert_eq!(parse_hundredths_opt(&chars("23.5")), Some(2350));
    assert_eq!(parse_hundredths_opt(&chars("23.55")), Some(2355));
    // further fractional digits are discarded
    assert_eq!(parse_hundredths_opt(&chars("23.559")), Some(2355));
    assert_eq!(parse_hundredths_opt(&chars("7")), Some(700));
    assert_eq!(parse_hundredths_opt(&chars(".5")), Some(50));
    assert_eq!(parse_hundredths_opt(&chars("5.")), Some(500));
    assert_eq!(parse_hundredths_opt(&chars("")), None);
    assert_eq!(parse_hundredths_opt(&chars(".")), None);
    assert_eq!(parse_hundredths_opt(&chars("1.2.3")), None);
    assert_eq!(parse_hundredths_opt(&chars("x")), None);
}

#[test]
fn test_u64_to_string_digits() {
    assert_eq!(u64_to_string(0), "0");
    assert_eq!(u64_to_string(42), "42");
    assert_eq!(u64_to_string(18446744073709551615), "18446744073709551615");
}

#[test]
fn test_string_helpers() {
    assert!(str_eq("abc", "abc"));
    assert!(!str_eq("abc", "abd"));
    assert!(str_le("abc", "abd"));
    assert!(str_le("ab", "abc"));
    assert!(!str_le("b", "ab"));
    assert!(str_contains("staging-web", "web"));
    assert!(!str_contains("staging-web", "db"));
    // the lowercase bridge would break filtering if it returned its
    // argument unchanged
    assert_eq!(to_lowercase("YSDC-Web"), "ysdc-web");
}
