use flowy_workspace::decimal::parse_dec;
use flowy_workspace::decimal::u64_to_dec;
use flowy_workspace::text::str_eq;

#[test]
fn prints_zero() {
    assert_eq!(u64_to_dec(0), "0");
}

#[test]
fn prints_a_multi_digit_number() {
    assert_eq!(u64_to_dec(90210), "90210");
}

#[test]
fn prints_the_largest_value() {
    assert_eq!(u64_to_dec(u64::MAX), "18446744073709551615");
}

#[test]
fn parses_canonical_digits() {
    assert_eq!(parse_dec("0"), Some(0));
    assert_eq!(parse_dec("123"), Some(123));
    assert_eq!(parse_dec("9999999999999999999"), Some(9_999_999_999_999_999_999));
}

#[test]
fn rejects_non_canonical_strings() {
    assert_eq!(parse_dec(""), None);
    assert_eq!(parse_dec("0042"), None);
    assert_eq!(parse_dec("12a"), None);
    assert_eq!(parse_dec("-3"), None);
    assert_eq!(parse_dec("12345678901234567890"), None);
}

#[test]
fn printing_then_parsing_round_trips() {
    assert_eq!(parse_dec(&u64_to_dec(0)), Some(0));
    assert_eq!(parse_dec(&u64_to_dec(7)), Some(7));
    assert_eq!(parse_dec(&u64_to_dec(1_000_000_007)), Some(1_000_000_007));
}

#[test]
fn string_equality_is_by_characters() {
    assert!(str_eq("", ""));
    assert!(str_eq("abc", "abc"));
    assert!(!str_eq("abc", "abd"));
    assert!(!str_eq("abc", "ab"));
    assert!(str_eq("naïve", "naïve"));
}
