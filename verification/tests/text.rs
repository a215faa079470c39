use lipnode::text::{
    is_alphanumeric_text, is_text, parse_bounded, parse_decimal, parse_natural, parse_unsigned,
};

#[test]
fn letters_and_numbers_of_any_script_are_alphanumeric() {
    assert!(is_alphanumeric_text(""));
    assert!(is_alphanumeric_text("abcXYZ019"));
    assert!(is_alphanumeric_text("\u{e4}\u{df}\u{4e2d}\u{661}"));
    assert!(!is_alphanumeric_text("a b"));
    assert!(!is_alphanumeric_text("a.b"));
    assert!(!is_alphanumeric_text("tab\t"));
    assert!(!is_alphanumeric_text("end!"));
}

#[test]
fn texts_compare_character_by_character() {
    assert!(is_text("help", "help"));
    assert!(is_text("", ""));
    assert!(!is_text("help", "Help"));
    assert!(!is_text("help", "help "));
    assert!(!is_text("", "?"));
}

#[test]
fn decimal_text_is_read_up_to_the_limit() {
    assert_eq!(parse_bounded("0", 0), Some(0));
    assert_eq!(parse_bounded("1", 0), None);
    assert_eq!(parse_bounded("255", 255), Some(255));
    assert_eq!(parse_bounded("256", 255), None);
    assert_eq!(parse_bounded("0000255", 255), Some(255));
    assert_eq!(parse_bounded("9", 5), None);
    assert_eq!(parse_bounded("", 255), None);
    assert_eq!(parse_bounded("12a", 255), None);
    assert_eq!(parse_bounded("99999999999999999999999999", u64::MAX), None);
}

#[test]
fn signed_and_unsigned_numbers_have_their_own_range() {
    assert_eq!(parse_decimal("9223372036854775807"), Some(i64::MAX));
    assert_eq!(parse_decimal("9223372036854775808"), None);
    assert_eq!(parse_decimal("-1"), None);
    assert_eq!(parse_decimal("42"), Some(42));
    assert_eq!(parse_natural("9223372036854775808"), Some(9223372036854775808));
    assert_eq!(parse_natural("18446744073709551615"), Some(u64::MAX));
    assert_eq!(parse_natural("18446744073709551616"), None);
    assert_eq!(parse_natural("+1"), None);
    assert_eq!(parse_natural("\u{661}"), None);
}

#[test]
fn unsigned_number_may_start_with_a_plus_sign() {
    for text in ["0", "+0", "7", "+7", "007", "+007", "18446744073709551615", "+18446744073709551615"] {
        assert_eq!(parse_unsigned(text), text.parse::<u64>().ok(), "{:?}", text);
        assert!(parse_unsigned(text).is_some());
    }
    for text in ["", "+", "++1", "-1", "1+", "+-1", " 1", "1 ", "1_0", "18446744073709551616", "\u{661}"] {
        assert_eq!(parse_unsigned(text), None, "{:?}", text);
        assert!(text.parse::<u64>().is_err());
    }
}
