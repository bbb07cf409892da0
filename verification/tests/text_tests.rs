use tol::text::{chars_of, decimal_string, is_ascii_digit, parse_usize, push_decimal, string_of};

#[test]
fn decimal_numerals() {
    assert_eq!(decimal_string(0), "0");
    assert_eq!(decimal_string(7), "7");
    assert_eq!(decimal_string(10), "10");
    assert_eq!(decimal_string(1234567890), "1234567890");
    assert_eq!(decimal_string(usize::MAX), usize::MAX.to_string());
}

#[test]
fn push_decimal_appends() {
    let mut s = "n=".to_string();
    push_decimal(&mut s, 305);
    assert_eq!(s, "n=305");
}

#[test]
fn parse_usize_reads_digits() {
    assert_eq!(parse_usize("0"), Some(0));
    assert_eq!(parse_usize("007"), Some(7));
    assert_eq!(parse_usize("+5"), Some(5));
    assert_eq!(parse_usize("18446744073709551615"), "18446744073709551615".parse::<usize>().ok());
}

#[test]
fn parse_usize_rejects_what_is_no_number() {
    assert_eq!(parse_usize(""), None);
    assert_eq!(parse_usize("+"), None);
    assert_eq!(parse_usize("-1"), None);
    assert_eq!(parse_usize("1_000"), None);
    assert_eq!(parse_usize(" 1"), None);
    assert_eq!(parse_usize("12a"), None);
    assert_eq!(parse_usize("++1"), None);
}

#[test]
fn parse_usize_rejects_what_does_not_fit() {
    assert_eq!(parse_usize("99999999999999999999999999"), None);
    assert_eq!(
        parse_usize("18446744073709551616"),
        "18446744073709551616".parse::<usize>().ok()
    );
}

#[test]
fn parse_usize_agrees_with_the_standard_library() {
    for s in ["", "0", "+0", "12", "+", "-", "1+", "0x10", "4294967295", "4294967296", "٣"] {
        assert_eq!(parse_usize(s), s.parse::<usize>().ok(), "{}", s);
    }
}

#[test]
fn characters_of_a_string() {
    assert_eq!(chars_of("añ→"), vec!['a', 'ñ', '→']);
    assert_eq!(chars_of(""), Vec::<char>::new());
}

#[test]
fn string_of_a_range_of_characters() {
    let chars = chars_of("kumusta");
    assert_eq!(string_of(&chars, 0, 7), "kumusta");
    assert_eq!(string_of(&chars, 2, 5), "mus");
    assert_eq!(string_of(&chars, 3, 3), "");
}

#[test]
fn ascii_digits() {
    assert!(is_ascii_digit('0'));
    assert!(is_ascii_digit('9'));
    assert!(!is_ascii_digit('a'));
    assert!(!is_ascii_digit('٣'));
}
