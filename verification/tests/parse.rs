use histo::parse::parse_usize;

#[test]
fn plain_digits_parse() {
    assert_eq!(parse_usize(b"0"), Some(0));
    assert_eq!(parse_usize(b"7"), Some(7));
    assert_eq!(parse_usize(b"123"), Some(123));
    assert_eq!(parse_usize(b"007"), Some(7));
}

#[test]
fn leading_plus_is_accepted() {
    assert_eq!(parse_usize(b"+5"), Some(5));
    assert_eq!(parse_usize(b"+0"), Some(0));
}

#[test]
fn empty_and_sign_only_are_rejected() {
    assert_eq!(parse_usize(b""), None);
    assert_eq!(parse_usize(b"+"), None);
}

#[test]
fn stray_bytes_are_rejected() {
    assert_eq!(parse_usize(b"12a"), None);
    assert_eq!(parse_usize(b"-1"), None);
    assert_eq!(parse_usize(b" 5"), None);
    assert_eq!(parse_usize(b"5 "), None);
    assert_eq!(parse_usize(b"1.0"), None);
    assert_eq!(parse_usize(b"++1"), None);
}

#[test]
fn largest_value_parses_and_overflow_is_rejected() {
    assert_eq!(parse_usize(b"18446744073709551615"), Some(usize::MAX));
    assert_eq!(parse_usize(b"18446744073709551616"), None);
    assert_eq!(parse_usize(b"99999999999999999999999"), None);
}
