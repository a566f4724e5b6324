use session_auth::parse::parse_i32;

#[test]
fn parses_plain_decimal() {
    assert_eq!(parse_i32("42"), Some(42));
    assert_eq!(parse_i32("0"), Some(0));
    assert_eq!(parse_i32("007"), Some(7));
}

#[test]
fn parses_signed_decimal() {
    assert_eq!(parse_i32("+7"), Some(7));
    assert_eq!(parse_i32("-7"), Some(-7));
    assert_eq!(parse_i32("-0"), Some(0));
}

#[test]
fn rejects_empty_and_bare_signs() {
    assert_eq!(parse_i32(""), None);
    assert_eq!(parse_i32("+"), None);
    assert_eq!(parse_i32("-"), None);
}

#[test]
fn rejects_malformed_text() {
    assert_eq!(parse_i32("abc"), None);
    assert_eq!(parse_i32("12a"), None);
    assert_eq!(parse_i32("a12"), None);
    assert_eq!(parse_i32(" 7"), None);
    assert_eq!(parse_i32("7 "), None);
    assert_eq!(parse_i32("--7"), None);
    assert_eq!(parse_i32("1.5"), None);
}

#[test]
fn honours_the_i32_range() {
    assert_eq!(parse_i32("2147483647"), Some(2147483647));
    assert_eq!(parse_i32("2147483648"), None);
    assert_eq!(parse_i32("-2147483648"), Some(-2147483648));
    assert_eq!(parse_i32("-2147483649"), None);
    assert_eq!(parse_i32("99999999999999999999"), None);
}

#[test]
fn agrees_with_the_standard_parser_on_samples() {
    let samples = [
        "0", "1", "-1", "+1", "42", "007", "-007", "2147483647", "-2147483648", "2147483648",
        "-2147483649", "", "+", "-", "x", "4x", " 4", "10000000000",
    ];
    for s in samples {
        assert_eq!(parse_i32(s), s.parse::<i32>().ok(), "disagreement on {:?}", s);
    }
}
