use web_core::parse::{parse_i64, parse_u64};

#[test]
fn parses_plain_unsigned() {
    assert_eq!(parse_u64("42"), Some(42));
    assert_eq!(parse_u64("0"), Some(0));
    assert_eq!(parse_u64("+7"), Some(7));
    assert_eq!(parse_u64("18446744073709551615"), Some(u64::MAX));
}

#[test]
fn rejects_bad_unsigned() {
    assert_eq!(parse_u64(""), None);
    assert_eq!(parse_u64("+"), None);
    assert_eq!(parse_u64("-1"), None);
    assert_eq!(parse_u64("12a"), None);
    assert_eq!(parse_u64(" 12"), None);
    assert_eq!(parse_u64("12 "), None);
    assert_eq!(parse_u64("18446744073709551616"), None);
    assert_eq!(parse_u64("99999999999999999999999999"), None);
}

#[test]
fn parses_signed() {
    assert_eq!(parse_i64("-1"), Some(-1));
    assert_eq!(parse_i64("+17"), Some(17));
    assert_eq!(parse_i64("1512345678"), Some(1512345678));
    assert_eq!(parse_i64("9223372036854775807"), Some(i64::MAX));
    assert_eq!(parse_i64("-9223372036854775808"), Some(i64::MIN));
}

#[test]
fn rejects_bad_signed() {
    assert_eq!(parse_i64(""), None);
    assert_eq!(parse_i64("-"), None);
    assert_eq!(parse_i64("+"), None);
    assert_eq!(parse_i64("--1"), None);
    assert_eq!(parse_i64("1.5"), None);
    assert_eq!(parse_i64("9223372036854775808"), None);
    assert_eq!(parse_i64("-9223372036854775809"), None);
}

#[test]
fn matches_std_parsing() {
    let samples = [
        "0",
        "007",
        "+42",
        "-42",
        "gzip",
        "",
        "+",
        "-",
        "99999999999999999999999",
        "-99999999999999999999999",
        "1 ",
        "\u{0664}\u{0662}",
        "18446744073709551615",
        "-9223372036854775808",
    ];
    for s in samples {
        assert_eq!(parse_u64(s), s.parse::<u64>().ok(), "u64 disagrees on {:?}", s);
        assert_eq!(parse_i64(s), s.parse::<i64>().ok(), "i64 disagrees on {:?}", s);
    }
}
