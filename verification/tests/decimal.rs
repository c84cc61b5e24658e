use wuwa_fps_unlocker::decimal::{integer_string, parse_integer, parse_u32};

#[test]
fn integer_string_writes_canonical_text() {
    assert_eq!(integer_string(0), "0");
    assert_eq!(integer_string(7), "7");
    assert_eq!(integer_string(120), "120");
    assert_eq!(integer_string(-45), "-45");
    assert_eq!(integer_string(i64::MAX), "9223372036854775807");
    assert_eq!(integer_string(i64::MIN), "-9223372036854775808");
}

#[test]
fn parse_integer_reads_canonical_text_only() {
    assert_eq!(parse_integer("0"), Some(0));
    assert_eq!(parse_integer("60"), Some(60));
    assert_eq!(parse_integer("-17"), Some(-17));
    assert_eq!(parse_integer("9223372036854775807"), Some(i64::MAX));
    assert_eq!(parse_integer("-9223372036854775808"), Some(i64::MIN));
    assert_eq!(parse_integer("9223372036854775808"), None);
    assert_eq!(parse_integer("-9223372036854775809"), None);
    assert_eq!(parse_integer("99999999999999999999999"), None);
    assert_eq!(parse_integer(""), None);
    assert_eq!(parse_integer("-"), None);
    assert_eq!(parse_integer("-0"), None);
    assert_eq!(parse_integer("007"), None);
    assert_eq!(parse_integer("+7"), None);
    assert_eq!(parse_integer("60.0"), None);
    assert_eq!(parse_integer("6e1"), None);
    assert_eq!(parse_integer(" 60"), None);
}

#[test]
fn parse_u32_reads_what_the_standard_parser_reads() {
    let cases = [
        "0", "60", "+60", "007", "4294967295", "4294967296", "", "+", "-", "-0", "-5", "++5",
        "6 0", "60 ", "1e3", "12a", "00000000000000000000001", "99999999999999999999999",
    ];
    for case in cases {
        assert_eq!(parse_u32(case), case.parse::<u32>().ok(), "{:?}", case);
    }
}

#[test]
fn integer_text_round_trips() {
    let values = [0i64, 1, -1, 9, 10, 11, 99, 100, 1000, -1000, 123456789, i64::MAX, i64::MIN];
    for v in values {
        assert_eq!(parse_integer(&integer_string(v)), Some(v));
        assert_eq!(integer_string(v), v.to_string());
    }
}
