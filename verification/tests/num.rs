use eventsdb::num::{i64_to_dec, parse_i64_dec, parse_u64_dec, u64_to_dec};

#[test]
fn renders_canonical_decimal_text() {
    assert_eq!(u64_to_dec(0), "0");
    assert_eq!(u64_to_dec(7), "7");
    assert_eq!(u64_to_dec(1024), "1024");
    assert_eq!(u64_to_dec(u64::MAX), "18446744073709551615");
    assert_eq!(i64_to_dec(-1), "-1");
    assert_eq!(i64_to_dec(-42), "-42");
    assert_eq!(i64_to_dec(i64::MIN), "-9223372036854775808");
    assert_eq!(i64_to_dec(i64::MAX), "9223372036854775807");
}

#[test]
fn parses_unsigned_decimal_text() {
    assert_eq!(parse_u64_dec("0"), Some(0));
    assert_eq!(parse_u64_dec("0012"), Some(12));
    assert_eq!(parse_u64_dec("18446744073709551615"), Some(u64::MAX));
    assert_eq!(parse_u64_dec("18446744073709551616"), None);
    assert_eq!(parse_u64_dec(""), None);
    assert_eq!(parse_u64_dec("12x"), None);
    assert_eq!(parse_u64_dec("-1"), None);
    assert_eq!(parse_u64_dec(" 1"), None);
}

#[test]
fn parses_signed_decimal_text() {
    assert_eq!(parse_i64_dec("42"), Some(42));
    assert_eq!(parse_i64_dec("-42"), Some(-42));
    assert_eq!(parse_i64_dec("-0"), Some(0));
    assert_eq!(parse_i64_dec("-9223372036854775808"), Some(i64::MIN));
    assert_eq!(parse_i64_dec("-9223372036854775809"), None);
    assert_eq!(parse_i64_dec("9223372036854775807"), Some(i64::MAX));
    assert_eq!(parse_i64_dec("9223372036854775808"), None);
    assert_eq!(parse_i64_dec("-"), None);
    assert_eq!(parse_i64_dec("--1"), None);
}

#[test]
fn round_trips_every_sampled_value() {
    for v in [0i64, 1, -1, 999, -1000, i64::MIN, i64::MAX] {
        assert_eq!(parse_i64_dec(&i64_to_dec(v)), Some(v));
    }
    for v in [0u64, 9, 10, 4096, u64::MAX] {
        assert_eq!(parse_u64_dec(&u64_to_dec(v)), Some(v));
    }
}
