use media_gateway::digits::{parse_i64, parse_u64, u64_to_dec, usize_to_dec};

#[test]
fn renders_decimals() {
    assert_eq!(u64_to_dec(0).as_str(), "0");
    assert_eq!(u64_to_dec(7).as_str(), "7");
    assert_eq!(u64_to_dec(1234).as_str(), "1234");
    assert_eq!(u64_to_dec(u64::MAX).as_str(), "18446744073709551615");
    assert_eq!(usize_to_dec(600).as_str(), "600");
}

#[test]
fn parses_unsigned_decimals() {
    assert_eq!(parse_u64("0"), Some(0));
    assert_eq!(parse_u64("42"), Some(42));
    assert_eq!(parse_u64("0042"), Some(42));
    assert_eq!(parse_u64("18446744073709551615"), Some(u64::MAX));
    assert_eq!(parse_u64("18446744073709551616"), None);
    assert_eq!(parse_u64(""), None);
    assert_eq!(parse_u64("12a"), None);
    assert_eq!(parse_u64("-1"), None);
}

#[test]
fn parses_signed_decimals() {
    assert_eq!(parse_i64("0"), Some(0));
    assert_eq!(parse_i64("1699999999"), Some(1699999999));
    assert_eq!(parse_i64("-300"), Some(-300));
    assert_eq!(parse_i64("-"), None);
    assert_eq!(parse_i64("x"), None);
    assert_eq!(parse_i64("9223372036854775807"), Some(i64::MAX));
    assert_eq!(parse_i64("9223372036854775808"), None);
}
