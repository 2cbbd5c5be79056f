use txdemo::fixed_decimal::{ParseFixedDecimalError, UnsignedAssetCount};

fn parse(s: &str) -> Result<u64, ParseFixedDecimalError> {
    UnsignedAssetCount::from_str(s).map(|a| a.fractions())
}

#[test]
fn parse_zero() {
    assert_eq!(parse("0"), Ok(0));
}

#[test]
fn parse_fills_missing_fractional_digits() {
    assert_eq!(parse("1.0000"), Ok(10000));
    assert_eq!(parse("1.000"), Ok(10000));
    assert_eq!(parse("1.00"), Ok(10000));
    assert_eq!(parse("1.0"), Ok(10000));
    assert_eq!(parse("1."), Ok(10000));
    assert_eq!(parse("1"), Ok(10000));
}

#[test]
fn parse_fraction_without_integral_part() {
    assert_eq!(parse(".1"), Ok(1000));
    assert_eq!(parse(".0001"), Ok(1));
}

#[test]
fn parse_mixed_value() {
    assert_eq!(parse("1.2345"), Ok(12345));
    assert_eq!(parse("12.3456"), Ok(123456));
}

#[test]
fn parse_maximum_value() {
    assert_eq!(parse("1844674407370955.1615"), Ok(u64::MAX));
}

#[test]
fn parse_too_large() {
    assert_eq!(parse("1844674407370955.1616"), Err(ParseFixedDecimalError::TooLarge));
    assert_eq!(parse("99999999999999999999"), Err(ParseFixedDecimalError::TooLarge));
}

#[test]
fn parse_too_many_fractional_digits() {
    assert_eq!(parse("1.00000"), Err(ParseFixedDecimalError::TooManyFractionalDigits));
}

#[test]
fn parse_no_digits() {
    assert_eq!(parse(""), Err(ParseFixedDecimalError::NoDigits));
    assert_eq!(parse("."), Err(ParseFixedDecimalError::NoDigits));
}

#[test]
fn parse_invalid_characters() {
    assert_eq!(parse("12abcd"), Err(ParseFixedDecimalError::InvalidChar(2)));
    assert_eq!(parse("12.0abcd"), Err(ParseFixedDecimalError::InvalidChar(4)));
    assert_eq!(parse("12.34.5"), Err(ParseFixedDecimalError::InvalidChar(5)));
    assert_eq!(parse("-1"), Err(ParseFixedDecimalError::InvalidChar(0)));
    assert_eq!(parse("+1"), Err(ParseFixedDecimalError::InvalidChar(0)));
    assert_eq!(parse("1 "), Err(ParseFixedDecimalError::InvalidChar(1)));
}

#[test]
fn format_pads_to_four_fractional_digits() {
    assert_eq!(UnsignedAssetCount::new(0).format(), "0.0000");
    assert_eq!(UnsignedAssetCount::new(1).format(), "0.0001");
    assert_eq!(UnsignedAssetCount::new(1000).format(), "0.1000");
    assert_eq!(UnsignedAssetCount::new(10000).format(), "1.0000");
    assert_eq!(UnsignedAssetCount::new(12345).format(), "1.2345");
    assert_eq!(UnsignedAssetCount::new(123456).format(), "12.3456");
    assert_eq!(UnsignedAssetCount::new(u64::MAX).format(), "1844674407370955.1615");
}

#[test]
fn format_bytes_matches_format() {
    let a = UnsignedAssetCount::new(54321);
    assert_eq!(a.format_bytes(), a.format().into_bytes());
}

#[test]
fn parse_format_round_trip() {
    for fractions in [0u64, 1, 9, 10, 9999, 10000, 10001, 123456789, u64::MAX] {
        let a = UnsignedAssetCount::new(fractions);
        let text = a.format();
        assert_eq!(UnsignedAssetCount::from_str(&text), Ok(a));
    }
}

#[test]
fn format_parse_round_trip_normalizes() {
    let a = UnsignedAssetCount::from_str("7.25").unwrap();
    assert_eq!(a.format(), "7.2500");
    assert_eq!(UnsignedAssetCount::from_str("7.2500").unwrap(), a);
}

#[test]
fn checked_add_works_and_detects_overflow() {
    let a = UnsignedAssetCount::new(10);
    let b = UnsignedAssetCount::new(32);
    assert_eq!(a.checked_add(b), Some(UnsignedAssetCount::new(42)));
    let max = UnsignedAssetCount::new(u64::MAX);
    assert_eq!(max.checked_add(UnsignedAssetCount::new(1)), None);
    assert_eq!(max.checked_add(UnsignedAssetCount::new(0)), Some(max));
}

#[test]
fn checked_sub_works_and_detects_underflow() {
    let a = UnsignedAssetCount::new(42);
    let b = UnsignedAssetCount::new(10);
    assert_eq!(a.checked_sub(b), Some(UnsignedAssetCount::new(32)));
    assert_eq!(b.checked_sub(a), None);
    assert_eq!(a.checked_sub(a), Some(UnsignedAssetCount::new(0)));
}

#[test]
fn default_is_zero() {
    assert_eq!(UnsignedAssetCount::default(), UnsignedAssetCount::new(0));
}

#[test]
fn parse_bytes_matches_from_str() {
    assert_eq!(
        UnsignedAssetCount::parse(b"3.5"),
        UnsignedAssetCount::from_str("3.5")
    );
}
