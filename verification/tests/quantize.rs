use rebalance::decimal::parse_milli;

#[test]
fn parses_plain_decimals() {
    assert_eq!(parse_milli("10.000"), Some(10_000));
    assert_eq!(parse_milli("0.000"), Some(0));
    assert_eq!(parse_milli("19.457"), Some(19_457));
    assert_eq!(parse_milli("0.001"), Some(1));
    assert_eq!(parse_milli("123456.789"), Some(123_456_789));
}

#[test]
fn parses_negative_decimals() {
    assert_eq!(parse_milli("-2.500"), Some(-2_500));
    assert_eq!(parse_milli("-0.001"), Some(-1));
    assert_eq!(parse_milli("-0.000"), Some(0));
}

#[test]
fn rejects_malformed_strings() {
    assert_eq!(parse_milli(""), None);
    assert_eq!(parse_milli("abc"), None);
    assert_eq!(parse_milli("10"), None);
    assert_eq!(parse_milli("1.5"), None);
    assert_eq!(parse_milli("1.23"), None);
    assert_eq!(parse_milli("1.2345"), None);
    assert_eq!(parse_milli(".500"), None);
    assert_eq!(parse_milli("-.500"), None);
    assert_eq!(parse_milli("1x.000"), None);
    assert_eq!(parse_milli("1.00x"), None);
    assert_eq!(parse_milli("NaN"), None);
    assert_eq!(parse_milli("inf"), None);
}

#[test]
fn boundary_of_i64() {
    assert_eq!(parse_milli("9223372036854775.807"), Some(i64::MAX));
    assert_eq!(parse_milli("9223372036854775.808"), None);
    assert_eq!(parse_milli("-9223372036854775.807"), Some(-i64::MAX));
    assert_eq!(parse_milli("99999999999999999999999999.000"), None);
}

#[test]
fn quantization_determinism() {
    // A price carrying more precision than three decimals quantizes to the
    // same thousandths as its three-decimal form.
    let fine = format!("{:.3}", 19.4567f64);
    let coarse = format!("{:.3}", 19.457f64);
    assert_eq!(parse_milli(&fine), parse_milli(&coarse));
    assert_eq!(parse_milli(&fine), Some(19_457));
}
