use product_service::Decimal;
use product_service::parse_decimal;
use product_service::render_decimal;

fn parse_str(s: &str) -> Option<Decimal> {
    parse_decimal(s.as_bytes())
}

fn render_str(d: &Decimal) -> String {
    String::from_utf8(render_decimal(d)).unwrap()
}

#[test]
fn parses_dotted_decimal_exactly() {
    assert_eq!(parse_str("19.99"), Some(Decimal { units: 1999, scale: 2 }));
    assert_eq!(parse_str("0.005"), Some(Decimal { units: 5, scale: 3 }));
    assert_eq!(parse_str("42"), Some(Decimal { units: 42, scale: 0 }));
    assert_eq!(parse_str("19.90"), Some(Decimal { units: 1990, scale: 2 }));
    assert_eq!(parse_str("007"), Some(Decimal { units: 7, scale: 0 }));
}

#[test]
fn rejects_malformed_decimals() {
    assert_eq!(parse_str(""), None);
    assert_eq!(parse_str("."), None);
    assert_eq!(parse_str(".5"), None);
    assert_eq!(parse_str("5."), None);
    assert_eq!(parse_str("1.2.3"), None);
    assert_eq!(parse_str("abc"), None);
    assert_eq!(parse_str("-1.5"), None);
    assert_eq!(parse_str("1,5"), None);
    // more fraction digits than the largest allowed scale
    assert_eq!(parse_str("1.0000000000001"), None);
    // unscaled value beyond u64
    assert_eq!(parse_str("99999999999999999999999"), None);
}

#[test]
fn renders_dotted_decimal_exactly() {
    assert_eq!(render_str(&Decimal { units: 1999, scale: 2 }), "19.99");
    assert_eq!(render_str(&Decimal { units: 5, scale: 3 }), "0.005");
    assert_eq!(render_str(&Decimal { units: 42, scale: 0 }), "42");
    assert_eq!(render_str(&Decimal { units: 1990, scale: 2 }), "19.90");
    assert_eq!(render_str(&Decimal { units: 0, scale: 0 }), "0");
    assert_eq!(render_str(&Decimal { units: 0, scale: 2 }), "0.00");
}

#[test]
fn price_round_trip_keeps_precision() {
    for s in ["19.99", "0.01", "123456789.123456", "42", "19.90", "0.000000000001"] {
        let d = parse_str(s).unwrap();
        assert_eq!(render_str(&d), s);
        assert_eq!(parse_str(&render_str(&d)), Some(d));
    }
}
