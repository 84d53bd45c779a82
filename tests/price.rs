use entsoe::price::collate;
use entsoe::validate::{is_strictly_increasing, is_valid_area_code, is_valid_currency};
use entsoe::{Decimal, PricePoint, Resolution};

#[test]
fn test_resolution_parse() {
    assert_eq!(Resolution::parse("PT15M"), Some(Resolution::PT15M));
    assert_eq!(Resolution::parse("PT60M"), Some(Resolution::PT60M));
    assert_eq!(Resolution::parse("INVALID"), None);
}

#[test]
fn test_resolution_minutes() {
    assert_eq!(Resolution::PT15M.minutes(), 15);
    assert_eq!(Resolution::PT60M.minutes(), 60);
}

fn dec(mantissa: i64, scale: u32) -> Decimal {
    Decimal { mantissa, scale }
}

#[test]
fn test_price_per_kwh() {
    let price_point = PricePoint { timestamp: 1_705_276_800, price: dec(500, 1) };
    let kwh = price_point.price_per_kwh();
    let value = rust_decimal::Decimal::new(kwh.mantissa, kwh.scale);
    assert_eq!(value, rust_decimal::Decimal::new(5, 2));
}

#[test]
fn decimal_parse_keeps_written_digits() {
    assert_eq!(Decimal::parse(b"45.60"), Some(dec(4560, 2)));
    assert_eq!(Decimal::parse(b"-3.5"), Some(dec(-35, 1)));
    assert_eq!(Decimal::parse(b"+7"), Some(dec(7, 0)));
    assert_eq!(Decimal::parse(b"12."), Some(dec(12, 0)));
    assert_eq!(Decimal::parse(b"0.0000000000000000000000000001"), Some(dec(1, 28)));
}

#[test]
fn decimal_parse_refuses_other_text() {
    assert_eq!(Decimal::parse(b""), None);
    assert_eq!(Decimal::parse(b"-"), None);
    assert_eq!(Decimal::parse(b"1.2.3"), None);
    assert_eq!(Decimal::parse(b"12a"), None);
    assert_eq!(Decimal::parse(b"0.00000000000000000000000000001"), None);
    assert_eq!(Decimal::parse(b"9223372036854775808"), None);
    assert_eq!(Decimal::parse(b"9223372036854775807"), Some(dec(i64::MAX, 0)));
}

#[test]
fn decimal_parse_reads_leading_points_and_exponents() {
    assert_eq!(Decimal::parse(b".5"), Some(dec(5, 1)));
    assert_eq!(Decimal::parse(b"+.5"), Some(dec(5, 1)));
    assert_eq!(Decimal::parse(b"4.5e1"), Some(dec(45, 0)));
    assert_eq!(Decimal::parse(b"1E-3"), Some(dec(1, 3)));
    assert_eq!(Decimal::parse(b"2.5e-2"), Some(dec(25, 3)));
    assert_eq!(Decimal::parse(b"-1.5e+2"), Some(dec(-150, 0)));
    assert_eq!(Decimal::parse(b"1e5"), Some(dec(100_000, 0)));
    assert_eq!(Decimal::parse(b"9.2e18"), Some(dec(9_200_000_000_000_000_000, 0)));
    assert_eq!(Decimal::parse(b"9.3e18"), None);
    assert_eq!(Decimal::parse(b"0e99999999999999999999999"), Some(dec(0, 0)));
    assert_eq!(Decimal::parse(b"1e99999999999999999999999"), None);
    assert_eq!(Decimal::parse(b"1e-99999999999999999999999"), None);
    assert_eq!(Decimal::parse(b"1e-28"), Some(dec(1, 28)));
    assert_eq!(Decimal::parse(b"1e-29"), None);
}

#[test]
fn decimal_parse_refuses_broken_numbers() {
    assert_eq!(Decimal::parse(b"."), None);
    assert_eq!(Decimal::parse(b"1e"), None);
    assert_eq!(Decimal::parse(b"e5"), None);
    assert_eq!(Decimal::parse(b"1e+"), None);
    assert_eq!(Decimal::parse(b"1e2.5"), None);
    assert_eq!(Decimal::parse(b"1.5e2e3"), None);
    assert_eq!(Decimal::parse(b"inf"), None);
}

#[test]
fn collate_sorts_and_keeps_first_of_each_time() {
    let samples = vec![
        PricePoint { timestamp: 300, price: dec(3, 0) },
        PricePoint { timestamp: 100, price: dec(1, 0) },
        PricePoint { timestamp: 300, price: dec(9, 0) },
        PricePoint { timestamp: 200, price: dec(2, 0) },
    ];
    let out = collate(&samples);
    assert_eq!(
        out,
        vec![
            PricePoint { timestamp: 100, price: dec(1, 0) },
            PricePoint { timestamp: 200, price: dec(2, 0) },
            PricePoint { timestamp: 300, price: dec(3, 0) },
        ]
    );
    assert!(collate(&Vec::new()).is_empty());
}

#[test]
fn currency_validator() {
    assert!(is_valid_currency("EUR"));
    assert!(!is_valid_currency("eur"));
    assert!(!is_valid_currency("EURO"));
    assert!(!is_valid_currency("E1R"));
    assert!(!is_valid_currency(""));
}

#[test]
fn area_code_validator() {
    assert!(is_valid_area_code("FI"));
    assert!(is_valid_area_code("IT-North"));
    assert!(!is_valid_area_code("F"));
    assert!(!is_valid_area_code("IT-North1"));
}

#[test]
fn strictly_increasing_validator() {
    let p = |t: i64| PricePoint { timestamp: t, price: dec(0, 0) };
    assert!(is_strictly_increasing(&[]));
    assert!(is_strictly_increasing(&[p(1)]));
    assert!(is_strictly_increasing(&[p(1), p(2), p(5)]));
    assert!(!is_strictly_increasing(&[p(1), p(1)]));
    assert!(!is_strictly_increasing(&[p(2), p(1), p(3)]));
}

#[test]
fn decimal_to_scale_is_exact() {
    assert_eq!(dec(4567, 5).to_scale(5), Some(4567));
    assert_eq!(dec(5, 2).to_scale(5), Some(5000));
    assert_eq!(dec(-35, 1).to_scale(3), Some(-3500));
    assert_eq!(dec(1, 6).to_scale(5), None);
    assert_eq!(dec(i64::MAX, 0).to_scale(1), None);
    assert_eq!(dec(0, 0).to_scale(30), Some(0));
    assert_eq!(dec(1, 0).to_scale(19), None);
}
