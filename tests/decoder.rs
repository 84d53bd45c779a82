use entsoe::instant::{parse_instant, sample_instant};
use entsoe::lexical::parse_u32;
use entsoe::{
    decode_events, parse_day_ahead_prices, Decimal, EntsoeError, RequiredField, Resolution,
    XmlEvent,
};

// 2024-01-15T00:00:00Z and 2024-01-16T00:00:00Z
const JAN_15: i64 = 1_705_276_800;
const JAN_16: i64 = 1_705_363_200;

const FIXTURE: &str = r#"<?xml version="1.0" encoding="utf-8"?>
<Publication_MarketDocument xmlns="urn:iec62325.351:tc57wg16:451-3:publicationdocument:7:3">
  <mRID>abc</mRID>
  <type>A44</type>
  <TimeSeries>
    <mRID>1</mRID>
    <currency_Unit.name>EUR</currency_Unit.name>
    <price_Measure_Unit.name>MWH</price_Measure_Unit.name>
    <Period>
      <timeInterval>
        <start>2024-01-15T00:00Z</start>
        <end>2024-01-16T00:00Z</end>
      </timeInterval>
      <resolution>PT15M</resolution>
      <Point>
        <position>1</position>
        <price.amount>45.67</price.amount>
      </Point>
      <Point>
        <position>2</position>
        <price.amount>44.10</price.amount>
      </Point>
      <Point>
        <position>5</position>
        <price.amount>-1.5</price.amount>
      </Point>
    </Period>
  </TimeSeries>
</Publication_MarketDocument>
"#;

fn dec(mantissa: i64, scale: u32) -> Decimal {
    Decimal { mantissa, scale }
}

#[test]
fn test_parse_day_ahead_prices_fixture() {
    let result = parse_day_ahead_prices(FIXTURE.as_bytes());
    assert!(result.is_ok(), "Parse failed: {:?}", result.as_ref().err());
    let doc = result.unwrap();

    assert_eq!(doc.currency, "EUR");
    assert_eq!(doc.resolution, Resolution::PT15M);
    assert!(!doc.prices.is_empty());

    let first_price = &doc.prices[0];
    assert!(first_price.price.mantissa > 0);
}

#[test]
fn test_parse_empty_xml() {
    let xml = b"<?xml version=\"1.0\"?><root></root>";
    let result = parse_day_ahead_prices(xml);
    assert!(result.is_err());
}

#[test]
fn fixture_samples_are_placed_and_ordered() {
    let doc = parse_day_ahead_prices(FIXTURE.as_bytes()).unwrap();
    assert_eq!(doc.period_start, JAN_15);
    assert_eq!(doc.period_end, JAN_16);
    let got: Vec<(i64, Decimal)> = doc.prices.iter().map(|p| (p.timestamp, p.price)).collect();
    assert_eq!(
        got,
        vec![
            (JAN_15, dec(4567, 2)),
            (JAN_15 + 900, dec(4410, 2)),
            (JAN_15 + 3600, dec(-15, 1)),
        ]
    );
}

#[test]
fn fifth_quarter_hour_is_one_hour_after_anchor() {
    assert_eq!(sample_instant(JAN_15, 5, Resolution::PT15M), Some(JAN_15 + 3600));
    assert_eq!(sample_instant(JAN_15, 5, Resolution::PT60M), Some(JAN_15 + 4 * 3600));
    assert_eq!(sample_instant(JAN_15, 0, Resolution::PT15M), Some(JAN_15 - 900));
    assert_eq!(sample_instant(i64::MAX, 2, Resolution::PT15M), None);
}

#[test]
fn root_only_document_misses_currency() {
    let r = parse_day_ahead_prices(b"<root></root>");
    assert_eq!(r.unwrap_err(), EntsoeError::MissingField(RequiredField::Currency));
}

#[test]
fn truncated_document_is_a_syntax_error() {
    let cut = &FIXTURE.as_bytes()[..200];
    let cut = [cut, b"<currency_Unit.na".as_slice()].concat();
    match parse_day_ahead_prices(&cut) {
        Err(EntsoeError::SyntaxError(msg)) => assert!(!msg.is_empty()),
        other => panic!("expected a syntax error, got {:?}", other),
    }
}

#[test]
fn mismatched_tags_are_a_syntax_error() {
    let r = parse_day_ahead_prices(b"<a><b></a></b>");
    assert!(matches!(r, Err(EntsoeError::SyntaxError(_))));
}

#[test]
fn garbled_bytes_never_panic() {
    let inputs: Vec<&[u8]> = vec![b"", b"<", b"<<>>", b"\xff\xfe<a>", b"</x>", b"<a b=>"];
    for input in inputs {
        assert!(parse_day_ahead_prices(input).is_err());
    }
}

fn start(n: &str) -> XmlEvent {
    XmlEvent::Start(n.to_string())
}

fn end(n: &str) -> XmlEvent {
    XmlEvent::End(n.to_string())
}

fn text(t: &str) -> XmlEvent {
    XmlEvent::Text(t.as_bytes().to_vec())
}

fn leaf(name: &str, value: &str) -> Vec<XmlEvent> {
    vec![start(name), text(value), end(name)]
}

fn period(start_at: &str, end_at: &str, res: &str, points: &[(&str, &str)]) -> Vec<XmlEvent> {
    let mut v = vec![start("Period"), start("timeInterval")];
    v.extend(leaf("start", start_at));
    v.extend(leaf("end", end_at));
    v.push(end("timeInterval"));
    v.extend(leaf("resolution", res));
    for (pos, price) in points {
        v.push(start("Point"));
        v.extend(leaf("position", pos));
        v.extend(leaf("price.amount", price));
        v.push(end("Point"));
    }
    v.push(end("Period"));
    v
}

fn series(currency: Option<&str>, periods: Vec<Vec<XmlEvent>>) -> Vec<XmlEvent> {
    let mut v = vec![start("TimeSeries")];
    if let Some(c) = currency {
        v.extend(leaf("currency_Unit.name", c));
    }
    for p in periods {
        v.extend(p);
    }
    v.push(end("TimeSeries"));
    v
}

#[test]
fn revisions_out_of_order_are_sorted_first_wins() {
    let mut evs = series(
        Some("EUR"),
        vec![period("2024-01-15T01:00Z", "2024-01-15T02:00Z", "PT60M", &[("1", "20"), ("2", "99")])],
    );
    evs.extend(series(
        Some("SEK"),
        vec![period("2024-01-15T00:00Z", "2024-01-15T02:00Z", "PT15M", &[("1", "10"), ("2", "11")])],
    ));
    let doc = decode_events(&evs).unwrap();
    assert_eq!(doc.currency, "EUR");
    assert_eq!(doc.resolution, Resolution::PT60M);
    assert_eq!(doc.period_start, JAN_15);
    assert_eq!(doc.period_end, JAN_15 + 7200);
    let got: Vec<(i64, Decimal)> = doc.prices.iter().map(|p| (p.timestamp, p.price)).collect();
    assert_eq!(
        got,
        vec![(JAN_15, dec(10, 0)), (JAN_15 + 3600, dec(20, 0)), (JAN_15 + 7200, dec(99, 0))]
    );
}

#[test]
fn incomplete_points_are_dropped() {
    let evs = series(
        Some("EUR"),
        vec![period(
            "2024-01-15T00:00Z",
            "2024-01-16T00:00Z",
            "PT60M",
            &[("x", "1"), ("2", "abc"), ("3", "7.25"), ("-1", "2")],
        )],
    );
    let doc = decode_events(&evs).unwrap();
    assert_eq!(doc.prices.len(), 1);
    assert_eq!(doc.prices[0].timestamp, JAN_15 + 2 * 3600);
    assert_eq!(doc.prices[0].price, dec(725, 2));
}

#[test]
fn each_missing_field_is_named() {
    let p = period("2024-01-15T00:00Z", "2024-01-16T00:00Z", "PT15M", &[("1", "1")]);
    assert_eq!(
        decode_events(&series(None, vec![p.clone()])).unwrap_err(),
        EntsoeError::MissingField(RequiredField::Currency)
    );
    let no_res = period("2024-01-15T00:00Z", "2024-01-16T00:00Z", "PT30M", &[("1", "1")]);
    assert_eq!(
        decode_events(&series(Some("EUR"), vec![no_res])).unwrap_err(),
        EntsoeError::MissingField(RequiredField::Resolution)
    );
    let no_start = period("yesterday", "2024-01-16T00:00Z", "PT15M", &[("1", "1")]);
    assert_eq!(
        decode_events(&series(Some("EUR"), vec![no_start])).unwrap_err(),
        EntsoeError::MissingField(RequiredField::PeriodStart)
    );
    let no_end = period("2024-01-15T00:00Z", "tomorrow", "PT15M", &[("1", "1")]);
    assert_eq!(
        decode_events(&series(Some("EUR"), vec![no_end])).unwrap_err(),
        EntsoeError::MissingField(RequiredField::PeriodEnd)
    );
    assert_eq!(RequiredField::Currency.name(), "currency_Unit.name");
}

#[test]
fn no_points_is_an_empty_result() {
    let p = period("2024-01-15T00:00Z", "2024-01-16T00:00Z", "PT15M", &[]);
    assert_eq!(decode_events(&series(Some("EUR"), vec![p])).unwrap_err(), EntsoeError::EmptyResult);
}

#[test]
fn text_that_is_not_utf8_is_a_syntax_error() {
    let mut evs = series(Some("EUR"), vec![]);
    evs.insert(1, XmlEvent::Text(vec![0xff, 0x41]));
    assert!(matches!(decode_events(&evs), Err(EntsoeError::SyntaxError(_))));
}

#[test]
fn currency_outside_a_series_is_ignored() {
    let mut evs = leaf("currency_Unit.name", "USD");
    evs.extend(series(
        Some("EUR"),
        vec![period("2024-01-15T00:00Z", "2024-01-16T00:00Z", "PT15M", &[("1", "1")])],
    ));
    assert_eq!(decode_events(&evs).unwrap().currency, "EUR");
}

#[test]
fn instants_get_their_seconds_filled_in() {
    assert_eq!(parse_instant(b"2024-01-15T00:00Z"), Some(JAN_15));
    assert_eq!(parse_instant(b"2024-01-15T00:00:00Z"), Some(JAN_15));
    assert_eq!(parse_instant(b"2024-01-15T02:00:00+02:00"), Some(JAN_15));
    assert_eq!(parse_instant(b"2024-01-15"), None);
    assert_eq!(parse_instant(b"garbage"), None);
}

#[test]
fn positions_read_as_u32() {
    assert_eq!(parse_u32(b"42"), Some(42));
    assert_eq!(parse_u32(b"+7"), Some(7));
    assert_eq!(parse_u32(b"4294967295"), Some(u32::MAX));
    assert_eq!(parse_u32(b"4294967296"), None);
    assert_eq!(parse_u32(b"-1"), None);
    assert_eq!(parse_u32(b"+"), None);
    assert_eq!(parse_u32(b""), None);
    assert_eq!(parse_u32(b"1 2"), None);
}

#[test]
fn syntax_errors_dominate_missing_fields() {
    let cut: &[u8] = b"<TimeSeries><currency_Unit.name>EUR</currency_Unit.name><Peri";
    assert!(matches!(parse_day_ahead_prices(cut), Err(EntsoeError::SyntaxError(_))));
    let mismatched: &[u8] = b"<TimeSeries></Period>";
    assert!(matches!(parse_day_ahead_prices(mismatched), Err(EntsoeError::SyntaxError(_))));
}

#[test]
fn prices_in_exponent_form_are_kept() {
    let evs = series(
        Some("EUR"),
        vec![period("2024-01-15T00:00Z", "2024-01-16T00:00Z", "PT60M", &[("1", "4.5e1"), ("2", ".5")])],
    );
    let doc = decode_events(&evs).unwrap();
    let got: Vec<Decimal> = doc.prices.iter().map(|p| p.price).collect();
    assert_eq!(got, vec![dec(45, 0), dec(5, 1)]);
}

#[test]
fn test_invalid_time_range() {
    let start = JAN_16;
    let end = JAN_15;
    let result = entsoe::check_time_range(start, end);
    assert!(result.is_err());
    match result {
        Err(EntsoeError::InvalidTimeRange(_)) => {}
        _ => panic!("Expected InvalidTimeRange error"),
    }
    assert_eq!(entsoe::check_time_range(JAN_15, JAN_16), Ok(()));
    assert!(entsoe::check_time_range(JAN_15, JAN_15).is_err());
}
