use rustsim::decimal::Decimal;
use rustsim::value::{parse_time_with_unit, parse_value_with_unit, ValueError};

fn number(d: Decimal) -> f64 {
    let sign = if d.negative { "-" } else { "" };
    format!("{}{}e{}", sign, d.mantissa, d.exponent).parse::<f64>().unwrap()
}

#[test]
fn test_parse_value_with_unit() {
    assert_eq!(number(parse_value_with_unit("1k").unwrap()), 1000.0);
    assert_eq!(number(parse_value_with_unit("1.5meg").unwrap()), 1.5e6);
    assert_eq!(number(parse_value_with_unit("10m").unwrap()), 10e-3);
    assert_eq!(number(parse_value_with_unit("1u").unwrap()), 1e-6);
}

#[test]
fn test_parse_time_with_unit() {
    assert_eq!(number(parse_time_with_unit("1ns").unwrap()), 1e-9);
    assert_eq!(number(parse_time_with_unit("1.5us").unwrap()), 1.5e-6);
    assert_eq!(number(parse_time_with_unit("10ms").unwrap()), 10e-3);
}

#[test]
fn value_exact_parts() {
    assert_eq!(
        parse_value_with_unit("1.5meg").unwrap(),
        Decimal { negative: false, mantissa: 15, exponent: 5 }
    );
    assert_eq!(
        parse_value_with_unit("-2.50e-3k").unwrap(),
        Decimal { negative: true, mantissa: 250, exponent: -2 }
    );
    assert_eq!(parse_value_with_unit("abc"), Err(ValueError::Malformed));
    assert_eq!(parse_value_with_unit("1x"), Err(ValueError::UnknownUnit));
    assert_eq!(parse_value_with_unit("1k5"), Err(ValueError::Malformed));
    assert_eq!(parse_value_with_unit("99999999999999999999"), Err(ValueError::OutOfRange));
}
