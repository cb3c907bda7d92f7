use data_scraper::number::{parse_numeral, Decimal};
use data_scraper::unit::parse_unit;

fn chars(s: &str) -> Vec<char> {
    s.chars().collect()
}

fn value(d: Decimal) -> f64 {
    d.mantissa as f64 / 10f64.powi(d.scale as i32)
}

#[test]
fn parse_unit_weight() {
    let (amount, unit) = parse_unit("300kg");
    assert_eq!(amount, Decimal { mantissa: 300, scale: 0 });
    assert_eq!(unit, "kg");
}

#[test]
fn parse_unit_grams() {
    let (amount, unit) = parse_unit("36g");
    assert_eq!(value(amount), 36.0);
    assert_eq!(unit, "g");
}

#[test]
fn parse_unit_per_kg_defaults_to_one() {
    let (amount, unit) = parse_unit("per kg");
    assert_eq!(value(amount), 1.0);
    assert_eq!(unit, "kg");
}

#[test]
fn parse_unit_fraction_and_space() {
    let (amount, unit) = parse_unit("1.5 L");
    assert_eq!(amount, Decimal { mantissa: 15, scale: 1 });
    assert_eq!(unit, "L");
}

#[test]
fn parse_unit_without_unit() {
    let (amount, unit) = parse_unit("250");
    assert_eq!(value(amount), 250.0);
    assert_eq!(unit, "");
}

#[test]
fn parse_unit_empty_text() {
    let (amount, unit) = parse_unit("");
    assert_eq!(value(amount), 1.0);
    assert_eq!(unit, "");
}

#[test]
fn parse_unit_removes_every_occurrence() {
    // every "kg" is taken out, leaving "5"
    let (amount, unit) = parse_unit("kg5kg");
    assert_eq!(value(amount), 5.0);
    assert_eq!(unit, "kg");
}

#[test]
fn parse_unit_pack() {
    let (amount, unit) = parse_unit("3pack");
    assert_eq!(value(amount), 3.0);
    assert_eq!(unit, "pack");
}

#[test]
fn numeral_forms() {
    assert_eq!(parse_numeral(&chars("42")), Some(Decimal { mantissa: 42, scale: 0 }));
    assert_eq!(parse_numeral(&chars("-0.25")), Some(Decimal { mantissa: -25, scale: 2 }));
    assert_eq!(parse_numeral(&chars("+7.")), Some(Decimal { mantissa: 7, scale: 0 }));
    assert_eq!(parse_numeral(&chars(".5")), Some(Decimal { mantissa: 5, scale: 1 }));
    assert_eq!(parse_numeral(&chars("999999999")), Some(Decimal { mantissa: 999_999_999, scale: 0 }));
}

#[test]
fn numeral_refusals() {
    assert_eq!(parse_numeral(&chars("")), None);
    assert_eq!(parse_numeral(&chars(".")), None);
    assert_eq!(parse_numeral(&chars("-")), None);
    assert_eq!(parse_numeral(&chars("1.2.3")), None);
    assert_eq!(parse_numeral(&chars("per")), None);
    assert_eq!(parse_numeral(&chars("1000000000")), None);
    assert_eq!(parse_numeral(&chars("0.0000000001")), None);
}

#[test]
fn decimal_predicates() {
    assert!(Decimal { mantissa: 100, scale: 2 }.is_one());
    assert!(!Decimal { mantissa: 10, scale: 2 }.is_one());
    assert!(Decimal { mantissa: 0, scale: 3 }.is_zero());
    assert_eq!(Decimal { mantissa: 27, scale: 1 }.trunc(), 2);
    assert_eq!(Decimal { mantissa: -27, scale: 1 }.trunc(), -2);
}

#[test]
fn parse_unit_unbounded_amounts_read_as_one() {
    for text in ["1e3g", "1000000000g", "0.0000000001g"] {
        let (amount, unit) = parse_unit(text);
        assert_eq!(value(amount), 1.0);
        assert_eq!(unit, "g");
    }
}
