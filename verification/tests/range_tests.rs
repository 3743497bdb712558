use randno::range::{InvalidRange, RangeInt};

#[test]
fn parse_accepts_bounds_of_the_domain() {
    assert_eq!(RangeInt::parse("1").unwrap().get(), 1);
    assert_eq!(RangeInt::parse("255").unwrap().get(), 255);
    assert_eq!(RangeInt::parse("200").unwrap().get(), 200);
}

#[test]
fn parse_accepts_standard_parser_tolerances() {
    assert_eq!(RangeInt::parse("+5").unwrap().get(), 5);
    assert_eq!(RangeInt::parse("007").unwrap().get(), 7);
    assert_eq!(RangeInt::parse("+0042").unwrap().get(), 42);
}

#[test]
fn parse_rejects_invalid_texts() {
    assert_eq!(RangeInt::parse("0"), Err(InvalidRange));
    assert_eq!(RangeInt::parse(""), Err(InvalidRange));
    assert_eq!(RangeInt::parse("256"), Err(InvalidRange));
    assert_eq!(RangeInt::parse("-1"), Err(InvalidRange));
    assert_eq!(RangeInt::parse("abc"), Err(InvalidRange));
}

#[test]
fn parse_rejects_more_edge_texts() {
    assert_eq!(RangeInt::parse("+"), Err(InvalidRange));
    assert_eq!(RangeInt::parse(" 5"), Err(InvalidRange));
    assert_eq!(RangeInt::parse("5 "), Err(InvalidRange));
    assert_eq!(RangeInt::parse("00"), Err(InvalidRange));
    assert_eq!(RangeInt::parse("999999999999999999999"), Err(InvalidRange));
    assert_eq!(RangeInt::parse("1_0"), Err(InvalidRange));
    assert_eq!(RangeInt::parse("++1"), Err(InvalidRange));
}

#[test]
fn format_renders_canonical_decimal() {
    assert_eq!(RangeInt::new(1).to_string(), "1");
    assert_eq!(RangeInt::new(9).to_string(), "9");
    assert_eq!(RangeInt::new(10).to_string(), "10");
    assert_eq!(RangeInt::new(200).to_string(), "200");
    assert_eq!(RangeInt::new(255).to_string(), "255");
}

#[test]
fn parse_then_format_normalizes() {
    assert_eq!(RangeInt::parse("007").unwrap().to_string(), "7");
    assert_eq!(RangeInt::parse("+42").unwrap().to_string(), "42");
    assert_eq!(RangeInt::parse("255").unwrap().to_string(), "255");
    assert_eq!(RangeInt::parse("1").unwrap().to_string(), "1");
}

#[test]
fn equality_is_numeric() {
    assert_eq!(RangeInt::parse("5").unwrap(), RangeInt::new(5));
    assert_ne!(RangeInt::new(5), RangeInt::new(6));
}
