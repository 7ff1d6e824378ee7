use xml_orbtk::values::{
    parse_bool, parse_decimal, parse_policy, AttrTy, AttrValue, Decimal, SizePolicy, TypeConverter,
};

fn dec(neg: bool, mantissa: u64, scale: u32) -> Decimal {
    Decimal { neg, mantissa, scale }
}

#[test]
fn decimal_integer() {
    assert_eq!(parse_decimal("200"), Some(dec(false, 200, 0)));
    assert_eq!(parse_decimal("0"), Some(dec(false, 0, 0)));
    assert_eq!(parse_decimal("007"), Some(dec(false, 7, 0)));
}

#[test]
fn decimal_fraction() {
    assert_eq!(parse_decimal("1.5"), Some(dec(false, 15, 1)));
    assert_eq!(parse_decimal("-3.25"), Some(dec(true, 325, 2)));
    assert_eq!(parse_decimal("0.75"), Some(dec(false, 75, 2)));
}

#[test]
fn decimal_negative() {
    assert_eq!(parse_decimal("-42"), Some(dec(true, 42, 0)));
}

#[test]
fn decimal_rejects_malformed() {
    assert_eq!(parse_decimal(""), None);
    assert_eq!(parse_decimal("abc"), None);
    assert_eq!(parse_decimal("-"), None);
    assert_eq!(parse_decimal("1."), None);
    assert_eq!(parse_decimal(".5"), None);
    assert_eq!(parse_decimal("1.2.3"), None);
    assert_eq!(parse_decimal("1e5"), None);
    assert_eq!(parse_decimal(" 1"), None);
    assert_eq!(parse_decimal("1 "), None);
}

#[test]
fn decimal_digit_budget() {
    assert_eq!(
        parse_decimal("999999999999999999"),
        Some(dec(false, 999_999_999_999_999_999, 0))
    );
    assert_eq!(parse_decimal("9999999999999999999"), None);
    assert_eq!(parse_decimal("123456789.123456789"), Some(dec(false, 123_456_789_123_456_789, 9)));
    assert_eq!(parse_decimal("1234567890.123456789"), None);
}

#[test]
fn bool_literals_only() {
    assert_eq!(parse_bool("true"), Some(true));
    assert_eq!(parse_bool("false"), Some(false));
    assert_eq!(parse_bool("TRUE"), None);
    assert_eq!(parse_bool("1"), None);
    assert_eq!(parse_bool(""), None);
}

#[test]
fn policy_auto_star_fixed() {
    assert_eq!(parse_policy("auto"), Some(SizePolicy::Auto));
    assert_eq!(parse_policy("star"), Some(SizePolicy::Star));
    assert_eq!(parse_policy("24"), Some(SizePolicy::Fixed(dec(false, 24, 0))));
    assert_eq!(parse_policy("12.5"), Some(SizePolicy::Fixed(dec(false, 125, 1))));
    assert_eq!(parse_policy("wide"), None);
}

#[test]
fn converter_decimal_output() {
    let c = TypeConverter::new("200", AttrTy::Dec);
    assert_eq!(c.get_output(), Some(AttrValue::Dec(dec(false, 200, 0))));
}

#[test]
fn converter_text_is_verbatim() {
    let c = TypeConverter::new("Hello  <World>", AttrTy::Text);
    assert_eq!(c.get_output(), Some(AttrValue::Text("Hello  <World>".to_string())));
}

#[test]
fn converter_rejects_bad_flag() {
    let c = TypeConverter::new("yes", AttrTy::Flag);
    assert_eq!(c.get_output(), None);
}

#[test]
fn converter_policy_star() {
    let c = TypeConverter::new("star", AttrTy::Policy);
    assert_eq!(c.get_output(), Some(AttrValue::Policy(SizePolicy::Star)));
}
