use tempconv::error::TemperatureErrorKind;
use tempconv::scale::Scale;
use tempconv::temperature::Temperature;

#[test]
fn parse_fahrenheit_to_celsius() {
    let t = Temperature::from_str("32FC").unwrap();
    assert_eq!(t.value, "32");
    assert_eq!(t.scale, Scale::Fahrenheit);
    assert_eq!(t.convert_to, Scale::Celsius);
}

#[test]
fn parse_trimmed_token() {
    let t = Temperature::from_str(" 45FK ").unwrap();
    assert_eq!(t.value, "45");
    assert_eq!(t.scale, Scale::Fahrenheit);
    assert_eq!(t.convert_to, Scale::Kelvin);
}

#[test]
fn parse_celsius_to_kelvin() {
    let t = Temperature::from_str("36CK").unwrap();
    assert_eq!(t.value, "36");
    assert_eq!(t.scale, Scale::Celsius);
    assert_eq!(t.convert_to, Scale::Kelvin);
}

#[test]
fn parse_celsius_to_fahrenheit() {
    let t = Temperature::from_str("32CF").unwrap();
    assert_eq!(t.value, "32");
    assert_eq!(t.scale, Scale::Celsius);
    assert_eq!(t.convert_to, Scale::Fahrenheit);
}

#[test]
fn parse_empty_token() {
    let e = Temperature::from_str("").unwrap_err();
    assert_eq!(e.kind, TemperatureErrorKind::Inconvertible);
}

#[test]
fn parse_whitespace_only_token() {
    let e = Temperature::from_str(" \t\n ").unwrap_err();
    assert_eq!(e.kind, TemperatureErrorKind::Inconvertible);
}

#[test]
fn parse_bare_number() {
    let e = Temperature::from_str("5").unwrap_err();
    assert_eq!(e.kind, TemperatureErrorKind::ScaleUnknown);
}

#[test]
fn parse_single_letter() {
    let e = Temperature::from_str("X").unwrap_err();
    assert_eq!(e.kind, TemperatureErrorKind::NotNumeric);
}

#[test]
fn parse_same_scale_suffix() {
    let e = Temperature::from_str("10CC").unwrap_err();
    assert_eq!(e.kind, TemperatureErrorKind::ScaleUnknown);
}

#[test]
fn parse_unknown_suffix() {
    let e = Temperature::from_str("32CX").unwrap_err();
    assert_eq!(e.kind, TemperatureErrorKind::ScaleUnknown);
}

#[test]
fn parse_non_numeric_prefix() {
    let e = Temperature::from_str("abFC").unwrap_err();
    assert_eq!(e.kind, TemperatureErrorKind::NotNumeric);
}

#[test]
fn parse_lowercase_like_uppercase() {
    let lower = Temperature::from_str("32fc").unwrap();
    let upper = Temperature::from_str("32FC").unwrap();
    assert_eq!(lower.value, upper.value);
    assert_eq!(lower.scale, upper.scale);
    assert_eq!(lower.convert_to, upper.convert_to);
}

#[test]
fn parse_mixed_case_suffix() {
    let t = Temperature::from_str("20kF").unwrap();
    assert_eq!(t.value, "20");
    assert_eq!(t.scale, Scale::Kelvin);
    assert_eq!(t.convert_to, Scale::Fahrenheit);
}

#[test]
fn parse_two_letter_token() {
    // Too short for a value, yet long enough to be split: the empty numeric
    // part is what fails.
    let e = Temperature::from_str("CF").unwrap_err();
    assert_eq!(e.kind, TemperatureErrorKind::NotNumeric);
}

#[test]
fn parse_scientific_notation() {
    let t = Temperature::from_str("1e5FC").unwrap();
    assert_eq!(t.value, "1e5");
    assert_eq!(t.scale, Scale::Fahrenheit);
    assert_eq!(t.convert_to, Scale::Celsius);
}

#[test]
fn parse_signed_fraction_with_exponent() {
    let t = Temperature::from_str("+3.5e-2cf").unwrap();
    assert_eq!(t.value, "+3.5e-2");
    assert_eq!(t.scale, Scale::Celsius);
    assert_eq!(t.convert_to, Scale::Fahrenheit);
}

#[test]
fn parse_infinity_word() {
    let t = Temperature::from_str("-infFC").unwrap();
    assert_eq!(t.value, "-inf");
    assert_eq!(t.scale, Scale::Fahrenheit);
    assert_eq!(t.convert_to, Scale::Celsius);
}

#[test]
fn parse_nan_word() {
    let t = Temperature::from_str("nanKC").unwrap();
    assert_eq!(t.value, "nan");
    assert_eq!(t.scale, Scale::Kelvin);
    assert_eq!(t.convert_to, Scale::Celsius);
}

#[test]
fn parse_leading_dot_value() {
    let t = Temperature::from_str(".5CK").unwrap();
    assert_eq!(t.value, ".5");
}

#[test]
fn parse_trailing_dot_value() {
    let t = Temperature::from_str("5.CF").unwrap();
    assert_eq!(t.value, "5.");
}

#[test]
fn parse_double_dot_rejected() {
    let e = Temperature::from_str("1..5CF").unwrap_err();
    assert_eq!(e.kind, TemperatureErrorKind::NotNumeric);
}

#[test]
fn parse_lone_dot_rejected() {
    let e = Temperature::from_str(".CF").unwrap_err();
    assert_eq!(e.kind, TemperatureErrorKind::NotNumeric);
}

#[test]
fn parse_sign_only_rejected() {
    let e = Temperature::from_str("-").unwrap_err();
    assert_eq!(e.kind, TemperatureErrorKind::NotNumeric);
}

#[test]
fn parse_empty_exponent_rejected() {
    let e = Temperature::from_str("1eCF").unwrap_err();
    assert_eq!(e.kind, TemperatureErrorKind::NotNumeric);
}

#[test]
fn parsed_value_feeds_standard_parser() {
    // The accepted value text is exactly what the standard parser takes.
    let t = Temperature::from_str("+3.5e-2cf").unwrap();
    let v: f64 = t.value.parse().unwrap();
    assert!((v - 0.035).abs() < 1e-12);
}
