use tempconv::display::format_line;
use tempconv::error::ParseTemperatureError;
use tempconv::error::TemperatureErrorKind;
use tempconv::scale::Scale;

#[test]
fn format_line_fahrenheit_to_celsius() {
    let line = format_line("32", Scale::Fahrenheit, "0", Scale::Celsius);
    assert_eq!(line, "32F => 0C");
}

#[test]
fn format_line_celsius_to_kelvin() {
    let line = format_line("36", Scale::Celsius, "309.15", Scale::Kelvin);
    assert_eq!(line, "36C => 309.15K");
}

#[test]
fn scale_codes() {
    assert_eq!(Scale::Celsius.code(), 'C');
    assert_eq!(Scale::Fahrenheit.code(), 'F');
    assert_eq!(Scale::Kelvin.code(), 'K');
    assert_eq!(Scale::Celsius.code_text(), "C");
    assert_eq!(Scale::Fahrenheit.code_text(), "F");
    assert_eq!(Scale::Kelvin.code_text(), "K");
}

#[test]
fn error_descriptions() {
    let not_numeric = ParseTemperatureError { kind: TemperatureErrorKind::NotNumeric };
    let scale_unknown = ParseTemperatureError { kind: TemperatureErrorKind::ScaleUnknown };
    let inconvertible = ParseTemperatureError { kind: TemperatureErrorKind::Inconvertible };
    assert_eq!(not_numeric.__description(), "not a numeric value");
    assert_eq!(scale_unknown.__description(), "scale unknown");
    assert_eq!(inconvertible.__description(), "string is empty");
}
