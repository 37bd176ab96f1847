use tempconv::convert::Rational;
use tempconv::scale::Scale;

fn as_float(r: Rational) -> f64 {
    r.num as f64 / r.den as f64
}

#[test]
fn convert_thirty_two_fahrenheit_is_zero_celsius() {
    let r = Rational { num: 32, den: 1 }.convert(Scale::Fahrenheit, Scale::Celsius);
    assert_eq!(r.num, 0);
    assert_eq!(r.den, 9);
    assert_eq!(as_float(r), 0.0);
}

#[test]
fn convert_forty_five_fahrenheit_to_kelvin() {
    let r = Rational { num: 45, den: 1 }.convert(Scale::Fahrenheit, Scale::Kelvin);
    assert_eq!(r.num, 50467);
    assert_eq!(r.den, 180);
    let expected = (45.0 - 32.0) * 5.0 / 9.0 + 273.15;
    assert!((as_float(r) - expected).abs() < 1e-9);
}

#[test]
fn convert_thirty_six_celsius_to_kelvin() {
    let r = Rational { num: 36, den: 1 }.convert(Scale::Celsius, Scale::Kelvin);
    assert_eq!(r.num, 6183);
    assert_eq!(r.den, 20);
    assert!((as_float(r) - 309.15).abs() < 1e-9);
}

#[test]
fn convert_thirty_two_celsius_to_fahrenheit() {
    let r = Rational { num: 32, den: 1 }.convert(Scale::Celsius, Scale::Fahrenheit);
    assert_eq!(r.num, 448);
    assert_eq!(r.den, 5);
    assert!((as_float(r) - 89.6).abs() < 1e-9);
}

#[test]
fn convert_three_hundred_kelvin_to_celsius() {
    let r = Rational { num: 300, den: 1 }.convert(Scale::Kelvin, Scale::Celsius);
    assert_eq!(r.num, 537);
    assert_eq!(r.den, 20);
    assert!((as_float(r) - 26.85).abs() < 1e-9);
}

#[test]
fn convert_three_hundred_kelvin_to_fahrenheit() {
    let r = Rational { num: 300, den: 1 }.convert(Scale::Kelvin, Scale::Fahrenheit);
    assert_eq!(r.num, 8033);
    assert_eq!(r.den, 100);
    assert!((as_float(r) - 80.33).abs() < 1e-9);
}

#[test]
fn convert_fractional_value() {
    // 37.5 degrees Celsius, written as 75/2.
    let r = Rational { num: 75, den: 2 }.convert(Scale::Celsius, Scale::Fahrenheit);
    assert!((as_float(r) - 99.5).abs() < 1e-9);
}

#[test]
fn round_trip_is_exact_for_all_six_pairs() {
    let pairs = [
        (Scale::Celsius, Scale::Fahrenheit),
        (Scale::Celsius, Scale::Kelvin),
        (Scale::Fahrenheit, Scale::Celsius),
        (Scale::Fahrenheit, Scale::Kelvin),
        (Scale::Kelvin, Scale::Celsius),
        (Scale::Kelvin, Scale::Fahrenheit),
    ];
    let v = Rational { num: 731, den: 4 };
    for (from, to) in pairs {
        let there = v.convert(from, to);
        let back = there.convert(to, from);
        // The fractions name exactly the same number.
        assert_eq!(back.num * v.den, v.num * back.den);
        assert!((as_float(back) - as_float(v)).abs() < 1e-9);
    }
}

#[test]
fn same_scale_pair_left_unchanged() {
    let v = Rational { num: 7, den: 3 };
    let r = v.convert(Scale::Celsius, Scale::Celsius);
    assert_eq!(r.num, 7);
    assert_eq!(r.den, 3);
}
