//! Temperature conversion library.
//!
//! Parses request tokens of the form `<number><source><target>` (for example
//! `32FC`: thirty-two degrees Fahrenheit, to be shown in Celsius), where the
//! two trailing letters name distinct scales among Celsius, Fahrenheit and
//! Kelvin, and converts values between those scales with exact rational
//! arithmetic.

pub mod chars;
pub mod convert;
pub mod display;
pub mod error;
pub mod numeric;
pub mod scale;
pub mod temperature;
