//! The parse-failure type: three kinds of rejection, each with a fixed
//! human-readable message.

use vstd::prelude::*;

verus! {

/// Why a token was rejected.
#[derive(Copy, Clone, Debug, PartialEq, Eq, Structural)]
pub enum TemperatureErrorKind {
    /// The numeric part of the token is not a number.
    NotNumeric,
    /// The token does not end in one of the six recognized scale pairs.
    ScaleUnknown,
    /// The token is empty once surrounding whitespace is removed.
    Inconvertible,
}

/// The error returned when a token cannot be read as a conversion request.
#[derive(Copy, Clone, Debug, PartialEq, Eq, Structural)]
pub struct ParseTemperatureError {
    pub kind: TemperatureErrorKind,
}

/// The fixed message that belongs to each kind of rejection.
pub open spec fn spec_description(k: TemperatureErrorKind) -> Seq<char> {
    match k {
        TemperatureErrorKind::NotNumeric => "not a numeric value"@,
        TemperatureErrorKind::ScaleUnknown => "scale unknown"@,
        TemperatureErrorKind::Inconvertible => "string is empty"@,
    }
}

impl ParseTemperatureError {
    /// The fixed human-readable message for this error.
    pub fn __description(&self) -> (r: &str)
        ensures
            r@ == spec_description(self.kind),
    {
        match self.kind {
            TemperatureErrorKind::NotNumeric => "not a numeric value",
            TemperatureErrorKind::ScaleUnknown => "scale unknown",
            TemperatureErrorKind::Inconvertible => "string is empty",
        }
    }
}

} // verus!
