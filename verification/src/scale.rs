//! The three temperature scales and their single-letter codes.

use vstd::prelude::*;

verus! {

/// A temperature scale, identified by a single uppercase letter code:
/// `C` for Celsius, `F` for Fahrenheit, `K` for Kelvin.
#[derive(Copy, Clone, Debug, PartialEq, Eq, Structural)]
pub enum Scale {
    Celsius,
    Fahrenheit,
    Kelvin,
}

/// The canonical one-letter code of a scale.
pub open spec fn spec_code(s: Scale) -> char {
    match s {
        Scale::Celsius => 'C',
        Scale::Fahrenheit => 'F',
        Scale::Kelvin => 'K',
    }
}

/// The scale named by an (already uppercased) code letter, if any.
pub open spec fn spec_scale_of_code(c: char) -> Option<Scale> {
    if c == 'C' {
        Some(Scale::Celsius)
    } else if c == 'F' {
        Some(Scale::Fahrenheit)
    } else if c == 'K' {
        Some(Scale::Kelvin)
    } else {
        None
    }
}

impl Scale {
    /// The canonical one-letter code of this scale.
    pub fn code(self) -> (c: char)
        ensures
            c == spec_code(self),
    {
        match self {
            Scale::Celsius => 'C',
            Scale::Fahrenheit => 'F',
            Scale::Kelvin => 'K',
        }
    }

    /// The canonical code of this scale, as a one-character string.
    pub fn code_text(self) -> (r: &'static str)
        ensures
            r@ == seq![spec_code(self)],
    {
        proof {
            reveal_strlit("C");
            reveal_strlit("F");
            reveal_strlit("K");
        }
        let r = match self {
            Scale::Celsius => "C",
            Scale::Fahrenheit => "F",
            Scale::Kelvin => "K",
        };
        proof {
            assert(r@ =~= seq![spec_code(self)]);
        }
        r
    }
}

/// The scale named by an uppercased code letter, if any.
pub(crate) fn scale_of_code(c: char) -> (r: Option<Scale>)
    ensures
        r == spec_scale_of_code(c),
{
    if c == 'C' {
        Some(Scale::Celsius)
    } else if c == 'F' {
        Some(Scale::Fahrenheit)
    } else if c == 'K' {
        Some(Scale::Kelvin)
    } else {
        None
    }
}

} // verus!
