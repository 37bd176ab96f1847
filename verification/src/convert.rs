//! Conversion between the three scales, over exact rational arithmetic.
//!
//! The formulas are the usual ones, with the Kelvin offset 273.15 kept as
//! the fraction 5463/20:
//! Celsius to Fahrenheit `v * 9/5 + 32`, Celsius to Kelvin `v + 5463/20`,
//! Fahrenheit to Celsius `(v - 32) * 5/9`, and their compositions and
//! inverses. A value is a fraction of two integers; no rounding happens, so
//! converting there and back returns exactly the value it started from.

use vstd::prelude::*;
use crate::scale::Scale;

verus! {

/// Whether the fractions `an / ad` and `bn / bd` name the same number.
pub open spec fn rat_eq(an: int, ad: int, bn: int, bd: int) -> bool {
    an * bd == bn * ad
}

/// The converted value, as an unreduced fraction: `(n, d)` read in the
/// `from` scale becomes `convert_spec(from, to, n, d)` in the `to` scale.
/// A same-scale pair, which the parser never produces, is left unchanged.
pub open spec fn convert_spec(from: Scale, to: Scale, n: int, d: int) -> (int, int) {
    match (from, to) {
        (Scale::Celsius, Scale::Fahrenheit) => (9 * n + 160 * d, 5 * d),
        (Scale::Celsius, Scale::Kelvin) => (20 * n + 5463 * d, 20 * d),
        (Scale::Fahrenheit, Scale::Celsius) => (5 * n - 160 * d, 9 * d),
        (Scale::Fahrenheit, Scale::Kelvin) => (100 * n + 45967 * d, 180 * d),
        (Scale::Kelvin, Scale::Celsius) => (20 * n - 5463 * d, 20 * d),
        (Scale::Kelvin, Scale::Fahrenheit) => (180 * n - 45967 * d, 100 * d),
        _ => (n, d),
    }
}

/// A fraction scaled by a common nonzero factor names the same number.
proof fn lemma_scaled_eq(c: int, n: int, d: int)
    requires
        c != 0,
        d != 0,
    ensures
        rat_eq(c * n, c * d, n, d),
        c * d != 0,
{
    assert((c * n) * d == n * (c * d)) by (nonlinear_arith);
    assert(c * d != 0) by (nonlinear_arith)
        requires
            c != 0,
            d != 0,
    ;
}

/// Converting a value from one scale to another and back returns the value
/// it started from, exactly.
pub proof fn lemma_convert_round_trip(from: Scale, to: Scale, n: int, d: int)
    requires
        from != to,
        d != 0,
    ensures
        ({
            let (n1, d1) = convert_spec(from, to, n, d);
            let (n2, d2) = convert_spec(to, from, n1, d1);
            rat_eq(n2, d2, n, d) && d2 != 0
        }),
{
    let (n1, d1) = convert_spec(from, to, n, d);
    let (n2, d2) = convert_spec(to, from, n1, d1);
    match (from, to) {
        (Scale::Celsius, Scale::Fahrenheit) => {
            assert(n2 == 45 * n && d2 == 45 * d);
            lemma_scaled_eq(45, n, d);
        },
        (Scale::Fahrenheit, Scale::Celsius) => {
            assert(n2 == 45 * n && d2 == 45 * d);
            lemma_scaled_eq(45, n, d);
        },
        (Scale::Celsius, Scale::Kelvin) => {
            assert(n2 == 400 * n && d2 == 400 * d);
            lemma_scaled_eq(400, n, d);
        },
        (Scale::Kelvin, Scale::Celsius) => {
            assert(n2 == 400 * n && d2 == 400 * d);
            lemma_scaled_eq(400, n, d);
        },
        (Scale::Fahrenheit, Scale::Kelvin) => {
            assert(n2 == 18000 * n && d2 == 18000 * d);
            lemma_scaled_eq(18000, n, d);
        },
        (Scale::Kelvin, Scale::Fahrenheit) => {
            assert(n2 == 18000 * n && d2 == 18000 * d);
            lemma_scaled_eq(18000, n, d);
        },
        _ => {},
    }
}

/// An exact temperature value: the fraction `num / den`, with `den`
/// positive.
#[derive(Copy, Clone, Debug, PartialEq, Eq, Structural)]
pub struct Rational {
    pub num: i128,
    pub den: i128,
}

impl Rational {
    /// A usable value keeps its denominator positive.
    pub open spec fn wf(&self) -> bool {
        0 < self.den
    }

    /// The value read in the `from` scale, converted to the `to` scale.
    ///
    /// The bounds keep every intermediate product inside the field type;
    /// they admit any value a parsed token of reasonable size yields.
    pub fn convert(&self, from: Scale, to: Scale) -> (r: Rational)
        requires
            self.wf(),
            -0x1000000000000000000000000 <= self.num <= 0x1000000000000000000000000,
            self.den <= 0x1000000000000000000000000,
        ensures
            r.wf(),
            ({
                let (rn, rd) = convert_spec(from, to, self.num as int, self.den as int);
                r.num == rn && r.den == rd
            }),
    {
        match (from, to) {
            (Scale::Celsius, Scale::Fahrenheit) => Rational {
                num: 9 * self.num + 160 * self.den,
                den: 5 * self.den,
            },
            (Scale::Celsius, Scale::Kelvin) => Rational {
                num: 20 * self.num + 5463 * self.den,
                den: 20 * self.den,
            },
            (Scale::Fahrenheit, Scale::Celsius) => Rational {
                num: 5 * self.num - 160 * self.den,
                den: 9 * self.den,
            },
            (Scale::Fahrenheit, Scale::Kelvin) => Rational {
                num: 100 * self.num + 45967 * self.den,
                den: 180 * self.den,
            },
            (Scale::Kelvin, Scale::Celsius) => Rational {
                num: 20 * self.num - 5463 * self.den,
                den: 20 * self.den,
            },
            (Scale::Kelvin, Scale::Fahrenheit) => Rational {
                num: 180 * self.num - 45967 * self.den,
                den: 100 * self.den,
            },
            _ => Rational { num: self.num, den: self.den },
        }
    }
}

} // verus!
