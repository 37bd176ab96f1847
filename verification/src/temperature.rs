//! A validated conversion request, and the parser that reads one from a raw
//! token.
//!
//! A token is, after trimming, a numeric part followed by a two-letter scale
//! pair such as `FC` (Fahrenheit, shown in Celsius). The scale letters are
//! case-insensitive, and the two scales must differ.

use vstd::prelude::*;
use vstd::string::*;
use crate::chars::is_space_char;
use crate::chars::lemma_trim_upper;
use crate::chars::lemma_upper_idempotent;
use crate::chars::seq_upper;
use crate::chars::spec_trim;
use crate::chars::trim_end;
use crate::chars::trim_start;
use crate::chars::upper;
use crate::chars::upper_char;
use crate::error::ParseTemperatureError;
use crate::error::TemperatureErrorKind;
use crate::numeric::is_numeric_literal;
use crate::numeric::is_numeric_text;
use crate::numeric::lemma_numeric_literal_upper;
use crate::scale::spec_scale_of_code;
use crate::scale::scale_of_code;
use crate::scale::Scale;

verus! {

/// The source and target scales named by the last two (not yet uppercased)
/// letters of a token, when they name two distinct scales.
pub open spec fn spec_scale_pair(a: char, b: char) -> Option<(Scale, Scale)> {
    match (spec_scale_of_code(upper(a)), spec_scale_of_code(upper(b))) {
        (Some(x), Some(y)) => if x != y {
            Some((x, y))
        } else {
            None
        },
        _ => None,
    }
}

/// What parsing a raw token yields: the text of its numeric part with the
/// two scales, or the kind of rejection.
///
/// A trimmed token of a single character is rejected alone by whether that
/// character is numeric; anything longer is split before its last two
/// characters, whatever they are.
pub open spec fn spec_parse(s: Seq<char>) -> Result<(Seq<char>, Scale, Scale), TemperatureErrorKind> {
    let t = spec_trim(s);
    if t.len() == 0 {
        Err(TemperatureErrorKind::Inconvertible)
    } else if t.len() == 1 {
        if is_numeric_literal(t) {
            Err(TemperatureErrorKind::ScaleUnknown)
        } else {
            Err(TemperatureErrorKind::NotNumeric)
        }
    } else {
        match spec_scale_pair(t[t.len() - 2], t[t.len() - 1]) {
            None => Err(TemperatureErrorKind::ScaleUnknown),
            Some((from, to)) => {
                let prefix = t.subrange(0, t.len() - 2);
                if is_numeric_literal(prefix) {
                    Ok((prefix, from, to))
                } else {
                    Err(TemperatureErrorKind::NotNumeric)
                }
            },
        }
    }
}

/// Parsing is case-insensitive: a token and its uppercased form meet the
/// same outcome — the same rejection, or the same pair of scales — and the
/// accepted value text is simply uppercased with the token.
pub proof fn lemma_parse_case_insensitive(s: Seq<char>)
    ensures
        ({
            let original = spec_parse(s);
            let uppercased = spec_parse(seq_upper(s));
            match (original, uppercased) {
                (Ok((v1, f1, t1)), Ok((v2, f2, t2))) => v2 == seq_upper(v1) && f2 == f1 && t2
                    == t1,
                (Err(e1), Err(e2)) => e2 == e1,
                _ => false,
            }
        }),
{
    lemma_trim_upper(s);
    let t = spec_trim(s);
    let tu = spec_trim(seq_upper(s));
    if t.len() == 0 {
    } else if t.len() == 1 {
        lemma_numeric_literal_upper(t);
    } else {
        assert(tu[tu.len() - 2] == upper(t[t.len() - 2]));
        assert(tu[tu.len() - 1] == upper(t[t.len() - 1]));
        lemma_upper_idempotent(t[t.len() - 2]);
        lemma_upper_idempotent(t[t.len() - 1]);
        assert(tu.subrange(0, tu.len() - 2) =~= seq_upper(t.subrange(0, t.len() - 2)));
        lemma_numeric_literal_upper(t.subrange(0, t.len() - 2));
    }
}

/// A conversion request: a numeric value, kept as the text it was written
/// as, a source scale, and a distinct target scale.
#[derive(Clone, Debug, PartialEq)]
pub struct Temperature {
    /// The numeric part of the token, as written (a valid numeric literal).
    pub value: String,
    /// The scale the value is given in.
    pub scale: Scale,
    /// The scale the value is to be shown in.
    pub convert_to: Scale,
}

impl Temperature {
    /// What every parsed request satisfies: the value text is a numeric
    /// literal, and the two scales differ.
    pub open spec fn wf(&self) -> bool {
        &&& is_numeric_literal(self.value@)
        &&& self.scale != self.convert_to
    }

    /// Reads one raw token: trims it, splits off the two scale letters, and
    /// validates the numeric part.
    pub fn from_str(token: &str) -> (r: Result<Temperature, ParseTemperatureError>)
        ensures
            match r {
                Ok(t) => spec_parse(token@) == Ok::<_, TemperatureErrorKind>(
                    (t.value@, t.scale, t.convert_to),
                ) && t.wf(),
                Err(e) => spec_parse(token@) == Err::<(Seq<char>, Scale, Scale), _>(e.kind),
            },
    {
        let n = token.unicode_len();
        let mut v: Vec<char> = Vec::new();
        let mut idx: usize = 0;
        while idx < n
            invariant
                idx <= n,
                n == token@.len(),
                v@ == token@.subrange(0, idx as int),
            decreases n - idx,
        {
            v.push(token.get_char(idx));
            idx = idx + 1;
            proof {
                assert(v@ =~= token@.subrange(0, idx as int));
            }
        }
        proof {
            assert(v@ =~= token@);
        }
        // Trim whitespace from the front ...
        let mut a: usize = 0;
        while a < n && is_space_char(v[a])
            invariant
                a <= n,
                n == v@.len(),
                trim_start(v@) == trim_start(v@.subrange(a as int, n as int)),
            decreases n - a,
        {
            proof {
                let t = v@.subrange(a as int, n as int);
                assert(t[0] == v@[a as int]);
                assert(t.drop_first() =~= v@.subrange(a + 1, n as int));
            }
            a = a + 1;
        }
        proof {
            let t = v@.subrange(a as int, n as int);
            if a < n {
                assert(t[0] == v@[a as int]);
            }
            assert(trim_start(t) == t);
        }
        // ... and from the back.
        let mut b: usize = n;
        while b > a && is_space_char(v[b - 1])
            invariant
                a <= b <= n,
                n == v@.len(),
                trim_start(v@) == v@.subrange(a as int, n as int),
                trim_end(v@.subrange(a as int, n as int)) == trim_end(
                    v@.subrange(a as int, b as int),
                ),
            decreases b,
        {
            proof {
                let t = v@.subrange(a as int, b as int);
                assert(t[t.len() - 1] == v@[b - 1]);
                assert(t.drop_last() =~= v@.subrange(a as int, b - 1));
            }
            b = b - 1;
        }
        proof {
            let t = v@.subrange(a as int, b as int);
            if b > a {
                assert(t[t.len() - 1] == v@[b - 1]);
            }
            assert(trim_end(t) == t);
            assert(spec_trim(token@) == v@.subrange(a as int, b as int));
        }
        let ghost t = spec_trim(token@);
        if b == a {
            return Err(ParseTemperatureError { kind: TemperatureErrorKind::Inconvertible });
        }
        if b - a == 1 {
            return if is_numeric_text(&v, a, b) {
                Err(ParseTemperatureError { kind: TemperatureErrorKind::ScaleUnknown })
            } else {
                Err(ParseTemperatureError { kind: TemperatureErrorKind::NotNumeric })
            };
        }
        let split = b - 2;
        proof {
            assert(t[t.len() - 2] == v@[split as int]);
            assert(t[t.len() - 1] == v@[split + 1]);
        }
        let s1 = scale_of_code(upper_char(v[split]));
        let s2 = scale_of_code(upper_char(v[split + 1]));
        match (s1, s2) {
            (Some(from), Some(to)) => {
                if from.code() == to.code() {
                    return Err(ParseTemperatureError { kind: TemperatureErrorKind::ScaleUnknown });
                }
                proof {
                    assert(t.subrange(0, t.len() - 2) =~= v@.subrange(a as int, split as int));
                }
                if is_numeric_text(&v, a, split) {
                    let prefix = token.substring_char(a, split);
                    Ok(Temperature { value: String::from_str(prefix), scale: from, convert_to: to })
                } else {
                    Err(ParseTemperatureError { kind: TemperatureErrorKind::NotNumeric })
                }
            },
            _ => Err(ParseTemperatureError { kind: TemperatureErrorKind::ScaleUnknown }),
        }
    }
}

} // verus!
