//! The grammar of the numeric part of a token: the decimal literals that
//! Rust's standard floating-point parser documents. A literal is an optional
//! sign followed by `inf`, `infinity`, `nan` (case-insensitive) or a plain
//! number: digits with at most one point, then an optional exponent part
//! (`e` or `E`, an optional sign, and at least one digit).

use vstd::prelude::*;
use crate::chars::seq_upper;
use crate::chars::upper;
use crate::chars::upper_char;

verus! {

/// A decimal digit.
pub open spec fn is_digit(c: char) -> bool {
    '0' <= c && c <= '9'
}

/// A leading sign.
pub open spec fn is_sign(c: char) -> bool {
    c == '+' || c == '-'
}

/// The letter that opens an exponent part.
pub open spec fn is_exp_marker(c: char) -> bool {
    c == 'e' || c == 'E'
}

/// A nonempty run of decimal digits.
pub open spec fn is_digit_run(s: Seq<char>) -> bool {
    s.len() >= 1 && (forall|i: int| 0 <= i < s.len() ==> is_digit(s[i]))
}

/// The part before any exponent: digits and at most one point, with at
/// least one digit somewhere.
pub open spec fn is_mantissa(s: Seq<char>) -> bool {
    &&& forall|i: int| 0 <= i < s.len() ==> is_digit(s[i]) || s[i] == '.'
    &&& forall|i: int, j: int|
        0 <= i < j < s.len() && s[i] == '.' ==> s[j] != '.'
    &&& exists|i: int| 0 <= i < s.len() && is_digit(s[i])
}

/// What may follow the exponent letter: an optional sign, then digits.
pub open spec fn is_exp_tail(s: Seq<char>) -> bool {
    if s.len() > 0 && is_sign(s[0]) {
        is_digit_run(s.drop_first())
    } else {
        is_digit_run(s)
    }
}

/// The position of the first exponent letter, or the length when there is
/// none.
pub open spec fn exp_split(s: Seq<char>) -> int
    decreases s.len(),
{
    if s.len() == 0 {
        0
    } else if is_exp_marker(s[0]) {
        0
    } else {
        1 + exp_split(s.drop_first())
    }
}

/// A plain (unsigned, non-word) number: a mantissa, optionally followed by
/// an exponent letter and its tail.
pub open spec fn is_simple_number(s: Seq<char>) -> bool {
    let k = exp_split(s);
    if k == s.len() {
        is_mantissa(s)
    } else {
        is_mantissa(s.subrange(0, k)) && is_exp_tail(s.subrange(k + 1, s.len() as int))
    }
}

/// The text with a single leading sign removed, if one is there.
pub open spec fn strip_sign(s: Seq<char>) -> Seq<char> {
    if s.len() > 0 && is_sign(s[0]) {
        s.drop_first()
    } else {
        s
    }
}

/// A whole numeric literal, sign included.
pub open spec fn is_numeric_literal(s: Seq<char>) -> bool {
    let b = strip_sign(s);
    ||| seq_upper(b) == seq!['I', 'N', 'F']
    ||| seq_upper(b) == seq!['I', 'N', 'F', 'I', 'N', 'I', 'T', 'Y']
    ||| seq_upper(b) == seq!['N', 'A', 'N']
    ||| is_simple_number(b)
}

/// Where `exp_split` points: no exponent letter stands before it, and one
/// stands at it unless there is none at all.
proof fn lemma_exp_split_bounds(s: Seq<char>)
    ensures
        0 <= exp_split(s) <= s.len(),
        forall|i: int| 0 <= i < exp_split(s) ==> !is_exp_marker(s[i]),
        exp_split(s) < s.len() ==> is_exp_marker(s[exp_split(s)]),
    decreases s.len(),
{
    if s.len() == 0 {
    } else if is_exp_marker(s[0]) {
    } else {
        lemma_exp_split_bounds(s.drop_first());
        assert forall|i: int| 0 <= i < exp_split(s) implies !is_exp_marker(s[i]) by {
            if i > 0 {
                assert(s.drop_first()[i - 1] == s[i]);
            }
        }
        if exp_split(s) < s.len() {
            assert(s.drop_first()[exp_split(s) - 1] == s[exp_split(s)]);
        }
    }
}

/// `exp_split` is the one position with no exponent letter before it and,
/// unless it is the end, an exponent letter at it.
proof fn lemma_exp_split_at(s: Seq<char>, k: int)
    requires
        0 <= k <= s.len(),
        forall|i: int| 0 <= i < k ==> !is_exp_marker(s[i]),
        k < s.len() ==> is_exp_marker(s[k]),
    ensures
        exp_split(s) == k,
{
    lemma_exp_split_bounds(s);
    if exp_split(s) < k {
        assert(is_exp_marker(s[exp_split(s)]));
    } else if exp_split(s) > k {
        assert(!is_exp_marker(s[k]));
    }
}

/// The first position at or after `from` whose character is not a digit
/// (or `to` when digits reach that far).
pub(crate) fn scan_digits(v: &Vec<char>, from: usize, to: usize) -> (j: usize)
    requires
        from <= to <= v.len(),
    ensures
        from <= j <= to,
        forall|i: int| from <= i < j ==> is_digit(v@[i]),
        j < to ==> !is_digit(v@[j as int]),
{
    let mut j = from;
    while j < to && '0' <= v[j] && v[j] <= '9'
        invariant
            from <= j <= to <= v.len(),
            forall|i: int| from <= i < j ==> is_digit(v@[i]),
        decreases to - j,
    {
        j = j + 1;
    }
    j
}

/// Whether `v[from..to]` is empty or a whole exponent part: the exponent
/// letter, an optional sign, and at least one digit, with nothing after.
fn is_exp_part(v: &Vec<char>, from: usize, to: usize) -> (r: bool)
    requires
        from <= to <= v.len(),
    ensures
        r == ({
            let t = v@.subrange(from as int, to as int);
            t.len() == 0 || (is_exp_marker(t[0]) && is_exp_tail(t.subrange(1, t.len() as int)))
        }),
{
    let ghost t = v@.subrange(from as int, to as int);
    if from == to {
        return true;
    }
    if !(v[from] == 'e' || v[from] == 'E') {
        return false;
    }
    let mut q = from + 1;
    if q < to && (v[q] == '+' || v[q] == '-') {
        q = q + 1;
    }
    let ghost tail = t.subrange(1, t.len() as int);
    proof {
        assert(tail =~= v@.subrange(from + 1, to as int));
        if q == from + 2 {
            assert(tail.drop_first() =~= v@.subrange(q as int, to as int));
        }
        assert(v@.subrange(q as int, to as int) =~= (if q == from + 2 {
            tail.drop_first()
        } else {
            tail
        }));
    }
    let d = scan_digits(v, q, to);
    let r = q < to && d == to;
    proof {
        let rest = v@.subrange(q as int, to as int);
        if r {
            assert(is_digit_run(rest));
        } else {
            if q < to && d < to {
                assert(!is_digit(rest[d - q]));
                assert(!is_digit_run(rest));
            } else {
                assert(rest.len() == 0);
            }
        }
        assert(r == is_exp_tail(tail));
    }
    r
}

/// Whether `v[from..to]` is a plain number: a mantissa with an optional
/// exponent part.
pub(crate) fn is_simple_number_text(v: &Vec<char>, from: usize, to: usize) -> (r: bool)
    requires
        from <= to <= v.len(),
    ensures
        r == is_simple_number(v@.subrange(from as int, to as int)),
{
    let ghost b = v@.subrange(from as int, to as int);
    let d1 = scan_digits(v, from, to);
    let mut m_end = d1;
    let mut has_digit = d1 > from;
    let ghost mut dot: Option<int> = None;
    if d1 < to && v[d1] == '.' {
        let d2 = scan_digits(v, d1 + 1, to);
        if d2 > d1 + 1 {
            has_digit = true;
        }
        m_end = d2;
        proof {
            dot = Some(d1 as int);
        }
    }
    // Between `from` and `m_end` stand only digits and (at most) the one
    // point recorded in `dot`; at `m_end` stands no digit.
    proof {
        lemma_exp_split_bounds(b);
        assert forall|i: int| from <= i < m_end implies (is_digit(v@[i]) || (dot == Some(
            i,
        ) && v@[i] == '.')) by {}
        if exp_split(b) < m_end - from {
            assert(is_exp_marker(b[exp_split(b)]));
            assert(b[exp_split(b)] == v@[from + exp_split(b)]);
            assert(false);
        }
    }
    if !has_digit {
        proof {
            let k = exp_split(b);
            let km = m_end - from;
            // No digit stands in the mantissa `b[0..k]`: its characters are
            // the leading point (if any) and whatever stopped the scans.
            if k > km {
                assert(b.subrange(0, k)[km] == b[km]);
                assert(b[km] == v@[m_end as int]);
                assert(!is_digit(b[km]));
                if b[km] == '.' {
                    assert(dot == Some(from as int) && km == 1);
                    assert(b.subrange(0, k)[0] == b[0]);
                    assert(b[0] == '.');
                    assert(!is_mantissa(b.subrange(0, k)));
                } else {
                    assert(!is_mantissa(b.subrange(0, k)));
                }
            } else {
                assert forall|i: int| 0 <= i < k implies !is_digit(b.subrange(0, k)[i]) by {
                    assert(b.subrange(0, k)[i] == b[i]);
                }
                assert(!is_mantissa(b.subrange(0, k)));
            }
        }
        return false;
    }
    let r = is_exp_part(v, m_end, to);
    proof {
        let km = m_end - from;
        let k = exp_split(b);
        let m = b.subrange(0, km);
        // The mantissa scanned out is well formed.
        assert(is_mantissa(m)) by {
            assert forall|i: int| 0 <= i < m.len() implies is_digit(m[i]) || m[i] == '.' by {
                assert(m[i] == v@[from + i]);
            }
            assert forall|i: int, j: int|
                0 <= i < j < m.len() && m[i] == '.' implies m[j] != '.' by {
                assert(m[i] == v@[from + i] && m[j] == v@[from + j]);
            }
            if d1 > from {
                assert(is_digit(b[0]));
                assert(m[0] == b[0]);
            } else {
                assert(dot == Some(d1 as int) && m_end > d1 + 1);
                assert(is_digit(v@[d1 + 1]));
                assert(m[d1 + 1 - from] == v@[d1 + 1]);
            }
        }
        if m_end == to {
            lemma_exp_split_at(b, km);
            assert(m =~= b);
            assert(r == is_simple_number(b));
        } else if is_exp_marker(v@[m_end as int]) {
            lemma_exp_split_at(b, km);
            let t = v@.subrange(m_end as int, to as int);
            assert(t[0] == v@[m_end as int]);
            assert(t.subrange(1, t.len() as int) =~= b.subrange(km + 1, b.len() as int));
            assert(r == is_simple_number(b));
        } else {
            // The scan stopped on a character that opens no exponent part:
            // it would have to stand in the mantissa, where it is illegal.
            assert(!r);
            assert(k > km);
            let c = b[km];
            if c == '.' {
                let d = dot.unwrap();
                assert(b[d - from] == '.');
                assert(!is_mantissa(b.subrange(0, k))) by {
                    assert(b.subrange(0, k)[d - from] == '.');
                    assert(b.subrange(0, k)[km] == '.');
                }
            } else {
                assert(!is_digit(c));
                assert(!is_mantissa(b.subrange(0, k))) by {
                    assert(b.subrange(0, k)[km] == c);
                }
            }
            assert(!is_simple_number(b));
        }
    }
    r
}

/// A run of digits is one whether uppercased or not.
proof fn lemma_digit_run_upper(s: Seq<char>)
    ensures
        is_digit_run(seq_upper(s)) == is_digit_run(s),
{
    let su = seq_upper(s);
    if is_digit_run(s) {
        assert forall|i: int| 0 <= i < su.len() implies is_digit(su[i]) by {
            assert(su[i] == upper(s[i]));
        }
    }
    if is_digit_run(su) {
        assert forall|i: int| 0 <= i < s.len() implies is_digit(s[i]) by {
            assert(su[i] == upper(s[i]));
        }
    }
}

/// A mantissa is one whether uppercased or not.
proof fn lemma_mantissa_upper(s: Seq<char>)
    ensures
        is_mantissa(seq_upper(s)) == is_mantissa(s),
{
    let su = seq_upper(s);
    if is_mantissa(s) {
        assert forall|i: int| 0 <= i < su.len() implies is_digit(su[i]) || su[i] == '.' by {
            assert(su[i] == upper(s[i]));
        }
        assert forall|i: int, j: int|
            0 <= i < j < su.len() && su[i] == '.' implies su[j] != '.' by {
            assert(su[i] == upper(s[i]));
            assert(su[j] == upper(s[j]));
        }
        let w = choose|i: int| 0 <= i < s.len() && is_digit(s[i]);
        assert(is_digit(su[w]));
        assert(is_mantissa(su));
    }
    if is_mantissa(su) {
        assert forall|i: int| 0 <= i < s.len() implies is_digit(s[i]) || s[i] == '.' by {
            assert(su[i] == upper(s[i]));
        }
        assert forall|i: int, j: int|
            0 <= i < j < s.len() && s[i] == '.' implies s[j] != '.' by {
            assert(su[i] == upper(s[i]));
            assert(su[j] == upper(s[j]));
        }
        let w = choose|i: int| 0 <= i < su.len() && is_digit(su[i]);
        assert(is_digit(s[w]));
        assert(is_mantissa(s));
    }
}

/// An exponent tail is one whether uppercased or not.
proof fn lemma_exp_tail_upper(s: Seq<char>)
    ensures
        is_exp_tail(seq_upper(s)) == is_exp_tail(s),
{
    lemma_digit_run_upper(s);
    if s.len() > 0 {
        assert(seq_upper(s)[0] == upper(s[0]));
        assert(seq_upper(s).drop_first() =~= seq_upper(s.drop_first()));
        lemma_digit_run_upper(s.drop_first());
    }
}

/// The exponent letter is found at the same place whether uppercased or
/// not.
proof fn lemma_exp_split_upper(s: Seq<char>)
    ensures
        exp_split(seq_upper(s)) == exp_split(s),
{
    lemma_exp_split_bounds(s);
    let k = exp_split(s);
    let su = seq_upper(s);
    assert forall|i: int| 0 <= i < k implies !is_exp_marker(su[i]) by {
        assert(su[i] == upper(s[i]));
    }
    if k < s.len() {
        assert(su[k] == upper(s[k]));
    }
    lemma_exp_split_at(su, k);
}

/// A plain number is one whether uppercased or not.
proof fn lemma_simple_number_upper(s: Seq<char>)
    ensures
        is_simple_number(seq_upper(s)) == is_simple_number(s),
{
    lemma_exp_split_upper(s);
    lemma_exp_split_bounds(s);
    let k = exp_split(s);
    let su = seq_upper(s);
    if k == s.len() {
        lemma_mantissa_upper(s);
    } else {
        assert(su.subrange(0, k) =~= seq_upper(s.subrange(0, k)));
        assert(su.subrange(k + 1, su.len() as int) =~= seq_upper(
            s.subrange(k + 1, s.len() as int),
        ));
        lemma_mantissa_upper(s.subrange(0, k));
        lemma_exp_tail_upper(s.subrange(k + 1, s.len() as int));
    }
}

/// A numeric literal is one whether uppercased or not: the grammar is
/// case-insensitive.
pub proof fn lemma_numeric_literal_upper(s: Seq<char>)
    ensures
        is_numeric_literal(seq_upper(s)) == is_numeric_literal(s),
{
    let b = strip_sign(s);
    let bu = strip_sign(seq_upper(s));
    if s.len() > 0 {
        assert(seq_upper(s)[0] == upper(s[0]));
    }
    if s.len() > 0 && is_sign(s[0]) {
        assert(bu =~= seq_upper(b));
    } else {
        assert(bu =~= seq_upper(b));
    }
    crate::chars::lemma_seq_upper_idempotent(b);
    lemma_simple_number_upper(b);
}

/// Whether `v[from..to]` is a whole numeric literal, sign and the words
/// `inf`, `infinity` and `nan` included.
pub(crate) fn is_numeric_text(v: &Vec<char>, from: usize, to: usize) -> (r: bool)
    requires
        from <= to <= v.len(),
    ensures
        r == is_numeric_literal(v@.subrange(from as int, to as int)),
{
    let ghost s = v@.subrange(from as int, to as int);
    let mut i = from;
    if from < to && (v[from] == '+' || v[from] == '-') {
        i = from + 1;
    }
    let ghost b = v@.subrange(i as int, to as int);
    proof {
        assert(b =~= strip_sign(s));
    }
    let n = to - i;
    if n == 3 {
        let c0 = upper_char(v[i]);
        let c1 = upper_char(v[i + 1]);
        let c2 = upper_char(v[i + 2]);
        proof {
            assert(seq_upper(b) =~= seq![c0, c1, c2]);
        }
        if c0 == 'I' && c1 == 'N' && c2 == 'F' {
            return true;
        }
        if c0 == 'N' && c1 == 'A' && c2 == 'N' {
            return true;
        }
        proof {
            assert(seq_upper(b) != seq!['I', 'N', 'F']);
            assert(seq_upper(b) != seq!['N', 'A', 'N']);
        }
    }
    if n == 8 {
        let c0 = upper_char(v[i]);
        let c1 = upper_char(v[i + 1]);
        let c2 = upper_char(v[i + 2]);
        let c3 = upper_char(v[i + 3]);
        let c4 = upper_char(v[i + 4]);
        let c5 = upper_char(v[i + 5]);
        let c6 = upper_char(v[i + 6]);
        let c7 = upper_char(v[i + 7]);
        proof {
            assert(seq_upper(b) =~= seq![c0, c1, c2, c3, c4, c5, c6, c7]);
        }
        if c0 == 'I' && c1 == 'N' && c2 == 'F' && c3 == 'I' && c4 == 'N' && c5 == 'I' && c6 == 'T'
            && c7 == 'Y' {
            return true;
        }
        proof {
            assert(seq_upper(b) != seq!['I', 'N', 'F', 'I', 'N', 'I', 'T', 'Y']);
        }
    }
    proof {
        assert(seq_upper(b).len() == b.len());
    }
    is_simple_number_text(v, i, to)
}

} // verus!
