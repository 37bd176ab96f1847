//! Character classes used by the token grammar: whitespace (the set trimmed
//! from the ends of a token) and ASCII uppercasing (scale letters are
//! case-insensitive).

use vstd::prelude::*;

verus! {

/// Whitespace, as the Unicode `White_Space` property defines it: the
/// characters stripped from the ends of a token before it is read.
pub open spec fn is_space(c: char) -> bool {
    ||| c == ' '
    ||| ('\u{9}' <= c && c <= '\u{D}')
    ||| c == '\u{85}'
    ||| c == '\u{A0}'
    ||| c == '\u{1680}'
    ||| ('\u{2000}' <= c && c <= '\u{200A}')
    ||| c == '\u{2028}'
    ||| c == '\u{2029}'
    ||| c == '\u{202F}'
    ||| c == '\u{205F}'
    ||| c == '\u{3000}'
}

/// Runtime test for [`is_space`].
pub(crate) fn is_space_char(c: char) -> (r: bool)
    ensures
        r == is_space(c),
{
    c == ' ' || ('\u{9}' <= c && c <= '\u{D}') || c == '\u{85}' || c == '\u{A0}'
        || c == '\u{1680}' || ('\u{2000}' <= c && c <= '\u{200A}') || c == '\u{2028}'
        || c == '\u{2029}' || c == '\u{202F}' || c == '\u{205F}' || c == '\u{3000}'
}

/// ASCII uppercasing of a single character; everything but `a`..`z` is kept.
pub open spec fn upper(c: char) -> char {
    if 'a' <= c && c <= 'z' {
        (c as u8 - 32) as char
    } else {
        c
    }
}

/// A whole text, uppercased character by character.
pub open spec fn seq_upper(s: Seq<char>) -> Seq<char> {
    s.map_values(|c: char| upper(c))
}

/// Runtime ASCII uppercasing, matching [`upper`].
pub(crate) fn upper_char(c: char) -> (r: char)
    ensures
        r == upper(c),
{
    if 'a' <= c && c <= 'z' {
        (c as u8 - 32) as char
    } else {
        c
    }
}

/// The text with its leading whitespace removed.
pub open spec fn trim_start(s: Seq<char>) -> Seq<char>
    decreases s.len(),
{
    if s.len() > 0 && is_space(s[0]) {
        trim_start(s.drop_first())
    } else {
        s
    }
}

/// The text with its trailing whitespace removed.
pub open spec fn trim_end(s: Seq<char>) -> Seq<char>
    decreases s.len(),
{
    if s.len() > 0 && is_space(s[s.len() - 1]) {
        trim_end(s.drop_last())
    } else {
        s
    }
}

/// The text with whitespace removed from both ends.
pub open spec fn spec_trim(s: Seq<char>) -> Seq<char> {
    trim_end(trim_start(s))
}

/// Uppercasing is idempotent.
pub(crate) proof fn lemma_upper_idempotent(c: char)
    ensures
        upper(upper(c)) == upper(c),
{
}

/// Uppercasing a text twice is the same as uppercasing it once.
pub(crate) proof fn lemma_seq_upper_idempotent(s: Seq<char>)
    ensures
        seq_upper(seq_upper(s)) == seq_upper(s),
{
    assert(seq_upper(seq_upper(s)) =~= seq_upper(s));
}

/// Trimming the front commutes with uppercasing.
pub(crate) proof fn lemma_trim_start_upper(s: Seq<char>)
    ensures
        trim_start(seq_upper(s)) == seq_upper(trim_start(s)),
    decreases s.len(),
{
    if s.len() == 0 {
    } else {
        assert(seq_upper(s)[0] == upper(s[0]));
        if is_space(s[0]) {
            assert(seq_upper(s).drop_first() =~= seq_upper(s.drop_first()));
            lemma_trim_start_upper(s.drop_first());
        }
    }
}

/// Trimming the back commutes with uppercasing.
pub(crate) proof fn lemma_trim_end_upper(s: Seq<char>)
    ensures
        trim_end(seq_upper(s)) == seq_upper(trim_end(s)),
    decreases s.len(),
{
    if s.len() == 0 {
    } else {
        assert(seq_upper(s)[s.len() - 1] == upper(s[s.len() - 1]));
        if is_space(s[s.len() - 1]) {
            assert(seq_upper(s).drop_last() =~= seq_upper(s.drop_last()));
            lemma_trim_end_upper(s.drop_last());
        }
    }
}

/// Trimming both ends commutes with uppercasing.
pub(crate) proof fn lemma_trim_upper(s: Seq<char>)
    ensures
        spec_trim(seq_upper(s)) == seq_upper(spec_trim(s)),
{
    lemma_trim_start_upper(s);
    lemma_trim_end_upper(trim_start(s));
}

} // verus!
