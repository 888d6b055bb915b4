//! Character-level predicates and conversions.
//!
//! Whitespace, ASCII printability and ASCII case folding are defined here in
//! full, so every operation built on them is verified against an explicit
//! table.  The Unicode alphabetic, numeric and letter-case classes, and full
//! Unicode case conversion of whole strings, are computed by the standard
//! library; their results are given names that the contracts of the
//! operations built on them use.

use vstd::prelude::*;

verus! {

/// Whether `c` is a whitespace codepoint (the Unicode `White_Space` set).
pub open spec fn is_space_char(c: char) -> bool {
    c == ' ' || c == '\t' || c == '\n' || c == '\u{b}' || c == '\u{c}' || c == '\r'
        || c == '\u{85}' || c == '\u{a0}' || c == '\u{1680}' || c == '\u{2000}' || c == '\u{2001}'
        || c == '\u{2002}' || c == '\u{2003}' || c == '\u{2004}' || c == '\u{2005}'
        || c == '\u{2006}' || c == '\u{2007}' || c == '\u{2008}' || c == '\u{2009}'
        || c == '\u{200a}' || c == '\u{2028}' || c == '\u{2029}' || c == '\u{202f}'
        || c == '\u{205f}' || c == '\u{3000}'
}

/// Whether `c` is a printable ASCII codepoint: space through tilde.
pub open spec fn is_ascii_printable_char(c: char) -> bool {
    32 <= c as int <= 126
}

/// ASCII case folding: uppercase ASCII letters map to their lowercase
/// counterparts, every other codepoint is left alone.  This is the folding
/// all case-insensitive comparisons of this library use.
pub open spec fn fold_char(c: char) -> char {
    if 'A' <= c <= 'Z' {
        ((c as u8) + 32) as char
    } else {
        c
    }
}

/// The sequence `s` with every codepoint ASCII-case-folded.
pub open spec fn fold_seq(s: Seq<char>) -> Seq<char> {
    s.map_values(|c: char| fold_char(c))
}

/// Executable whitespace test, exactly the `White_Space` table above.
pub fn char_is_space(c: char) -> (r: bool)
    ensures
        r == is_space_char(c),
{
    c == ' ' || c == '\t' || c == '\n' || c == '\u{b}' || c == '\u{c}' || c == '\r'
        || c == '\u{85}' || c == '\u{a0}' || c == '\u{1680}' || c == '\u{2000}' || c == '\u{2001}'
        || c == '\u{2002}' || c == '\u{2003}' || c == '\u{2004}' || c == '\u{2005}'
        || c == '\u{2006}' || c == '\u{2007}' || c == '\u{2008}' || c == '\u{2009}'
        || c == '\u{200a}' || c == '\u{2028}' || c == '\u{2029}' || c == '\u{202f}'
        || c == '\u{205f}' || c == '\u{3000}'
}

/// Executable printable-ASCII test.
pub fn char_is_ascii_printable(c: char) -> (r: bool)
    ensures
        r == is_ascii_printable_char(c),
{
    ' ' <= c && c <= '~'
}

/// Executable ASCII case folding, exactly [`fold_char`].
pub fn char_fold(c: char) -> (r: char)
    ensures
        r == fold_char(c),
{
    if 'A' <= c && c <= 'Z' {
        ((c as u8) + 32) as char
    } else {
        c
    }
}

/// Whether `c` belongs to the Unicode `Alphabetic` class; only the standard
/// library computes this class.
pub uninterp spec fn alphabetic_char(c: char) -> bool;

/// Whether `c` belongs to the Unicode numeric classes (`Nd`, `Nl`, `No`);
/// only the standard library computes these classes.
pub uninterp spec fn numeric_char(c: char) -> bool;

/// Whether `c` belongs to the Unicode `Lowercase` class; only the standard
/// library computes this class.
pub uninterp spec fn lowercase_char(c: char) -> bool;

/// Whether `c` belongs to the Unicode `Uppercase` class; only the standard
/// library computes this class.
pub uninterp spec fn uppercase_char(c: char) -> bool;

/// Relies on char::is_alphabetic: membership in the Unicode `Alphabetic`
/// class, a function of the codepoint alone.
pub assume_specification[ char::is_alphabetic ](c: char) -> (r: bool)
    ensures
        r == alphabetic_char(c),
;

/// Relies on char::is_numeric: membership in the Unicode `Nd`, `Nl` and `No`
/// classes, a function of the codepoint alone.
#[verifier::external_body]
pub fn char_is_numeric(c: char) -> (r: bool)
    ensures
        r == numeric_char(c),
{
    c.is_numeric()
}

/// Relies on char::is_lowercase: membership in the Unicode `Lowercase`
/// class, a function of the codepoint alone.
pub assume_specification[ char::is_lowercase ](c: char) -> (r: bool)
    ensures
        r == lowercase_char(c),
;

/// Relies on char::is_uppercase: membership in the Unicode `Uppercase`
/// class, a function of the codepoint alone.
pub assume_specification[ char::is_uppercase ](c: char) -> (r: bool)
    ensures
        r == uppercase_char(c),
;

/// Relies on String::push: appends exactly one codepoint at the end.
pub assume_specification[ String::push ](s: &mut String, ch: char)
    ensures
        final(s)@ == old(s)@.push(ch),
;

/// The full Unicode lowercase conversion of `s`, as the standard library
/// computes it; a function of the codepoints alone.
pub uninterp spec fn lower_of(s: Seq<char>) -> Seq<char>;

/// The full Unicode uppercase conversion of `s`, as the standard library
/// computes it; a function of the codepoints alone.
pub uninterp spec fn upper_of(s: Seq<char>) -> Seq<char>;

/// Relies on str::to_lowercase: the Unicode lowercase equivalent of the
/// string, depending on its codepoints alone; an empty string stays empty.
#[verifier::external_body]
pub(crate) fn str_to_lowercase(s: &str) -> (r: String)
    ensures
        r@ == lower_of(s@),
        s@.len() == 0 ==> r@.len() == 0,
{
    s.to_lowercase()
}

/// Relies on str::to_uppercase: the Unicode uppercase equivalent of the
/// string, depending on its codepoints alone; an empty string stays empty.
#[verifier::external_body]
pub(crate) fn str_to_uppercase(s: &str) -> (r: String)
    ensures
        r@ == upper_of(s@),
        s@.len() == 0 ==> r@.len() == 0,
{
    s.to_uppercase()
}

/// The full Unicode uppercase expansion of the single codepoint `c`, as the
/// standard library computes it; one codepoint may expand to several.
pub uninterp spec fn upper_char_of(c: char) -> Seq<char>;

/// The full Unicode lowercase expansion of the single codepoint `c`, as the
/// standard library computes it; one codepoint may expand to several.
pub uninterp spec fn lower_char_of(c: char) -> Seq<char>;

/// Relies on char::to_uppercase: the Unicode uppercase expansion of the
/// codepoint, a function of the codepoint alone.
#[verifier::external_body]
pub fn char_to_uppercase(c: char) -> (r: String)
    ensures
        r@ == upper_char_of(c),
{
    c.to_uppercase().collect::<String>()
}

/// Relies on char::to_lowercase: the Unicode lowercase expansion of the
/// codepoint, a function of the codepoint alone.
#[verifier::external_body]
pub fn char_to_lowercase(c: char) -> (r: String)
    ensures
        r@ == lower_char_of(c),
{
    c.to_lowercase().collect::<String>()
}

/// The expansion a single codepoint contributes to `swap_case`: uppercase
/// codepoints are lowered, lowercase ones are raised, everything else stays.
pub open spec fn swapped_char(c: char) -> Seq<char> {
    if uppercase_char(c) {
        lower_char_of(c)
    } else if lowercase_char(c) {
        upper_char_of(c)
    } else {
        seq![c]
    }
}

/// The text with the letter case of every codepoint swapped.
pub open spec fn swap_case_spec(s: Seq<char>) -> Seq<char>
    decreases s.len(),
{
    if s.len() == 0 {
        Seq::empty()
    } else {
        swap_case_spec(s.drop_last()) + swapped_char(s.last())
    }
}

} // verus!
