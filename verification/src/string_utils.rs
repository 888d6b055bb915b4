//! The catalogue of string operations.
//!
//! [`StringUtilsExt`] declares every operation together with its contract,
//! stated over the codepoint view of the text.  The logic is implemented
//! once for `str`; the `String` implementation borrows the slice and
//! delegates.  [`StringUtils`] offers the batch helpers that work over
//! collections of strings.

use std::ops::Range;

use vstd::prelude::*;
use vstd::string::*;

use crate::abbrev::{spec_abbreviate_full, spec_min};
use crate::chars::{
    alphabetic_char, fold_seq, is_ascii_printable_char, is_space_char, lower_char_of, lower_of,
    lowercase_char, numeric_char, swap_case_spec, upper_char_of, upper_of, uppercase_char,
};
use crate::error::UtilsResult;
use crate::model::{
    all_space, between_at, center_spec, collapse_space_spec, compare_spec, control_or_space_pred,
    count_matches_spec, count_pred, eq_char_pred, first_char_at, first_diff_at, first_match_at,
    in_set_pred, is_blank_seq, last_char_at, last_match_at, left_pad_spec, match_count_below,
    match_count_from, ne_char_pred, not_space_pred, numeric_pred, remove_all_fold_spec,
    remove_all_spec, repeat_spec, replace_chars_spec, replace_each_rep_spec, replace_each_spec,
    replace_map, reverse_delimited_spec, right_pad_spec, seq_contains_seq, seq_ends_with,
    seq_matches_at, seq_starts_with, space_pred, trim_end_spec, trim_spec, trim_start_spec,
    unclosed_at,
};

verus! {

/// Unicode-aware, codepoint-based string helpers.
///
/// Every width, index and window in these contracts counts Unicode scalar
/// values, never bytes.  Case-insensitive comparisons fold codepoints with
/// [`crate::chars::fold_char`]; the case-conversion operations use the full
/// Unicode conversions named by [`lower_of`] and [`upper_of`].
pub trait StringUtilsExt: View<V = Seq<char>> {
    /// Whether the text has no codepoints.
    fn is_empty(&self) -> (r: bool)
        ensures
            r == (self@.len() == 0),
    ;

    /// Whether the text has at least one codepoint.
    fn is_not_empty(&self) -> (r: bool)
        ensures
            r == (self@.len() != 0),
    ;

    /// Whether the text is empty or consists only of whitespace.
    fn is_blank(&self) -> (r: bool)
        ensures
            r == is_blank_seq(self@),
    ;

    /// Whether the text has at least one non-whitespace codepoint.
    fn is_not_blank(&self) -> (r: bool)
        ensures
            r == !is_blank_seq(self@),
    ;

    /// Whether every codepoint is whitespace; an empty text qualifies.
    fn is_whitespace(&self) -> (r: bool)
        ensures
            r == all_space(self@),
    ;

    /// Whether every codepoint is printable ASCII; an empty text qualifies.
    fn is_ascii_printable(&self) -> (r: bool)
        ensures
            r == forall|i: int|
                0 <= i < self@.len() ==> is_ascii_printable_char(#[trigger] self@[i]),
    ;

    /// Whether the text is non-empty and every codepoint is alphabetic.
    fn is_alpha(&self) -> (r: bool)
        ensures
            r == (self@.len() > 0 && forall|i: int|
                0 <= i < self@.len() ==> alphabetic_char(#[trigger] self@[i])),
    ;

    /// Whether the text is non-empty and every codepoint is alphabetic or
    /// numeric.
    fn is_alphanumeric(&self) -> (r: bool)
        ensures
            r == (self@.len() > 0 && forall|i: int|
                0 <= i < self@.len() ==> alphabetic_char(#[trigger] self@[i]) || numeric_char(
                    self@[i],
                )),
    ;

    /// Whether every codepoint is alphabetic, numeric or whitespace; an
    /// empty text qualifies.
    fn is_alphanumeric_space(&self) -> (r: bool)
        ensures
            r == forall|i: int|
                0 <= i < self@.len() ==> alphabetic_char(#[trigger] self@[i]) || numeric_char(
                    self@[i],
                ) || is_space_char(self@[i]),
    ;

    /// Whether every codepoint is alphabetic or whitespace; an empty text
    /// qualifies.
    fn is_alpha_space(&self) -> (r: bool)
        ensures
            r == forall|i: int|
                0 <= i < self@.len() ==> alphabetic_char(#[trigger] self@[i]) || is_space_char(
                    self@[i],
                ),
    ;

    /// Whether the text is non-empty and every codepoint is numeric.
    fn is_numeric(&self) -> (r: bool)
        ensures
            r == (self@.len() > 0 && forall|i: int|
                0 <= i < self@.len() ==> numeric_char(#[trigger] self@[i])),
    ;

    /// Whether every codepoint is numeric or whitespace; an empty text
    /// qualifies.
    fn is_numeric_space(&self) -> (r: bool)
        ensures
            r == forall|i: int|
                0 <= i < self@.len() ==> numeric_char(#[trigger] self@[i]) || is_space_char(
                    self@[i],
                ),
    ;

    /// Whether the text holds both an uppercase and a lowercase codepoint.
    fn is_mixed_case(&self) -> (r: bool)
        ensures
            r == ((exists|i: int| 0 <= i < self@.len() && uppercase_char(#[trigger] self@[i]))
                && (exists|i: int| 0 <= i < self@.len() && lowercase_char(#[trigger] self@[i]))),
    ;

    /// Whether the two texts hold the same codepoints.
    fn equals(&self, str2: &str) -> (r: bool)
        ensures
            r == (self@ == str2@),
    ;

    /// Whether the two texts hold the same codepoints once ASCII-case-folded.
    fn equals_ignore_case(&self, str2: &str) -> (r: bool)
        ensures
            r == (fold_seq(self@) == fold_seq(str2@)),
    ;

    /// Whether the text equals any of the given candidates.
    fn equals_any(&self, searches: &[&str]) -> (r: bool)
        ensures
            r == exists|i: int| 0 <= i < searches@.len() && self@ == (#[trigger] searches@[i])@,
    ;

    /// Whether the text equals any of the candidates once ASCII-case-folded.
    fn equals_any_ignore_case(&self, searches: &[&str]) -> (r: bool)
        ensures
            r == exists|i: int|
                0 <= i < searches@.len() && fold_seq(self@) == fold_seq(
                    (#[trigger] searches@[i])@,
                ),
    ;

    /// Whether `search` occurs in the text.
    fn contains(&self, search: &str) -> (r: bool)
        ensures
            r == seq_contains_seq(self@, search@),
    ;

    /// Whether the codepoint `search_char` occurs in the text.
    fn contains_char(&self, search_char: char) -> (r: bool)
        ensures
            r == self@.contains(search_char),
    ;

    /// Whether `search` occurs in the text once both are ASCII-case-folded.
    fn contains_ignore_case(&self, search: &str) -> (r: bool)
        ensures
            r == seq_contains_seq(fold_seq(self@), fold_seq(search@)),
    ;

    /// Whether any of the given strings occurs in the text.
    fn contains_any(&self, searches: &[&str]) -> (r: bool)
        ensures
            r == exists|i: int|
                0 <= i < searches@.len() && seq_contains_seq(self@, (#[trigger] searches@[i])@),
    ;

    /// Whether any codepoint of the given set occurs in the text.
    fn contains_any_char(&self, searches: &[char]) -> (r: bool)
        ensures
            r == exists|i: int| 0 <= i < self@.len() && searches@.contains(#[trigger] self@[i]),
    ;

    /// Whether any codepoint of `searches_str` occurs in the text.
    fn contains_any_in(&self, searches_str: &str) -> (r: bool)
        ensures
            r == exists|i: int| 0 <= i < self@.len() && searches_str@.contains(#[trigger] self@[i]),
    ;

    /// Whether any of the given strings occurs in the text, comparing
    /// ASCII-case-folded.
    fn contains_any_ignore_case(&self, searches: &[&str]) -> (r: bool)
        ensures
            r == exists|i: int|
                0 <= i < searches@.len() && seq_contains_seq(
                    fold_seq(self@),
                    fold_seq((#[trigger] searches@[i])@),
                ),
    ;

    /// Whether no codepoint of the given set occurs in the text.
    fn contains_none(&self, searches: &[char]) -> (r: bool)
        ensures
            r == forall|i: int| 0 <= i < self@.len() ==> !searches@.contains(#[trigger] self@[i]),
    ;

    /// Whether no codepoint of `invalid_chars` occurs in the text.
    fn contains_none_in(&self, invalid_chars: &str) -> (r: bool)
        ensures
            r == forall|i: int|
                0 <= i < self@.len() ==> !invalid_chars@.contains(#[trigger] self@[i]),
    ;

    /// Whether every codepoint of the text belongs to the given set.
    fn contains_only(&self, valid: &[char]) -> (r: bool)
        ensures
            r == forall|i: int| 0 <= i < self@.len() ==> valid@.contains(#[trigger] self@[i]),
    ;

    /// Whether every codepoint of the text belongs to `valid_chars`.
    fn contains_only_in(&self, valid_chars: &str) -> (r: bool)
        ensures
            r == forall|i: int| 0 <= i < self@.len() ==> valid_chars@.contains(#[trigger] self@[i]),
    ;

    /// Whether the text holds at least one whitespace codepoint.
    fn contains_whitespace(&self) -> (r: bool)
        ensures
            r == exists|i: int| 0 <= i < self@.len() && is_space_char(#[trigger] self@[i]),
    ;

    /// The text itself when it is not empty, otherwise whatever
    /// `default_supplier` produces.
    fn if_empty<T: Fn() -> String>(&self, default_supplier: T) -> (r: String)
        requires
            self@.len() == 0 ==> call_requires(default_supplier, ()),
        ensures
            self@.len() != 0 ==> r@ == self@,
            self@.len() == 0 ==> call_ensures(default_supplier, (), r),
    ;

    /// The text itself when it is not blank, otherwise whatever
    /// `default_supplier` produces.
    fn if_blank<T: Fn() -> String>(&self, default_supplier: T) -> (r: String)
        requires
            is_blank_seq(self@) ==> call_requires(default_supplier, ()),
        ensures
            !is_blank_seq(self@) ==> r@ == self@,
            is_blank_seq(self@) ==> call_ensures(default_supplier, (), r),
    ;

    /// The position of the first occurrence of `search`, if any.
    fn index_of(&self, search: &str) -> (r: Option<usize>)
        ensures
            r matches Some(i) ==> seq_matches_at(self@, search@, i as int) && (forall|j: int|
                0 <= j < i ==> !seq_matches_at(self@, search@, j)),
            r is None ==> !seq_contains_seq(self@, search@),
    ;

    /// The position of the first occurrence of `search` at or after
    /// `start_pos`, if any.
    fn index_of_starting_from(&self, search: &str, start_pos: usize) -> (r: Option<usize>)
        ensures
            r matches Some(i) ==> start_pos <= i && seq_matches_at(self@, search@, i as int) && (
            forall|j: int| start_pos <= j < i ==> !seq_matches_at(self@, search@, j)),
            r is None ==> forall|j: int| j >= start_pos ==> !seq_matches_at(self@, search@, j),
    ;

    /// The position of the first occurrence of `search`, comparing
    /// ASCII-case-folded, if any.
    fn index_of_ignore_case(&self, search: &str) -> (r: Option<usize>)
        ensures
            r matches Some(i) ==> seq_matches_at(fold_seq(self@), fold_seq(search@), i as int) && (
            forall|j: int| 0 <= j < i ==> !seq_matches_at(fold_seq(self@), fold_seq(search@), j)),
            r is None ==> !seq_contains_seq(fold_seq(self@), fold_seq(search@)),
    ;

    /// The position of the first occurrence of `search` at or after
    /// `start_pos`, comparing ASCII-case-folded, if any.
    fn index_of_ignore_case_starting_from(&self, search: &str, start_pos: usize) -> (r: Option<
        usize,
    >)
        ensures
            r matches Some(i) ==> start_pos <= i && seq_matches_at(
                fold_seq(self@),
                fold_seq(search@),
                i as int,
            ) && (forall|j: int|
                start_pos <= j < i ==> !seq_matches_at(fold_seq(self@), fold_seq(search@), j)),
            r is None ==> forall|j: int|
                j >= start_pos ==> !seq_matches_at(fold_seq(self@), fold_seq(search@), j),
    ;

    /// The position of the first occurrence of `search_char`, if any.
    fn index_of_char(&self, search_char: char) -> (r: Option<usize>)
        ensures
            r matches Some(i) ==> i < self@.len() && self@[i as int] == search_char && (forall|
                j: int,
            |
                0 <= j < i ==> self@[j] != search_char),
            r is None ==> !self@.contains(search_char),
    ;

    /// The position of the first occurrence of `search_char` at or after
    /// `start_pos`, if any.
    fn index_of_char_starting_from(&self, search_char: char, start_pos: usize) -> (r: Option<
        usize,
    >)
        ensures
            r matches Some(i) ==> start_pos <= i < self@.len() && self@[i as int] == search_char
                && (forall|j: int| start_pos <= j < i ==> self@[j] != search_char),
            r is None ==> forall|j: int| start_pos <= j < self@.len() ==> self@[j] != search_char,
    ;

    /// The position of the last occurrence of `search`, if any.
    fn last_index_of(&self, search: &str) -> (r: Option<usize>)
        ensures
            r matches Some(i) ==> seq_matches_at(self@, search@, i as int) && (forall|j: int|
                j > i ==> !seq_matches_at(self@, search@, j)),
            r is None ==> !seq_contains_seq(self@, search@),
    ;

    /// The position of the last occurrence of `search` starting at or before
    /// `start_pos`, if any.
    fn last_index_of_starting_from(&self, search: &str, start_pos: usize) -> (r: Option<usize>)
        ensures
            r matches Some(i) ==> i <= start_pos && seq_matches_at(self@, search@, i as int) && (
            forall|j: int| i < j <= start_pos ==> !seq_matches_at(self@, search@, j)),
            r is None ==> forall|j: int| 0 <= j <= start_pos ==> !seq_matches_at(self@, search@, j),
    ;

    /// The position of the last occurrence of `search`, comparing
    /// ASCII-case-folded, if any.
    fn last_index_of_ignore_case(&self, search: &str) -> (r: Option<usize>)
        ensures
            r matches Some(i) ==> seq_matches_at(fold_seq(self@), fold_seq(search@), i as int) && (
            forall|j: int| j > i ==> !seq_matches_at(fold_seq(self@), fold_seq(search@), j)),
            r is None ==> !seq_contains_seq(fold_seq(self@), fold_seq(search@)),
    ;

    /// The position of the last occurrence of `search` starting at or
    /// before `start_pos`, comparing ASCII-case-folded, if any.
    fn last_index_of_ignore_case_starting_from(&self, search: &str, start_pos: usize) -> (r:
        Option<usize>)
        ensures
            r matches Some(i) ==> i <= start_pos && seq_matches_at(
                fold_seq(self@),
                fold_seq(search@),
                i as int,
            ) && (forall|j: int|
                i < j <= start_pos ==> !seq_matches_at(fold_seq(self@), fold_seq(search@), j)),
            r is None ==> forall|j: int|
                0 <= j <= start_pos ==> !seq_matches_at(fold_seq(self@), fold_seq(search@), j),
    ;

    /// The position of the last occurrence of `search_char`, if any.
    fn last_index_of_char(&self, search_char: char) -> (r: Option<usize>)
        ensures
            r matches Some(i) ==> i < self@.len() && self@[i as int] == search_char && (forall|
                j: int,
            |
                i < j < self@.len() ==> self@[j] != search_char),
            r is None ==> !self@.contains(search_char),
    ;

    /// The position of the last occurrence of `search_char` at or before
    /// `start_pos`, if any.
    fn last_index_of_char_starting_from(&self, search_char: char, start_pos: usize) -> (r: Option<
        usize,
    >)
        ensures
            r matches Some(i) ==> i < self@.len() && i <= start_pos && self@[i as int]
                == search_char && (forall|j: int|
                i < j <= start_pos && j < self@.len() ==> self@[j] != search_char),
            r is None ==> forall|j: int|
                0 <= j <= start_pos && j < self@.len() ==> self@[j] != search_char,
    ;

    /// The earliest position at which any of the given strings occurs, if
    /// any of them does.
    fn index_of_any(&self, searches: &[&str]) -> (r: Option<usize>)
        ensures
            r matches Some(i) ==> (exists|k: int|
                0 <= k < searches@.len() && seq_matches_at(
                    self@,
                    (#[trigger] searches@[k])@,
                    i as int,
                )) && (forall|j: int, k: int|
                #![trigger seq_matches_at(self@, (searches@[k])@, j)]
                0 <= k < searches@.len() && 0 <= j < i ==> !seq_matches_at(
                    self@,
                    (searches@[k])@,
                    j,
                )),
            r is None ==> forall|k: int|
                0 <= k < searches@.len() ==> !seq_contains_seq(self@, (#[trigger] searches@[k])@),
    ;

    /// The latest position at which any of the given strings occurs, if any
    /// of them does.
    fn last_index_of_any(&self, searches: &[&str]) -> (r: Option<usize>)
        ensures
            r matches Some(i) ==> (exists|k: int|
                0 <= k < searches@.len() && seq_matches_at(
                    self@,
                    (#[trigger] searches@[k])@,
                    i as int,
                )) && (forall|j: int, k: int|
                #![trigger seq_matches_at(self@, (searches@[k])@, j)]
                0 <= k < searches@.len() && j > i ==> !seq_matches_at(self@, (searches@[k])@, j)),
            r is None ==> forall|k: int|
                0 <= k < searches@.len() ==> !seq_contains_seq(self@, (#[trigger] searches@[k])@),
    ;

    /// The position of the `ordinal`-th occurrence of `search`, counting
    /// occurrences (overlapping ones included) from the start, if there are
    /// that many.
    fn ordinal_index_of(&self, search: &str, ordinal: usize) -> (r: Option<usize>)
        ensures
            r matches Some(i) ==> ordinal >= 1 && seq_matches_at(self@, search@, i as int)
                && match_count_below(self@, search@, i as int) == ordinal - 1,
            r is None ==> ordinal == 0 || match_count_below(self@, search@, self@.len() as int + 1)
                < ordinal,
    ;

    /// The position of the `ordinal`-th occurrence of `search`, counting
    /// occurrences (overlapping ones included) from the end, if there are
    /// that many.
    fn last_ordinal_index_of(&self, search: &str, ordinal: usize) -> (r: Option<usize>)
        ensures
            r matches Some(i) ==> ordinal >= 1 && seq_matches_at(self@, search@, i as int)
                && match_count_from(self@, search@, i as int + 1) == ordinal - 1,
            r is None ==> ordinal == 0 || match_count_from(self@, search@, 0) < ordinal,
    ;

    /// The position of the first codepoint that belongs to the given set, if
    /// any.
    fn index_of_any_char(&self, search_chars: &[char]) -> (r: Option<usize>)
        ensures
            r matches Some(i) ==> i < self@.len() && search_chars@.contains(self@[i as int]) && (
            forall|j: int| 0 <= j < i ==> !search_chars@.contains(#[trigger] self@[j])),
            r is None ==> forall|j: int|
                0 <= j < self@.len() ==> !search_chars@.contains(#[trigger] self@[j]),
    ;

    /// The position of the first codepoint that belongs to `search_chars`,
    /// if any.
    fn index_of_any_in(&self, search_chars: &str) -> (r: Option<usize>)
        ensures
            r matches Some(i) ==> i < self@.len() && search_chars@.contains(self@[i as int]) && (
            forall|j: int| 0 <= j < i ==> !search_chars@.contains(#[trigger] self@[j])),
            r is None ==> forall|j: int|
                0 <= j < self@.len() ==> !search_chars@.contains(#[trigger] self@[j]),
    ;

    /// The position of the first codepoint outside the given set, if any.
    fn index_of_any_but(&self, search_chars: &[char]) -> (r: Option<usize>)
        ensures
            r matches Some(i) ==> i < self@.len() && !search_chars@.contains(self@[i as int]) && (
            forall|j: int| 0 <= j < i ==> search_chars@.contains(#[trigger] self@[j])),
            r is None ==> forall|j: int|
                0 <= j < self@.len() ==> search_chars@.contains(#[trigger] self@[j]),
    ;

    /// The position of the first codepoint outside `search_chars`, if any.
    fn index_of_any_but_in(&self, search_chars: &str) -> (r: Option<usize>)
        ensures
            r matches Some(i) ==> i < self@.len() && !search_chars@.contains(self@[i as int]) && (
            forall|j: int| 0 <= j < i ==> search_chars@.contains(#[trigger] self@[j])),
            r is None ==> forall|j: int|
                0 <= j < self@.len() ==> search_chars@.contains(#[trigger] self@[j]),
    ;

    /// Whether the text begins with `prefix`, case-sensitively or
    /// ASCII-case-folded as requested.
    fn starts_with(&self, prefix: &str, ignore_case: bool) -> (r: bool)
        ensures
            !ignore_case ==> r == seq_starts_with(self@, prefix@),
            ignore_case ==> r == seq_starts_with(fold_seq(self@), fold_seq(prefix@)),
    ;

    /// Whether the text begins with any of the given prefixes.
    fn starts_with_any(&self, prefixes: &[&str]) -> (r: bool)
        ensures
            r == exists|i: int|
                0 <= i < prefixes@.len() && seq_starts_with(self@, (#[trigger] prefixes@[i])@),
    ;

    /// Whether the text ends with `suffix`, case-sensitively or
    /// ASCII-case-folded as requested.
    fn end_with(&self, suffix: &str, ignore_case: bool) -> (r: bool)
        ensures
            !ignore_case ==> r == seq_ends_with(self@, suffix@),
            ignore_case ==> r == seq_ends_with(fold_seq(self@), fold_seq(suffix@)),
    ;

    /// Whether the text ends with any of the given suffixes.
    fn end_with_any(&self, searches: &[&str]) -> (r: bool)
        ensures
            r == exists|i: int|
                0 <= i < searches@.len() && seq_ends_with(self@, (#[trigger] searches@[i])@),
    ;

    /// Whether the text ends with `suffix`, case-sensitively.
    fn end_with_consider_case(&self, suffix: &str) -> (r: bool)
        ensures
            r == seq_ends_with(self@, suffix@),
    ;

    /// Whether the text ends with `suffix`, comparing ASCII-case-folded.
    fn end_with_ignore_case(&self, suffix: &str) -> (r: bool)
        ensures
            r == seq_ends_with(fold_seq(self@), fold_seq(suffix@)),
    ;

    /// The leftmost `len` codepoints, or all of the text if it is shorter.
    fn left(&self, len: usize) -> (r: String)
        ensures
            r@ == self@.take(spec_min(len as int, self@.len() as int)),
    ;

    /// The rightmost `len` codepoints, or all of the text if it is shorter.
    fn right(&self, len: usize) -> (r: String)
        ensures
            r@ == self@.skip(self@.len() - spec_min(len as int, self@.len() as int)),
    ;

    /// Up to `len` codepoints starting at `pos`; empty when `pos` lies past
    /// the end.
    fn mid(&self, pos: usize, len: usize) -> (r: String)
        ensures
            pos > self@.len() ==> r@ == Seq::<char>::empty(),
            pos <= self@.len() ==> r@ == self@.subrange(
                pos as int,
                spec_min(pos + len, self@.len() as int),
            ),
    ;

    /// The codepoints in `[range.start, range.end)`.
    fn substring(&self, range: Range<usize>) -> (r: String)
        requires
            range.start <= range.end <= self@.len(),
        ensures
            r@ == self@.subrange(range.start as int, range.end as int),
    ;

    /// The first `max_width` codepoints, or all of the text if it is
    /// shorter.
    fn truncate(&self, max_width: usize) -> (r: String)
        ensures
            r@ == self@.take(spec_min(max_width as int, self@.len() as int)),
    ;

    /// Up to `max_width` codepoints starting at `offset`, both clamped to
    /// the text.
    fn truncate_with_offset(&self, offset: usize, max_width: usize) -> (r: String)
        ensures
            r@ == ({
                let lo = spec_min(offset as int, self@.len() as int);
                self@.subrange(lo, spec_min(lo + max_width, self@.len() as int))
            }),
    ;

    /// The text without its last codepoint; a trailing carriage-return and
    /// line-feed pair is removed as one unit.
    fn chop(&self) -> (r: String)
        ensures
            self@.len() == 0 ==> r@ == self@,
            self@.len() >= 2 && self@[self@.len() - 2] == '\r' && self@[self@.len() - 1] == '\n'
                ==> r@ == self@.take(self@.len() - 2),
            self@.len() >= 1 && !(self@.len() >= 2 && self@[self@.len() - 2] == '\r'
                && self@[self@.len() - 1] == '\n') ==> r@ == self@.take(self@.len() - 1),
    ;

    /// The text without one trailing line terminator: a carriage-return and
    /// line-feed pair, a lone line feed, or a lone carriage return.
    fn chomp(&self) -> (r: String)
        ensures
            self@.len() >= 2 && self@[self@.len() - 2] == '\r' && self@[self@.len() - 1] == '\n'
                ==> r@ == self@.take(self@.len() - 2),
            self@.len() >= 1 && (self@[self@.len() - 1] == '\n' || self@[self@.len() - 1] == '\r')
                && !(self@.len() >= 2 && self@[self@.len() - 2] == '\r' && self@[self@.len() - 1]
                == '\n') ==> r@ == self@.take(self@.len() - 1),
            self@.len() == 0 || (self@[self@.len() - 1] != '\n' && self@[self@.len() - 1] != '\r')
                ==> r@ == self@,
    ;

    /// The text without one trailing occurrence of `separator`.
    fn chomp_specified(&self, separator: &str) -> (r: String)
        ensures
            seq_ends_with(self@, separator@) ==> r@ == self@.take(self@.len() - separator@.len()),
            !seq_ends_with(self@, separator@) ==> r@ == self@,
    ;

    /// The text without a leading occurrence of `remove`.
    fn remove_start(&self, remove: &str) -> (r: String)
        ensures
            seq_starts_with(self@, remove@) ==> r@ == self@.skip(remove@.len() as int),
            !seq_starts_with(self@, remove@) ==> r@ == self@,
    ;

    /// The text without a leading occurrence of the codepoint `remove`.
    fn remove_start_char(&self, remove: char) -> (r: String)
        ensures
            self@.len() > 0 && self@[0] == remove ==> r@ == self@.skip(1),
            !(self@.len() > 0 && self@[0] == remove) ==> r@ == self@,
    ;

    /// The text without a leading occurrence of `remove`, compared
    /// ASCII-case-folded.
    fn remove_start_ignore_case(&self, remove: &str) -> (r: String)
        ensures
            seq_starts_with(fold_seq(self@), fold_seq(remove@)) ==> r@ == self@.skip(
                remove@.len() as int,
            ),
            !seq_starts_with(fold_seq(self@), fold_seq(remove@)) ==> r@ == self@,
    ;

    /// The text without a trailing occurrence of `remove`.
    fn remove_end(&self, remove: &str) -> (r: String)
        ensures
            seq_ends_with(self@, remove@) ==> r@ == self@.take(self@.len() - remove@.len()),
            !seq_ends_with(self@, remove@) ==> r@ == self@,
    ;

    /// The text without a trailing occurrence of `remove`, compared
    /// ASCII-case-folded.
    fn remove_end_ignore_case(&self, remove: &str) -> (r: String)
        ensures
            seq_ends_with(fold_seq(self@), fold_seq(remove@)) ==> r@ == self@.take(
                self@.len() - remove@.len(),
            ),
            !seq_ends_with(fold_seq(self@), fold_seq(remove@)) ==> r@ == self@,
    ;

    /// The text with every occurrence of `remove` elided, scanning left to
    /// right.
    fn remove(&self, remove: &str) -> (r: String)
        ensures
            r@ == remove_all_spec(self@, remove@),
    ;

    /// The text with every occurrence of `remove` elided, scanning left to
    /// right.
    fn remove_all(&self, remove: &str) -> (r: String)
        ensures
            r@ == remove_all_spec(self@, remove@),
    ;

    /// The text with every occurrence of `remove` elided, comparing
    /// ASCII-case-folded, scanning left to right.
    fn remove_ignore_case(&self, remove: &str) -> (r: String)
        ensures
            r@ == remove_all_fold_spec(self@, remove@),
    ;

    /// The text without its first occurrence of `remove`.
    fn remove_first(&self, remove: &str) -> (r: String)
        ensures
            forall|i: int|
                first_match_at(self@, remove@, i) ==> r@ == self@.take(i) + self@.skip(
                    i + remove@.len(),
                ),
            !seq_contains_seq(self@, remove@) ==> r@ == self@,
    ;

    /// The text with its first occurrence of `search` replaced by `replace`.
    fn replace_first(&self, search: &str, replace: &str) -> (r: String)
        ensures
            forall|i: int|
                first_match_at(self@, search@, i) ==> r@ == self@.take(i) + replace@ + self@.skip(
                    i + search@.len(),
                ),
            !seq_contains_seq(self@, search@) ==> r@ == self@,
    ;

    /// Everything before the first occurrence of `separator`; the whole text
    /// when it does not occur.
    fn substring_before(&self, separator: char) -> (r: String)
        ensures
            forall|i: int| first_char_at(self@, separator, i) ==> r@ == self@.take(i),
            !self@.contains(separator) ==> r@ == self@,
    ;

    /// Everything after the first occurrence of `separator`; empty when it
    /// does not occur.
    fn substring_after(&self, separator: char) -> (r: String)
        ensures
            forall|i: int| first_char_at(self@, separator, i) ==> r@ == self@.skip(i + 1),
            !self@.contains(separator) ==> r@ == Seq::<char>::empty(),
    ;

    /// Everything before the last occurrence of `separator`; the whole text
    /// when it does not occur.
    fn substring_before_last(&self, separator: char) -> (r: String)
        ensures
            forall|i: int| last_char_at(self@, separator, i) ==> r@ == self@.take(i),
            !self@.contains(separator) ==> r@ == self@,
    ;

    /// Everything after the last occurrence of `separator`; empty when it
    /// does not occur.
    fn substring_after_last(&self, separator: char) -> (r: String)
        ensures
            forall|i: int| last_char_at(self@, separator, i) ==> r@ == self@.skip(i + 1),
            !self@.contains(separator) ==> r@ == Seq::<char>::empty(),
    ;

    /// Everything before the first occurrence of `separator`; the whole text
    /// when it does not occur.
    fn substring_before_str(&self, separator: &str) -> (r: String)
        ensures
            forall|i: int| first_match_at(self@, separator@, i) ==> r@ == self@.take(i),
            !seq_contains_seq(self@, separator@) ==> r@ == self@,
    ;

    /// Everything after the first occurrence of `separator`; empty when it
    /// does not occur.
    fn substring_after_str(&self, separator: &str) -> (r: String)
        ensures
            forall|i: int|
                first_match_at(self@, separator@, i) ==> r@ == self@.skip(i + separator@.len()),
            !seq_contains_seq(self@, separator@) ==> r@ == Seq::<char>::empty(),
    ;

    /// Everything before the last occurrence of `separator`; the whole text
    /// when it does not occur.
    fn substring_before_last_str(&self, separator: &str) -> (r: String)
        ensures
            forall|i: int| last_match_at(self@, separator@, i) ==> r@ == self@.take(i),
            !seq_contains_seq(self@, separator@) ==> r@ == self@,
    ;

    /// Everything after the last occurrence of `separator`; empty when it
    /// does not occur.
    fn substring_after_last_str(&self, separator: &str) -> (r: String)
        ensures
            forall|i: int|
                last_match_at(self@, separator@, i) ==> r@ == self@.skip(i + separator@.len()),
            !seq_contains_seq(self@, separator@) ==> r@ == Seq::<char>::empty(),
    ;

    /// The content between the first occurrence of `open` and the first
    /// following occurrence of `close`; empty when either is missing.
    fn substring_between(&self, open: &str, close: &str) -> (r: String)
        ensures
            forall|i: int, j: int|
                #[trigger] between_at(self@, open@, close@, i, j) ==> r@ == self@.subrange(
                    i + open@.len(),
                    j,
                ),
            !seq_contains_seq(self@, open@) ==> r@ == Seq::<char>::empty(),
            forall|i: int|
                #[trigger] unclosed_at(self@, open@, close@, i) ==> r@ == Seq::<char>::empty(),
    ;

    /// The content between the first occurrence of `tag` and the next one;
    /// empty when there are fewer than two occurrences.
    fn substring_between_tag(&self, tag: &str) -> (r: String)
        ensures
            forall|i: int, j: int|
                #[trigger] between_at(self@, tag@, tag@, i, j) ==> r@ == self@.subrange(
                    i + tag@.len(),
                    j,
                ),
            !seq_contains_seq(self@, tag@) ==> r@ == Seq::<char>::empty(),
            forall|i: int|
                #[trigger] unclosed_at(self@, tag@, tag@, i) ==> r@ == Seq::<char>::empty(),
    ;

    /// The text surrounded by the codepoint `wrap_with`.
    fn wrap(&self, wrap_with: char) -> (r: String)
        ensures
            r@ == seq![wrap_with] + self@ + seq![wrap_with],
    ;

    /// The text surrounded by `wrap_with`.
    fn wrap_with_str(&self, wrap_with: &str) -> (r: String)
        ensures
            r@ == wrap_with@ + self@ + wrap_with@,
    ;

    /// The text with the codepoint `wrap_with` added on each side where it
    /// is not already present; an empty text is left alone.
    fn wrap_if_missing(&self, wrap_with: char) -> (r: String)
        ensures
            self@.len() == 0 ==> r@ == self@,
            self@.len() > 0 ==> r@ == (if self@[0] == wrap_with {
                Seq::<char>::empty()
            } else {
                seq![wrap_with]
            }) + self@ + (if self@[self@.len() - 1] == wrap_with {
                Seq::<char>::empty()
            } else {
                seq![wrap_with]
            }),
    ;

    /// The text with `wrap_with` added on each side where it is not already
    /// present; an empty text or an empty wrap is left alone.
    fn wrap_if_missing_str(&self, wrap_with: &str) -> (r: String)
        ensures
            self@.len() == 0 || wrap_with@.len() == 0 ==> r@ == self@,
            self@.len() > 0 && wrap_with@.len() > 0 ==> r@ == (if seq_starts_with(
                self@,
                wrap_with@,
            ) {
                Seq::<char>::empty()
            } else {
                wrap_with@
            }) + self@ + (if seq_ends_with(self@, wrap_with@) {
                Seq::<char>::empty()
            } else {
                wrap_with@
            }),
    ;

    /// The text without one leading and one trailing occurrence of the
    /// codepoint `wrap_char`, removed only when both are present.
    fn unwrap_from_char(&self, wrap_char: char) -> (r: String)
        ensures
            self@.len() >= 2 && self@[0] == wrap_char && self@[self@.len() - 1] == wrap_char
                ==> r@ == self@.subrange(1, self@.len() - 1),
            !(self@.len() >= 2 && self@[0] == wrap_char && self@[self@.len() - 1] == wrap_char)
                ==> r@ == self@,
    ;

    /// The text without one leading and one trailing occurrence of
    /// `wrap_str`, removed only when both are present.
    fn unwrap_from_str(&self, wrap_str: &str) -> (r: String)
        ensures
            self@.len() >= 2 * wrap_str@.len() && wrap_str@.len() > 0 && seq_starts_with(
                self@,
                wrap_str@,
            ) && seq_ends_with(self@, wrap_str@) ==> r@ == self@.subrange(
                wrap_str@.len() as int,
                self@.len() - wrap_str@.len(),
            ),
            !(self@.len() >= 2 * wrap_str@.len() && wrap_str@.len() > 0 && seq_starts_with(
                self@,
                wrap_str@,
            ) && seq_ends_with(self@, wrap_str@)) ==> r@ == self@,
    ;

    /// The text with the window `[start, end)` (clamped to the text, and
    /// swapped when reversed) replaced by `overlay`.
    fn overlay(&self, overlay: &str, start: usize, end: usize) -> (r: String)
        ensures
            r@ == ({
                let n = self@.len() as int;
                let a = spec_min(start as int, n);
                let b = spec_min(end as int, n);
                let lo = spec_min(a, b);
                let hi = if a <= b {
                    b
                } else {
                    a
                };
                self@.take(lo) + overlay@ + self@.skip(hi)
            }),
    ;

    /// `default_str` when the text is empty, the text itself otherwise.
    fn default_if_empty(&self, default_str: &str) -> (r: String)
        ensures
            self@.len() == 0 ==> r@ == default_str@,
            self@.len() != 0 ==> r@ == self@,
    ;

    /// `default_str` when the text is blank, the text itself otherwise.
    fn default_if_blank(&self, default_str: &str) -> (r: String)
        ensures
            is_blank_seq(self@) ==> r@ == default_str@,
            !is_blank_seq(self@) ==> r@ == self@,
    ;

    /// The text itself, as an owned copy.
    fn default_string(&self) -> (r: String)
        ensures
            r@ == self@,
    ;

    /// The full Unicode lowercase conversion of the text.
    fn lower_case(&self) -> (r: String)
        ensures
            r@ == lower_of(self@),
    ;

    /// The full Unicode uppercase conversion of the text.
    fn upper_case(&self) -> (r: String)
        ensures
            r@ == upper_of(self@),
    ;

    /// The segments of the text between occurrences of `separator_char`,
    /// in reverse order, still separated by `separator_char`.
    fn reverse_delimited(&self, separator_char: char) -> (r: String)
        ensures
            r@ == reverse_delimited_spec(self@, separator_char),
    ;

    /// The text rotated `shift` codepoints to the right; a negative shift
    /// rotates to the left, and rotation wraps around the text's length.
    fn rotate(&self, shift: isize) -> (r: String)
        ensures
            self@.len() == 0 ==> r@ == self@,
            self@.len() > 0 ==> r@ == ({
                let d = (shift as int) % (self@.len() as int);
                self@.skip(self@.len() - d) + self@.take(self@.len() - d)
            }),
    ;

    /// The text repeated `repeat` times.
    fn repeat(&self, repeat: usize) -> (r: String)
        ensures
            r@ == repeat_spec(self@, repeat as int),
    ;

    /// The text with its codepoints in reverse order.
    fn reverse(&self) -> (r: String)
        ensures
            r@ == self@.reverse(),
    ;

    /// How many times the codepoint `ch` occurs in the text.
    fn count_matches(&self, ch: char) -> (r: u64)
        ensures
            r as int == count_pred(self@, eq_char_pred(ch)),
    ;

    /// How many times `sub` occurs in the text, scanning left to right
    /// without overlap.
    fn count_matches_str(&self, sub: &str) -> (r: u64)
        ensures
            r as int == count_matches_spec(self@, sub@),
    ;

    /// The numeric codepoints of the text, in order.
    fn digits(&self) -> (r: String)
        ensures
            r@ == self@.filter(numeric_pred()),
    ;

    /// The text without its whitespace codepoints.
    fn delete_whitespace(&self) -> (r: String)
        ensures
            r@ == self@.filter(not_space_pred()),
    ;

    /// The text without every occurrence of the codepoint `remove`.
    fn remove_char(&self, remove: char) -> (r: String)
        ensures
            r@ == self@.filter(ne_char_pred(remove)),
    ;

    /// The text with every occurrence of the codepoint `search` replaced by
    /// `replace`.
    fn replace_chars(&self, search: char, replace: char) -> (r: String)
        ensures
            r@ == self@.map_values(replace_map(search, replace)),
    ;

    /// The text with each codepoint found in `search_chars` replaced by
    /// the codepoint of `replace_chars` at the same position, or deleted
    /// when `replace_chars` is too short.
    fn replace_chars_in(&self, search_chars: &str, replace_chars: &str) -> (r: String)
        ensures
            r@ == replace_chars_spec(self@, search_chars@, replace_chars@),
    ;

    /// The text with its first codepoint converted to uppercase.
    fn capitalize(&self) -> (r: String)
        ensures
            self@.len() == 0 ==> r@ == self@,
            self@.len() > 0 ==> r@ == upper_char_of(self@[0]) + self@.skip(1),
    ;

    /// The text with its first codepoint converted to lowercase.
    fn uncapitalize(&self) -> (r: String)
        ensures
            self@.len() == 0 ==> r@ == self@,
            self@.len() > 0 ==> r@ == lower_char_of(self@[0]) + self@.skip(1),
    ;

    /// The text with the letter case of every codepoint swapped.
    fn swap_case(&self) -> (r: String)
        ensures
            r@ == swap_case_spec(self@),
    ;

    /// The first position at which the text and `str2` differ, if any.
    fn index_of_difference(&self, str2: &str) -> (r: Option<usize>)
        ensures
            r matches Some(i) ==> first_diff_at(self@, str2@, i as int),
            r is None ==> self@ == str2@,
    ;

    /// The remainder of `str2` from the point where it begins to differ
    /// from the text; empty when they are equal.
    fn difference(&self, str2: &str) -> (r: String)
        ensures
            forall|i: int| #[trigger] first_diff_at(self@, str2@, i) ==> r@ == str2@.skip(i),
            self@ == str2@ ==> r@ == Seq::<char>::empty(),
    ;

    /// The text left-padded with spaces to `size` codepoints.
    fn left_pad(&self, size: usize) -> (r: String)
        ensures
            r@ == left_pad_spec(self@, size as int, seq![' ']),
    ;

    /// The text left-padded with `pad_char` to `size` codepoints.
    fn left_pad_with(&self, size: usize, pad_char: char) -> (r: String)
        ensures
            r@ == left_pad_spec(self@, size as int, seq![pad_char]),
    ;

    /// The text left-padded with `pad_str`, repeated cyclically, to `size`
    /// codepoints.
    fn left_pad_with_str(&self, size: usize, pad_str: &str) -> (r: String)
        ensures
            r@ == left_pad_spec(self@, size as int, pad_str@),
    ;

    /// The text right-padded with spaces to `size` codepoints.
    fn right_pad(&self, size: usize) -> (r: String)
        ensures
            r@ == right_pad_spec(self@, size as int, seq![' ']),
    ;

    /// The text right-padded with `pad_char` to `size` codepoints.
    fn right_pad_with(&self, size: usize, pad_char: char) -> (r: String)
        ensures
            r@ == right_pad_spec(self@, size as int, seq![pad_char]),
    ;

    /// The text right-padded with `pad_str`, repeated cyclically, to `size`
    /// codepoints.
    fn right_pad_with_str(&self, size: usize, pad_str: &str) -> (r: String)
        ensures
            r@ == right_pad_spec(self@, size as int, pad_str@),
    ;

    /// The text centered with spaces in a field of `size` codepoints.
    fn center(&self, size: usize) -> (r: String)
        ensures
            size <= self@.len() ==> r@ == self@,
            size > self@.len() ==> r@ == center_spec(self@, size as int, seq![' ']),
    ;

    /// The text centered with `pad_str` in a field of `size` codepoints.
    fn center_with(&self, size: usize, pad_str: &str) -> (r: String)
        ensures
            size <= self@.len() ==> r@ == self@,
            size > self@.len() ==> r@ == center_spec(self@, size as int, pad_str@),
    ;

    /// The text centered with `pad_char` in a field of `size` codepoints.
    fn center_with_char(&self, size: usize, pad_char: &str) -> (r: String)
        ensures
            size <= self@.len() ==> r@ == self@,
            size > self@.len() ==> r@ == center_spec(self@, size as int, pad_char@),
    ;

    /// The text without leading whitespace.
    fn strip_start(&self) -> (r: String)
        ensures
            r@ == trim_start_spec(self@, space_pred()),
    ;

    /// The text without trailing whitespace.
    fn strip_end(&self) -> (r: String)
        ensures
            r@ == trim_end_spec(self@, space_pred()),
    ;

    /// The text without leading or trailing whitespace.
    fn strip(&self) -> (r: String)
        ensures
            r@ == trim_spec(self@, space_pred()),
    ;

    /// The text without leading codepoints drawn from `strip_chars`.
    fn strip_start_in(&self, strip_chars: &str) -> (r: String)
        ensures
            r@ == trim_start_spec(self@, in_set_pred(strip_chars@)),
    ;

    /// The text without trailing codepoints drawn from `strip_chars`.
    fn strip_end_in(&self, strip_chars: &str) -> (r: String)
        ensures
            r@ == trim_end_spec(self@, in_set_pred(strip_chars@)),
    ;

    /// The text without leading or trailing codepoints drawn from
    /// `strip_chars`.
    fn strip_in(&self, strip_chars: &str) -> (r: String)
        ensures
            r@ == trim_spec(self@, in_set_pred(strip_chars@)),
    ;

    /// The text stripped of leading and trailing whitespace, with every
    /// interior run of whitespace collapsed to a single space.
    fn normalize_space(&self) -> (r: String)
        ensures
            r@ == collapse_space_spec(trim_spec(self@, space_pred())),
    ;

    /// The text without leading or trailing codepoints at or below the
    /// space character.
    fn trim(&self) -> (r: String)
        ensures
            r@ == trim_spec(self@, control_or_space_pred()),
    ;

    /// Abbreviates the text to at most `max_width` codepoints with the
    /// default marker `"..."` and a left-anchored window.
    fn abbreviate(&self, max_width: usize) -> (r: UtilsResult<String>)
        ensures
            ({
                let model = spec_abbreviate_full(self@, "..."@, 0, max_width as int);
                match r {
                    Ok(out) => model == Some(out@),
                    Err(e) => model is None && e is InvalidArgument,
                }
            }),
    ;

    /// Abbreviates the text to at most `max_width` codepoints with a
    /// caller-chosen marker and a left-anchored window.
    fn abbreviate_with_abbrev_marker(&self, abbrev_marker: &str, max_width: usize) -> (r:
        UtilsResult<String>)
        ensures
            ({
                let model = spec_abbreviate_full(self@, abbrev_marker@, 0, max_width as int);
                match r {
                    Ok(out) => model == Some(out@),
                    Err(e) => model is None && e is InvalidArgument,
                }
            }),
    ;

    /// Abbreviates the text to at most `max_width` codepoints, eliding
    /// content with `abbrev_marker` and keeping the window of interest
    /// around `offset` visible.
    fn abbreviate_with_full_opt(&self, abbrev_marker: &str, offset: isize, max_width: usize) -> (r:
        UtilsResult<String>)
        ensures
            ({
                let model = spec_abbreviate_full(
                    self@,
                    abbrev_marker@,
                    offset as int,
                    max_width as int,
                );
                match r {
                    Ok(out) => model == Some(out@),
                    Err(e) => model is None && e is InvalidArgument,
                }
            }),
    ;

    /// Abbreviates the text with the default marker and a window centered
    /// around `offset`.
    fn abbreviate_with_offset(&self, offset: isize, max_width: usize) -> (r: UtilsResult<String>)
        ensures
            ({
                let model = spec_abbreviate_full(self@, "..."@, offset as int, max_width as int);
                match r {
                    Ok(out) => model == Some(out@),
                    Err(e) => model is None && e is InvalidArgument,
                }
            }),
    ;

    /// Lexicographic comparison by codepoint: negative when the text orders
    /// before `str2`, zero when they are equal, positive otherwise.
    fn compare(&self, str2: &str) -> (r: i32)
        ensures
            r as int == compare_spec(self@, str2@),
    ;

    /// Lexicographic comparison by ASCII-case-folded codepoint.
    fn compare_ignore_case(&self, str2: &str) -> (r: i32)
        ensures
            r as int == compare_spec(fold_seq(self@), fold_seq(str2@)),
    ;

    /// The text with `suffix` appended when it does not already end with
    /// it, comparing case-sensitively or ASCII-case-folded as requested.
    fn append_if_missing(&self, suffix: &str, ignore_case: bool) -> (r: String)
        ensures
            !ignore_case && seq_ends_with(self@, suffix@) ==> r@ == self@,
            !ignore_case && !seq_ends_with(self@, suffix@) ==> r@ == self@ + suffix@,
            ignore_case && seq_ends_with(fold_seq(self@), fold_seq(suffix@)) ==> r@ == self@,
            ignore_case && !seq_ends_with(fold_seq(self@), fold_seq(suffix@)) ==> r@ == self@
                + suffix@,
    ;

    /// The text with `suffix` appended unless it already ends with `suffix`
    /// or with one of `suffixes`.
    fn append_if_missing_one_of(&self, suffix: &str, suffixes: &[&str], ignore_case: bool) -> (r:
        String)
        ensures
            ({
                let keep = if ignore_case {
                    seq_ends_with(fold_seq(self@), fold_seq(suffix@)) || exists|i: int|
                        0 <= i < suffixes@.len() && seq_ends_with(
                            fold_seq(self@),
                            fold_seq((#[trigger] suffixes@[i])@),
                        )
                } else {
                    seq_ends_with(self@, suffix@) || exists|i: int|
                        0 <= i < suffixes@.len() && seq_ends_with(
                            self@,
                            (#[trigger] suffixes@[i])@,
                        )
                };
                if keep {
                    r@ == self@
                } else {
                    r@ == self@ + suffix@
                }
            }),
    ;

    /// The text with `prefix` prepended when it does not already begin with
    /// it, comparing case-sensitively or ASCII-case-folded as requested.
    fn prepend_if_missing(&self, prefix: &str, ignore_case: bool) -> (r: String)
        ensures
            !ignore_case && seq_starts_with(self@, prefix@) ==> r@ == self@,
            !ignore_case && !seq_starts_with(self@, prefix@) ==> r@ == prefix@ + self@,
            ignore_case && seq_starts_with(fold_seq(self@), fold_seq(prefix@)) ==> r@ == self@,
            ignore_case && !seq_starts_with(fold_seq(self@), fold_seq(prefix@)) ==> r@ == prefix@
                + self@,
    ;

    /// The text with `prefix` prepended unless it already begins with
    /// `prefix` or with one of `prefixes`.
    fn prepend_if_missing_one_of(&self, prefix: &str, prefixes: &[&str], ignore_case: bool) -> (r:
        String)
        ensures
            ({
                let keep = if ignore_case {
                    seq_starts_with(fold_seq(self@), fold_seq(prefix@)) || exists|i: int|
                        0 <= i < prefixes@.len() && seq_starts_with(
                            fold_seq(self@),
                            fold_seq((#[trigger] prefixes@[i])@),
                        )
                } else {
                    seq_starts_with(self@, prefix@) || exists|i: int|
                        0 <= i < prefixes@.len() && seq_starts_with(
                            self@,
                            (#[trigger] prefixes@[i])@,
                        )
                };
                if keep {
                    r@ == self@
                } else {
                    r@ == prefix@ + self@
                }
            }),
    ;

    /// The text with each occurrence of a string of `search_list` replaced
    /// by the corresponding string of `replace_list`, scanning left to
    /// right without rescanning replaced text.  The two lists must have the
    /// same length.
    fn replace_each(&self, search_list: &[&str], replace_list: &[&str]) -> (r: UtilsResult<String>)
        ensures
            match r {
                Ok(out) => search_list@.len() == replace_list@.len() && out@ == replace_each_spec(
                    self@,
                    search_list.deep_view(),
                    replace_list.deep_view(),
                ),
                Err(e) => search_list@.len() != replace_list@.len() && e is InvalidArgument,
            },
    ;

    /// [`Self::replace_each`] applied repeatedly — up to `time_to_live`
    /// times, or as many times as there are search strings when none is
    /// given — until a pass changes nothing; fails when the budget runs out
    /// while passes still produce new matches.
    fn replace_each_repeatedly(
        &self,
        search_list: &[&str],
        replace_list: &[&str],
        time_to_live: Option<usize>,
    ) -> (r: UtilsResult<String>)
        ensures
            ({
                let sv = search_list.deep_view();
                let rv = replace_list.deep_view();
                let ttl = (match time_to_live {
                    Some(t) => t as int,
                    None => search_list@.len() as int,
                });
                match r {
                    Ok(out) => search_list@.len() == replace_list@.len() && out@
                        == replace_each_rep_spec(self@, sv, rv, ttl) && replace_each_spec(
                        out@,
                        sv,
                        rv,
                    ) == out@,
                    Err(e) => e is InvalidArgument && (search_list@.len() != replace_list@.len()
                        || replace_each_spec(replace_each_rep_spec(self@, sv, rv, ttl), sv, rv)
                        != replace_each_rep_spec(self@, sv, rv, ttl)),
                }
            }),
    ;

    /// Shortens the text to `length` codepoints by replacing its middle
    /// with `middle`; texts that already fit, or widths with no room for
    /// the replacement plus one codepoint on each side, are left alone.
    fn abbreviate_middle(&self, middle: &str, length: usize) -> (r: UtilsResult<String>)
        ensures
            r matches Ok(out) && ({
                let n = self@.len() as int;
                let m = middle@.len() as int;
                if n > 0 && m > 0 && (length as int) < n && length as int >= m + 2 {
                    let target = length - m;
                    out@ == self@.take(target / 2 + target % 2) + middle@ + self@.skip(
                        n - target / 2,
                    )
                } else {
                    out@ == self@
                }
            }),
    ;
}

/// Batch helpers over collections of strings.
pub struct StringUtils;

/// `i` is the position of the first string in `values` that is not blank.
pub open spec fn first_non_blank_at(values: Seq<&str>, i: int) -> bool {
    0 <= i < values.len() && !is_blank_seq((values[i])@) && forall|j: int|
        0 <= j < i ==> is_blank_seq((#[trigger] values[j])@)
}

/// `i` is the position of the first string in `values` that is not empty.
pub open spec fn first_non_empty_at(values: Seq<&str>, i: int) -> bool {
    0 <= i < values.len() && (values[i])@.len() != 0 && forall|j: int|
        0 <= j < i ==> (#[trigger] values[j])@.len() == 0
}

/// `p` is a common prefix of every string in `values`.
pub open spec fn common_prefix_of(values: Seq<&str>, p: Seq<char>) -> bool {
    forall|i: int| 0 <= i < values.len() ==> seq_starts_with((#[trigger] values[i])@, p)
}

/// The text is non-empty and every codepoint is lowercase.
pub open spec fn all_lower_seq(s: Seq<char>) -> bool {
    s.len() > 0 && forall|i: int| 0 <= i < s.len() ==> lowercase_char(#[trigger] s[i])
}

/// The text is non-empty and every codepoint is uppercase.
pub open spec fn all_upper_seq(s: Seq<char>) -> bool {
    s.len() > 0 && forall|i: int| 0 <= i < s.len() ==> uppercase_char(#[trigger] s[i])
}

/// The strings of `values` joined with `sep` between each adjacent pair.
pub open spec fn join_spec(values: Seq<&str>, sep: Seq<char>) -> Seq<char>
    decreases values.len(),
{
    if values.len() == 0 {
        Seq::empty()
    } else if values.len() == 1 {
        (values[0])@
    } else {
        join_spec(values.drop_last(), sep) + sep + (values.last())@
    }
}

/// The text is non-empty and every codepoint is lowercase.
fn str_all_lower(s: &str) -> (r: bool)
    ensures
        r == all_lower_seq(s@),
{
    let n = s.unicode_len();
    if n == 0 {
        return false;
    }
    let mut i: usize = 0;
    while i < n
        invariant
            i <= n,
            n == s@.len(),
            forall|j: int| 0 <= j < i ==> lowercase_char(#[trigger] s@[j]),
        decreases n - i,
    {
        if !s.get_char(i).is_lowercase() {
            return false;
        }
        i += 1;
    }
    true
}

/// The text is non-empty and every codepoint is uppercase.
fn str_all_upper(s: &str) -> (r: bool)
    ensures
        r == all_upper_seq(s@),
{
    let n = s.unicode_len();
    if n == 0 {
        return false;
    }
    let mut i: usize = 0;
    while i < n
        invariant
            i <= n,
            n == s@.len(),
            forall|j: int| 0 <= j < i ==> uppercase_char(#[trigger] s@[j]),
        decreases n - i,
    {
        if !s.get_char(i).is_uppercase() {
            return false;
        }
        i += 1;
    }
    true
}

impl StringUtils {
    /// The first string of `values` that is not blank; empty when every one
    /// is blank.
    pub fn first_non_blank<'a>(values: &[&'a str]) -> (r: &'a str)
        ensures
            (forall|i: int| 0 <= i < values@.len() ==> is_blank_seq((#[trigger] values@[i])@))
                ==> r@ == Seq::<char>::empty(),
            forall|i: int| #[trigger] first_non_blank_at(values@, i) ==> r@ == (values@[i])@,
    {
        let n = values.len();
        let mut i: usize = 0;
        while i < n
            invariant
                i <= n,
                n == values@.len(),
                forall|j: int| 0 <= j < i ==> is_blank_seq((#[trigger] values@[j])@),
            decreases n - i,
        {
            if StringUtilsExt::is_not_blank(values[i]) {
                let r = values[i];
                proof {
                    assert forall|k: int| #[trigger] first_non_blank_at(values@, k) implies r@ == (
                    values@[k])@ by {
                        if k < i {
                            assert(is_blank_seq((values@[k])@));
                        }
                        if k > i {
                            assert(is_blank_seq((values@[i as int])@));
                        }
                    }
                }
                return r;
            }
            i += 1;
        }
        proof {
            reveal_strlit("");
        }
        ""
    }

    /// The first string of `values` that is not empty; empty when every one
    /// is empty.
    pub fn first_non_empty<'a>(values: &[&'a str]) -> (r: &'a str)
        ensures
            (forall|i: int| 0 <= i < values@.len() ==> (#[trigger] values@[i])@.len() == 0) ==> r@
                == Seq::<char>::empty(),
            forall|i: int| #[trigger] first_non_empty_at(values@, i) ==> r@ == (values@[i])@,
    {
        let n = values.len();
        let mut i: usize = 0;
        while i < n
            invariant
                i <= n,
                n == values@.len(),
                forall|j: int| 0 <= j < i ==> (#[trigger] values@[j])@.len() == 0,
            decreases n - i,
        {
            if !str::is_empty(values[i]) {
                let r = values[i];
                proof {
                    assert forall|k: int| #[trigger] first_non_empty_at(values@, k) implies r@ == (
                    values@[k])@ by {
                        if k > i {
                            assert((values@[i as int])@.len() == 0);
                        }
                    }
                }
                return r;
            }
            i += 1;
        }
        proof {
            reveal_strlit("");
        }
        ""
    }

    /// The longest common prefix of the given strings; empty for an empty
    /// collection.
    pub fn get_common_prefix(strs: &[&str]) -> (r: String)
        ensures
            strs@.len() == 0 ==> r@ == Seq::<char>::empty(),
            strs@.len() > 0 ==> common_prefix_of(strs@, r@),
            strs@.len() > 0 ==> (r@.len() == (strs@[0])@.len() || exists|i: int|
                0 <= i < strs@.len() && !seq_starts_with(
                    (#[trigger] strs@[i])@,
                    (strs@[0])@.take(r@.len() as int + 1),
                )),
    {
        let n = strs.len();
        if n == 0 {
            return String::new();
        }
        let first = strs[0];
        let len0 = first.unicode_len();
        let mut k = len0;
        let ghost mut w: int = 0;
        let mut i: usize = 1;
        while i < n
            invariant
                1 <= i <= n,
                n == strs@.len(),
                k <= len0,
                len0 == (strs@[0])@.len(),
                first == strs@[0],
                forall|j: int| 0 <= j < i ==> k <= (#[trigger] strs@[j])@.len(),
                forall|j: int, l: int|
                    0 <= j < i && 0 <= l < k ==> #[trigger] (strs@[j])@[l] == (strs@[0])@[l],
                k == len0 || (0 <= w < i && ((strs@[w])@.len() == k || (k < (strs@[w])@.len() && k
                    < len0 && (strs@[w])@[k as int] != (strs@[0])@[k as int]))),
            decreases n - i,
        {
            match StringUtilsExt::index_of_difference(first, strs[i]) {
                Some(d) => {
                    if d < k {
                        k = d;
                        proof {
                            w = i as int;
                        }
                    }
                },
                None => {},
            }
            i += 1;
        }
        let out = first.substring_char(0, k).to_owned();
        proof {
            assert forall|j: int| 0 <= j < n implies seq_starts_with(
                (#[trigger] strs@[j])@,
                out@,
            ) by {
                assert((strs@[j])@.take(k as int) =~= (strs@[0])@.take(k as int));
            }
            if k < len0 {
                if (strs@[w])@.len() != k {
                    assert((strs@[w])@.take(k + 1)[k as int] == (strs@[w])@[k as int]);
                    assert(((strs@[0])@.take(k + 1))[k as int] == (strs@[0])@[k as int]);
                }
                assert(!seq_starts_with((strs@[w])@, (strs@[0])@.take(k + 1)));
            }
        }
        out
    }

    /// The position at which the given strings begin to differ; `None` when
    /// they are all equal or fewer than two were given.
    pub fn index_of_difference(values: &[&str]) -> (r: Option<usize>)
        ensures
            r is None ==> values@.len() <= 1 || forall|i: int|
                0 <= i < values@.len() ==> (#[trigger] values@[i])@ == (values@[0])@,
            r matches Some(k) ==> values@.len() > 1 && k <= (values@[0])@.len()
                && common_prefix_of(values@, (values@[0])@.take(k as int)) && (exists|i: int|
                0 <= i < values@.len() && ((#[trigger] values@[i])@.len() == k || (k < (
                values@[i])@.len() && k < (values@[0])@.len() && (values@[i])@[k as int] != (
                values@[0])@[k as int]))) && (exists|i: int|
                0 <= i < values@.len() && (#[trigger] values@[i])@ != (values@[0])@),
    {
        let n = values.len();
        if n <= 1 {
            return None;
        }
        let first = values[0];
        let len0 = first.unicode_len();
        let mut k = len0;
        let ghost mut w: int = 0;
        let mut all_eq = true;
        let mut i: usize = 1;
        while i < n
            invariant
                1 <= i <= n,
                n == values@.len(),
                k <= len0,
                len0 == (values@[0])@.len(),
                first == values@[0],
                forall|j: int| 0 <= j < i ==> k <= (#[trigger] values@[j])@.len(),
                forall|j: int, l: int|
                    0 <= j < i && 0 <= l < k ==> #[trigger] (values@[j])@[l] == (values@[0])@[l],
                k == len0 || (0 <= w < i && ((values@[w])@.len() == k || (k < (values@[w])@.len()
                    && k < len0 && (values@[w])@[k as int] != (values@[0])@[k as int]))),
                all_eq == forall|j: int|
                    0 <= j < i ==> (#[trigger] values@[j])@ == (values@[0])@,
            decreases n - i,
        {
            match StringUtilsExt::index_of_difference(first, values[i]) {
                Some(d) => {
                    proof {
                        if d < (values@[0])@.len() && d < (values@[i as int])@.len() {
                            assert((values@[i as int])@ != (values@[0])@);
                        } else {
                            assert((values@[i as int])@.len() != (values@[0])@.len());
                        }
                    }
                    all_eq = false;
                    if d < k {
                        k = d;
                        proof {
                            w = i as int;
                        }
                    }
                },
                None => {},
            }
            i += 1;
        }
        if all_eq {
            None
        } else {
            proof {
                assert forall|j: int| 0 <= j < n implies seq_starts_with(
                    (#[trigger] values@[j])@,
                    (values@[0])@.take(k as int),
                ) by {
                    assert((values@[j])@.take(k as int) =~= (values@[0])@.take(k as int));
                }
            }
            Some(k)
        }
    }

    /// Whether every string of `values` is blank; an empty collection
    /// qualifies.
    pub fn is_all_blank(values: &[&str]) -> (r: bool)
        ensures
            r == forall|i: int|
                0 <= i < values@.len() ==> is_blank_seq((#[trigger] values@[i])@),
    {
        let n = values.len();
        let mut i: usize = 0;
        while i < n
            invariant
                i <= n,
                n == values@.len(),
                forall|j: int| 0 <= j < i ==> is_blank_seq((#[trigger] values@[j])@),
            decreases n - i,
        {
            if StringUtilsExt::is_not_blank(values[i]) {
                return false;
            }
            i += 1;
        }
        true
    }

    /// Whether every string of `values` is empty; an empty collection
    /// qualifies.
    pub fn is_all_empty(values: &[&str]) -> (r: bool)
        ensures
            r == forall|i: int| 0 <= i < values@.len() ==> (#[trigger] values@[i])@.len() == 0,
    {
        let n = values.len();
        let mut i: usize = 0;
        while i < n
            invariant
                i <= n,
                n == values@.len(),
                forall|j: int| 0 <= j < i ==> (#[trigger] values@[j])@.len() == 0,
            decreases n - i,
        {
            if !str::is_empty(values[i]) {
                return false;
            }
            i += 1;
        }
        true
    }

    /// Whether every string of `values` is non-empty and entirely
    /// lowercase; an empty collection qualifies.
    pub fn is_all_lower_case(values: &[&str]) -> (r: bool)
        ensures
            r == forall|i: int| 0 <= i < values@.len() ==> all_lower_seq((#[trigger] values@[i])@),
    {
        let n = values.len();
        let mut i: usize = 0;
        while i < n
            invariant
                i <= n,
                n == values@.len(),
                forall|j: int| 0 <= j < i ==> all_lower_seq((#[trigger] values@[j])@),
            decreases n - i,
        {
            if !str_all_lower(values[i]) {
                return false;
            }
            i += 1;
        }
        true
    }

    /// Whether every string of `values` is non-empty and entirely
    /// uppercase; an empty collection qualifies.
    pub fn is_all_upper_case(values: &[&str]) -> (r: bool)
        ensures
            r == forall|i: int| 0 <= i < values@.len() ==> all_upper_seq((#[trigger] values@[i])@),
    {
        let n = values.len();
        let mut i: usize = 0;
        while i < n
            invariant
                i <= n,
                n == values@.len(),
                forall|j: int| 0 <= j < i ==> all_upper_seq((#[trigger] values@[j])@),
            decreases n - i,
        {
            if !str_all_upper(values[i]) {
                return false;
            }
            i += 1;
        }
        true
    }

    /// Whether at least one string of `values` is blank.
    pub fn is_any_blank(values: &[&str]) -> (r: bool)
        ensures
            r == exists|i: int| 0 <= i < values@.len() && is_blank_seq((#[trigger] values@[i])@),
    {
        let n = values.len();
        let mut i: usize = 0;
        while i < n
            invariant
                i <= n,
                n == values@.len(),
                forall|j: int| 0 <= j < i ==> !is_blank_seq((#[trigger] values@[j])@),
            decreases n - i,
        {
            if StringUtilsExt::is_blank(values[i]) {
                return true;
            }
            i += 1;
        }
        false
    }

    /// Whether at least one string of `values` is empty.
    pub fn is_any_empty(values: &[&str]) -> (r: bool)
        ensures
            r == exists|i: int| 0 <= i < values@.len() && (#[trigger] values@[i])@.len() == 0,
    {
        let n = values.len();
        let mut i: usize = 0;
        while i < n
            invariant
                i <= n,
                n == values@.len(),
                forall|j: int| 0 <= j < i ==> (#[trigger] values@[j])@.len() != 0,
            decreases n - i,
        {
            if str::is_empty(values[i]) {
                return true;
            }
            i += 1;
        }
        false
    }

    /// Whether no string of `values` is blank.
    pub fn is_none_blank(values: &[&str]) -> (r: bool)
        ensures
            r == forall|i: int|
                0 <= i < values@.len() ==> !is_blank_seq((#[trigger] values@[i])@),
    {
        !StringUtils::is_any_blank(values)
    }

    /// Whether no string of `values` is empty.
    pub fn is_none_empty(values: &[&str]) -> (r: bool)
        ensures
            r == forall|i: int| 0 <= i < values@.len() ==> (#[trigger] values@[i])@.len() != 0,
    {
        !StringUtils::is_any_empty(values)
    }

    /// The strings of `array` joined with the codepoint `separator` between
    /// each adjacent pair.
    pub fn join(array: &[&str], separator: char) -> (r: String)
        ensures
            r@ == join_spec(array@, seq![separator]),
    {
        let n = array.len();
        let mut out = String::new();
        let mut i: usize = 0;
        while i < n
            invariant
                i <= n,
                n == array@.len(),
                out@ == join_spec(array@.take(i as int), seq![separator]),
            decreases n - i,
        {
            proof {
                assert(array@.take(i + 1).drop_last() =~= array@.take(i as int));
            }
            if i > 0 {
                out.push(separator);
            }
            out.append(array[i]);
            proof {
                assert(out@ =~= join_spec(array@.take(i + 1), seq![separator]));
            }
            i += 1;
        }
        proof {
            assert(array@.take(n as int) =~= array@);
        }
        out
    }

    /// The strings of `array` joined with `separator` between each adjacent
    /// pair.
    pub fn join_with_str(array: &[&str], separator: &str) -> (r: String)
        ensures
            r@ == join_spec(array@, separator@),
    {
        let n = array.len();
        let mut out = String::new();
        let mut i: usize = 0;
        while i < n
            invariant
                i <= n,
                n == array@.len(),
                out@ == join_spec(array@.take(i as int), separator@),
            decreases n - i,
        {
            proof {
                assert(array@.take(i + 1).drop_last() =~= array@.take(i as int));
            }
            if i > 0 {
                out.append(separator);
            }
            out.append(array[i]);
            proof {
                assert(out@ =~= join_spec(array@.take(i + 1), separator@));
            }
            i += 1;
        }
        proof {
            assert(array@.take(n as int) =~= array@);
        }
        out
    }

    /// The strings of `array` with positions in `[start_index, end_index)`
    /// joined with the codepoint `delimiter`.
    pub fn join_in_range(array: &[&str], delimiter: char, start_index: usize, end_index: usize) -> (
    r: String)
        requires
            start_index <= end_index <= array@.len(),
        ensures
            r@ == join_spec(array@.subrange(start_index as int, end_index as int), seq![delimiter]),
    {
        let mut out = String::new();
        let mut i: usize = start_index;
        while i < end_index
            invariant
                start_index <= i <= end_index <= array@.len(),
                out@ == join_spec(
                    array@.subrange(start_index as int, i as int),
                    seq![delimiter],
                ),
            decreases end_index - i,
        {
            proof {
                assert(array@.subrange(start_index as int, i + 1).drop_last() =~= array@.subrange(
                    start_index as int,
                    i as int,
                ));
            }
            if i > start_index {
                out.push(delimiter);
            }
            out.append(array[i]);
            proof {
                assert(out@ =~= join_spec(
                    array@.subrange(start_index as int, i + 1),
                    seq![delimiter],
                ));
            }
            i += 1;
        }
        out
    }

    /// The strings of `array` with positions in `[start_index, end_index)`
    /// joined with `separator`.
    pub fn join_in_range_with_str(
        array: &[&str],
        separator: &str,
        start_index: usize,
        end_index: usize,
    ) -> (r: String)
        requires
            start_index <= end_index <= array@.len(),
        ensures
            r@ == join_spec(array@.subrange(start_index as int, end_index as int), separator@),
    {
        let mut out = String::new();
        let mut i: usize = start_index;
        while i < end_index
            invariant
                start_index <= i <= end_index <= array@.len(),
                out@ == join_spec(array@.subrange(start_index as int, i as int), separator@),
            decreases end_index - i,
        {
            proof {
                assert(array@.subrange(start_index as int, i + 1).drop_last() =~= array@.subrange(
                    start_index as int,
                    i as int,
                ));
            }
            if i > start_index {
                out.append(separator);
            }
            out.append(array[i]);
            proof {
                assert(out@ =~= join_spec(array@.subrange(start_index as int, i + 1), separator@));
            }
            i += 1;
        }
        out
    }

    /// Every string of `values` stripped of leading and trailing
    /// whitespace.
    pub fn strip_all(values: &[&str]) -> (r: Vec<String>)
        ensures
            r@.len() == values@.len(),
            forall|i: int|
                0 <= i < values@.len() ==> (#[trigger] r@[i])@ == trim_spec(
                    (values@[i])@,
                    space_pred(),
                ),
    {
        let n = values.len();
        let mut out: Vec<String> = Vec::new();
        let mut i: usize = 0;
        while i < n
            invariant
                i <= n,
                n == values@.len(),
                out@.len() == i,
                forall|k: int|
                    0 <= k < i ==> (#[trigger] out@[k])@ == trim_spec(
                        (values@[k])@,
                        space_pred(),
                    ),
            decreases n - i,
        {
            out.push(StringUtilsExt::strip(values[i]));
            i += 1;
        }
        out
    }

    /// Every string of `values` stripped of leading and trailing codepoints
    /// drawn from `strip_chars`.
    pub fn strip_all_in(values: &[&str], strip_chars: &str) -> (r: Vec<String>)
        ensures
            r@.len() == values@.len(),
            forall|i: int|
                0 <= i < values@.len() ==> (#[trigger] r@[i])@ == trim_spec(
                    (values@[i])@,
                    in_set_pred(strip_chars@),
                ),
    {
        let n = values.len();
        let mut out: Vec<String> = Vec::new();
        let mut i: usize = 0;
        while i < n
            invariant
                i <= n,
                n == values@.len(),
                out@.len() == i,
                forall|k: int|
                    0 <= k < i ==> (#[trigger] out@[k])@ == trim_spec(
                        (values@[k])@,
                        in_set_pred(strip_chars@),
                    ),
            decreases n - i,
        {
            out.push(StringUtilsExt::strip_in(values[i], strip_chars));
            i += 1;
        }
        out
    }
}

} // verus!
