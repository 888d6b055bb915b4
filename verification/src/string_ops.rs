//! The catalogue implemented for `String`: each operation borrows the slice
//! and delegates to the `str` implementation, inheriting the same contract.

use std::ops::Range;

use vstd::prelude::*;

use crate::error::UtilsResult;
use crate::string_utils::StringUtilsExt;

verus! {

impl StringUtilsExt for String {
    fn is_empty(&self) -> (r: bool) {
        StringUtilsExt::is_empty(self.as_str())
    }

    fn is_not_empty(&self) -> (r: bool) {
        StringUtilsExt::is_not_empty(self.as_str())
    }

    fn is_blank(&self) -> (r: bool) {
        StringUtilsExt::is_blank(self.as_str())
    }

    fn is_not_blank(&self) -> (r: bool) {
        StringUtilsExt::is_not_blank(self.as_str())
    }

    fn is_whitespace(&self) -> (r: bool) {
        StringUtilsExt::is_whitespace(self.as_str())
    }

    fn is_ascii_printable(&self) -> (r: bool) {
        StringUtilsExt::is_ascii_printable(self.as_str())
    }

    fn is_alpha(&self) -> (r: bool) {
        StringUtilsExt::is_alpha(self.as_str())
    }

    fn is_alphanumeric(&self) -> (r: bool) {
        StringUtilsExt::is_alphanumeric(self.as_str())
    }

    fn is_alphanumeric_space(&self) -> (r: bool) {
        StringUtilsExt::is_alphanumeric_space(self.as_str())
    }

    fn is_alpha_space(&self) -> (r: bool) {
        StringUtilsExt::is_alpha_space(self.as_str())
    }

    fn is_numeric(&self) -> (r: bool) {
        StringUtilsExt::is_numeric(self.as_str())
    }

    fn is_numeric_space(&self) -> (r: bool) {
        StringUtilsExt::is_numeric_space(self.as_str())
    }

    fn is_mixed_case(&self) -> (r: bool) {
        StringUtilsExt::is_mixed_case(self.as_str())
    }

    fn equals(&self, str2: &str) -> (r: bool) {
        StringUtilsExt::equals(self.as_str(), str2)
    }

    fn equals_ignore_case(&self, str2: &str) -> (r: bool) {
        StringUtilsExt::equals_ignore_case(self.as_str(), str2)
    }

    fn equals_any(&self, searches: &[&str]) -> (r: bool) {
        StringUtilsExt::equals_any(self.as_str(), searches)
    }

    fn equals_any_ignore_case(&self, searches: &[&str]) -> (r: bool) {
        StringUtilsExt::equals_any_ignore_case(self.as_str(), searches)
    }

    fn contains(&self, search: &str) -> (r: bool) {
        StringUtilsExt::contains(self.as_str(), search)
    }

    fn contains_char(&self, search_char: char) -> (r: bool) {
        StringUtilsExt::contains_char(self.as_str(), search_char)
    }

    fn contains_ignore_case(&self, search: &str) -> (r: bool) {
        StringUtilsExt::contains_ignore_case(self.as_str(), search)
    }

    fn contains_any(&self, searches: &[&str]) -> (r: bool) {
        StringUtilsExt::contains_any(self.as_str(), searches)
    }

    fn contains_any_char(&self, searches: &[char]) -> (r: bool) {
        StringUtilsExt::contains_any_char(self.as_str(), searches)
    }

    fn contains_any_in(&self, searches_str: &str) -> (r: bool) {
        StringUtilsExt::contains_any_in(self.as_str(), searches_str)
    }

    fn contains_any_ignore_case(&self, searches: &[&str]) -> (r: bool) {
        StringUtilsExt::contains_any_ignore_case(self.as_str(), searches)
    }

    fn contains_none(&self, searches: &[char]) -> (r: bool) {
        StringUtilsExt::contains_none(self.as_str(), searches)
    }

    fn contains_none_in(&self, invalid_chars: &str) -> (r: bool) {
        StringUtilsExt::contains_none_in(self.as_str(), invalid_chars)
    }

    fn contains_only(&self, valid: &[char]) -> (r: bool) {
        StringUtilsExt::contains_only(self.as_str(), valid)
    }

    fn contains_only_in(&self, valid_chars: &str) -> (r: bool) {
        StringUtilsExt::contains_only_in(self.as_str(), valid_chars)
    }

    fn contains_whitespace(&self) -> (r: bool) {
        StringUtilsExt::contains_whitespace(self.as_str())
    }

    fn if_empty<T: Fn() -> String>(&self, default_supplier: T) -> (r: String) {
        StringUtilsExt::if_empty(self.as_str(), default_supplier)
    }

    fn if_blank<T: Fn() -> String>(&self, default_supplier: T) -> (r: String) {
        StringUtilsExt::if_blank(self.as_str(), default_supplier)
    }

    fn index_of(&self, search: &str) -> (r: Option<usize>) {
        StringUtilsExt::index_of(self.as_str(), search)
    }

    fn index_of_starting_from(&self, search: &str, start_pos: usize) -> (r: Option<usize>) {
        StringUtilsExt::index_of_starting_from(self.as_str(), search, start_pos)
    }

    fn index_of_ignore_case(&self, search: &str) -> (r: Option<usize>) {
        StringUtilsExt::index_of_ignore_case(self.as_str(), search)
    }

    fn index_of_ignore_case_starting_from(&self, search: &str, start_pos: usize) -> (r: Option<
        usize,
    >) {
        StringUtilsExt::index_of_ignore_case_starting_from(self.as_str(), search, start_pos)
    }

    fn index_of_char(&self, search_char: char) -> (r: Option<usize>) {
        StringUtilsExt::index_of_char(self.as_str(), search_char)
    }

    fn index_of_char_starting_from(&self, search_char: char, start_pos: usize) -> (r: Option<
        usize,
    >) {
        StringUtilsExt::index_of_char_starting_from(self.as_str(), search_char, start_pos)
    }

    fn last_index_of(&self, search: &str) -> (r: Option<usize>) {
        StringUtilsExt::last_index_of(self.as_str(), search)
    }

    fn last_index_of_starting_from(&self, search: &str, start_pos: usize) -> (r: Option<usize>) {
        StringUtilsExt::last_index_of_starting_from(self.as_str(), search, start_pos)
    }

    fn last_index_of_ignore_case(&self, search: &str) -> (r: Option<usize>) {
        StringUtilsExt::last_index_of_ignore_case(self.as_str(), search)
    }

    fn last_index_of_ignore_case_starting_from(&self, search: &str, start_pos: usize) -> (r:
        Option<usize>) {
        StringUtilsExt::last_index_of_ignore_case_starting_from(self.as_str(), search, start_pos)
    }

    fn last_index_of_char(&self, search_char: char) -> (r: Option<usize>) {
        StringUtilsExt::last_index_of_char(self.as_str(), search_char)
    }

    fn last_index_of_char_starting_from(&self, search_char: char, start_pos: usize) -> (r: Option<
        usize,
    >) {
        StringUtilsExt::last_index_of_char_starting_from(self.as_str(), search_char, start_pos)
    }

    fn index_of_any(&self, searches: &[&str]) -> (r: Option<usize>) {
        StringUtilsExt::index_of_any(self.as_str(), searches)
    }

    fn last_index_of_any(&self, searches: &[&str]) -> (r: Option<usize>) {
        StringUtilsExt::last_index_of_any(self.as_str(), searches)
    }

    fn ordinal_index_of(&self, search: &str, ordinal: usize) -> (r: Option<usize>) {
        StringUtilsExt::ordinal_index_of(self.as_str(), search, ordinal)
    }

    fn last_ordinal_index_of(&self, search: &str, ordinal: usize) -> (r: Option<usize>) {
        StringUtilsExt::last_ordinal_index_of(self.as_str(), search, ordinal)
    }

    fn index_of_any_char(&self, search_chars: &[char]) -> (r: Option<usize>) {
        StringUtilsExt::index_of_any_char(self.as_str(), search_chars)
    }

    fn index_of_any_in(&self, search_chars: &str) -> (r: Option<usize>) {
        StringUtilsExt::index_of_any_in(self.as_str(), search_chars)
    }

    fn index_of_any_but(&self, search_chars: &[char]) -> (r: Option<usize>) {
        StringUtilsExt::index_of_any_but(self.as_str(), search_chars)
    }

    fn index_of_any_but_in(&self, search_chars: &str) -> (r: Option<usize>) {
        StringUtilsExt::index_of_any_but_in(self.as_str(), search_chars)
    }

    fn starts_with(&self, prefix: &str, ignore_case: bool) -> (r: bool) {
        StringUtilsExt::starts_with(self.as_str(), prefix, ignore_case)
    }

    fn starts_with_any(&self, prefixes: &[&str]) -> (r: bool) {
        StringUtilsExt::starts_with_any(self.as_str(), prefixes)
    }

    fn end_with(&self, suffix: &str, ignore_case: bool) -> (r: bool) {
        StringUtilsExt::end_with(self.as_str(), suffix, ignore_case)
    }

    fn end_with_any(&self, searches: &[&str]) -> (r: bool) {
        StringUtilsExt::end_with_any(self.as_str(), searches)
    }

    fn end_with_consider_case(&self, suffix: &str) -> (r: bool) {
        StringUtilsExt::end_with_consider_case(self.as_str(), suffix)
    }

    fn end_with_ignore_case(&self, suffix: &str) -> (r: bool) {
        StringUtilsExt::end_with_ignore_case(self.as_str(), suffix)
    }

    fn left(&self, len: usize) -> (r: String) {
        StringUtilsExt::left(self.as_str(), len)
    }

    fn reverse_delimited(&self, separator_char: char) -> (r: String) {
        StringUtilsExt::reverse_delimited(self.as_str(), separator_char)
    }

    fn right(&self, len: usize) -> (r: String) {
        StringUtilsExt::right(self.as_str(), len)
    }

    fn mid(&self, pos: usize, len: usize) -> (r: String) {
        StringUtilsExt::mid(self.as_str(), pos, len)
    }

    fn substring(&self, range: Range<usize>) -> (r: String) {
        StringUtilsExt::substring(self.as_str(), range)
    }

    fn truncate(&self, max_width: usize) -> (r: String) {
        StringUtilsExt::truncate(self.as_str(), max_width)
    }

    fn truncate_with_offset(&self, offset: usize, max_width: usize) -> (r: String) {
        StringUtilsExt::truncate_with_offset(self.as_str(), offset, max_width)
    }

    fn chop(&self) -> (r: String) {
        StringUtilsExt::chop(self.as_str())
    }

    fn chomp(&self) -> (r: String) {
        StringUtilsExt::chomp(self.as_str())
    }

    fn chomp_specified(&self, separator: &str) -> (r: String) {
        StringUtilsExt::chomp_specified(self.as_str(), separator)
    }

    fn remove_start(&self, remove: &str) -> (r: String) {
        StringUtilsExt::remove_start(self.as_str(), remove)
    }

    fn remove_start_char(&self, remove: char) -> (r: String) {
        StringUtilsExt::remove_start_char(self.as_str(), remove)
    }

    fn remove_start_ignore_case(&self, remove: &str) -> (r: String) {
        StringUtilsExt::remove_start_ignore_case(self.as_str(), remove)
    }

    fn remove_end(&self, remove: &str) -> (r: String) {
        StringUtilsExt::remove_end(self.as_str(), remove)
    }

    fn remove_end_ignore_case(&self, remove: &str) -> (r: String) {
        StringUtilsExt::remove_end_ignore_case(self.as_str(), remove)
    }

    fn remove(&self, remove: &str) -> (r: String) {
        StringUtilsExt::remove(self.as_str(), remove)
    }

    fn remove_all(&self, remove: &str) -> (r: String) {
        StringUtilsExt::remove_all(self.as_str(), remove)
    }

    fn remove_ignore_case(&self, remove: &str) -> (r: String) {
        StringUtilsExt::remove_ignore_case(self.as_str(), remove)
    }

    fn remove_first(&self, remove: &str) -> (r: String) {
        StringUtilsExt::remove_first(self.as_str(), remove)
    }

    fn replace_each(&self, search_list: &[&str], replace_list: &[&str]) -> (r: UtilsResult<
        String,
    >) {
        StringUtilsExt::replace_each(self.as_str(), search_list, replace_list)
    }

    fn replace_each_repeatedly(
        &self,
        search_list: &[&str],
        replace_list: &[&str],
        time_to_live: Option<usize>,
    ) -> (r: UtilsResult<String>) {
        StringUtilsExt::replace_each_repeatedly(self.as_str(), search_list, replace_list, time_to_live)
    }

    fn replace_first(&self, search: &str, replace: &str) -> (r: String) {
        StringUtilsExt::replace_first(self.as_str(), search, replace)
    }

    fn substring_before(&self, separator: char) -> (r: String) {
        StringUtilsExt::substring_before(self.as_str(), separator)
    }

    fn substring_after(&self, separator: char) -> (r: String) {
        StringUtilsExt::substring_after(self.as_str(), separator)
    }

    fn substring_before_last(&self, separator: char) -> (r: String) {
        StringUtilsExt::substring_before_last(self.as_str(), separator)
    }

    fn substring_after_last(&self, separator: char) -> (r: String) {
        StringUtilsExt::substring_after_last(self.as_str(), separator)
    }

    fn substring_before_str(&self, separator: &str) -> (r: String) {
        StringUtilsExt::substring_before_str(self.as_str(), separator)
    }

    fn substring_after_str(&self, separator: &str) -> (r: String) {
        StringUtilsExt::substring_after_str(self.as_str(), separator)
    }

    fn substring_before_last_str(&self, separator: &str) -> (r: String) {
        StringUtilsExt::substring_before_last_str(self.as_str(), separator)
    }

    fn substring_after_last_str(&self, separator: &str) -> (r: String) {
        StringUtilsExt::substring_after_last_str(self.as_str(), separator)
    }

    fn substring_between(&self, open: &str, close: &str) -> (r: String) {
        StringUtilsExt::substring_between(self.as_str(), open, close)
    }

    fn substring_between_tag(&self, tag: &str) -> (r: String) {
        StringUtilsExt::substring_between_tag(self.as_str(), tag)
    }

    fn wrap(&self, wrap_with: char) -> (r: String) {
        StringUtilsExt::wrap(self.as_str(), wrap_with)
    }

    fn wrap_with_str(&self, wrap_with: &str) -> (r: String) {
        StringUtilsExt::wrap_with_str(self.as_str(), wrap_with)
    }

    fn wrap_if_missing(&self, wrap_with: char) -> (r: String) {
        StringUtilsExt::wrap_if_missing(self.as_str(), wrap_with)
    }

    fn wrap_if_missing_str(&self, wrap_with: &str) -> (r: String) {
        StringUtilsExt::wrap_if_missing_str(self.as_str(), wrap_with)
    }

    fn unwrap_from_char(&self, wrap_char: char) -> (r: String) {
        StringUtilsExt::unwrap_from_char(self.as_str(), wrap_char)
    }

    fn unwrap_from_str(&self, wrap_str: &str) -> (r: String) {
        StringUtilsExt::unwrap_from_str(self.as_str(), wrap_str)
    }

    fn overlay(&self, overlay: &str, start: usize, end: usize) -> (r: String) {
        StringUtilsExt::overlay(self.as_str(), overlay, start, end)
    }

    fn default_if_empty(&self, default_str: &str) -> (r: String) {
        StringUtilsExt::default_if_empty(self.as_str(), default_str)
    }

    fn default_if_blank(&self, default_str: &str) -> (r: String) {
        StringUtilsExt::default_if_blank(self.as_str(), default_str)
    }

    fn default_string(&self) -> (r: String) {
        StringUtilsExt::default_string(self.as_str())
    }

    fn lower_case(&self) -> (r: String) {
        StringUtilsExt::lower_case(self.as_str())
    }

    fn upper_case(&self) -> (r: String) {
        StringUtilsExt::upper_case(self.as_str())
    }

    fn repeat(&self, repeat: usize) -> (r: String) {
        StringUtilsExt::repeat(self.as_str(), repeat)
    }

    fn rotate(&self, shift: isize) -> (r: String) {
        StringUtilsExt::rotate(self.as_str(), shift)
    }

    fn reverse(&self) -> (r: String) {
        StringUtilsExt::reverse(self.as_str())
    }

    fn count_matches(&self, ch: char) -> (r: u64) {
        StringUtilsExt::count_matches(self.as_str(), ch)
    }

    fn count_matches_str(&self, sub: &str) -> (r: u64) {
        StringUtilsExt::count_matches_str(self.as_str(), sub)
    }

    fn digits(&self) -> (r: String) {
        StringUtilsExt::digits(self.as_str())
    }

    fn delete_whitespace(&self) -> (r: String) {
        StringUtilsExt::delete_whitespace(self.as_str())
    }

    fn remove_char(&self, remove: char) -> (r: String) {
        StringUtilsExt::remove_char(self.as_str(), remove)
    }

    fn replace_chars(&self, search: char, replace: char) -> (r: String) {
        StringUtilsExt::replace_chars(self.as_str(), search, replace)
    }

    fn replace_chars_in(&self, search_chars: &str, replace_chars: &str) -> (r: String) {
        StringUtilsExt::replace_chars_in(self.as_str(), search_chars, replace_chars)
    }

    fn capitalize(&self) -> (r: String) {
        StringUtilsExt::capitalize(self.as_str())
    }

    fn uncapitalize(&self) -> (r: String) {
        StringUtilsExt::uncapitalize(self.as_str())
    }

    fn swap_case(&self) -> (r: String) {
        StringUtilsExt::swap_case(self.as_str())
    }

    fn index_of_difference(&self, str2: &str) -> (r: Option<usize>) {
        StringUtilsExt::index_of_difference(self.as_str(), str2)
    }

    fn difference(&self, str2: &str) -> (r: String) {
        StringUtilsExt::difference(self.as_str(), str2)
    }

    fn left_pad(&self, size: usize) -> (r: String) {
        StringUtilsExt::left_pad(self.as_str(), size)
    }

    fn left_pad_with(&self, size: usize, pad_char: char) -> (r: String) {
        StringUtilsExt::left_pad_with(self.as_str(), size, pad_char)
    }

    fn left_pad_with_str(&self, size: usize, pad_str: &str) -> (r: String) {
        StringUtilsExt::left_pad_with_str(self.as_str(), size, pad_str)
    }

    fn right_pad(&self, size: usize) -> (r: String) {
        StringUtilsExt::right_pad(self.as_str(), size)
    }

    fn right_pad_with(&self, size: usize, pad_char: char) -> (r: String) {
        StringUtilsExt::right_pad_with(self.as_str(), size, pad_char)
    }

    fn right_pad_with_str(&self, size: usize, pad_str: &str) -> (r: String) {
        StringUtilsExt::right_pad_with_str(self.as_str(), size, pad_str)
    }

    fn center(&self, size: usize) -> (r: String) {
        StringUtilsExt::center(self.as_str(), size)
    }

    fn center_with(&self, size: usize, pad_str: &str) -> (r: String) {
        StringUtilsExt::center_with(self.as_str(), size, pad_str)
    }

    fn center_with_char(&self, size: usize, pad_char: &str) -> (r: String) {
        StringUtilsExt::center_with_char(self.as_str(), size, pad_char)
    }

    fn strip_start(&self) -> (r: String) {
        StringUtilsExt::strip_start(self.as_str())
    }

    fn strip_end(&self) -> (r: String) {
        StringUtilsExt::strip_end(self.as_str())
    }

    fn strip(&self) -> (r: String) {
        StringUtilsExt::strip(self.as_str())
    }

    fn strip_start_in(&self, strip_chars: &str) -> (r: String) {
        StringUtilsExt::strip_start_in(self.as_str(), strip_chars)
    }

    fn strip_end_in(&self, strip_chars: &str) -> (r: String) {
        StringUtilsExt::strip_end_in(self.as_str(), strip_chars)
    }

    fn strip_in(&self, strip_chars: &str) -> (r: String) {
        StringUtilsExt::strip_in(self.as_str(), strip_chars)
    }

    fn normalize_space(&self) -> (r: String) {
        StringUtilsExt::normalize_space(self.as_str())
    }

    fn trim(&self) -> (r: String) {
        StringUtilsExt::trim(self.as_str())
    }

    fn compare(&self, str2: &str) -> (r: i32) {
        StringUtilsExt::compare(self.as_str(), str2)
    }

    fn compare_ignore_case(&self, str2: &str) -> (r: i32) {
        StringUtilsExt::compare_ignore_case(self.as_str(), str2)
    }

    fn append_if_missing(&self, suffix: &str, ignore_case: bool) -> (r: String) {
        StringUtilsExt::append_if_missing(self.as_str(), suffix, ignore_case)
    }

    fn append_if_missing_one_of(&self, suffix: &str, suffixes: &[&str], ignore_case: bool) -> (r:
        String) {
        StringUtilsExt::append_if_missing_one_of(self.as_str(), suffix, suffixes, ignore_case)
    }

    fn prepend_if_missing(&self, prefix: &str, ignore_case: bool) -> (r: String) {
        StringUtilsExt::prepend_if_missing(self.as_str(), prefix, ignore_case)
    }

    fn prepend_if_missing_one_of(&self, prefix: &str, prefixes: &[&str], ignore_case: bool) -> (r:
        String) {
        StringUtilsExt::prepend_if_missing_one_of(self.as_str(), prefix, prefixes, ignore_case)
    }

    fn abbreviate(&self, max_width: usize) -> (r: UtilsResult<String>) {
        StringUtilsExt::abbreviate(self.as_str(), max_width)
    }

    fn abbreviate_with_abbrev_marker(&self, abbrev_marker: &str, max_width: usize) -> (r:
        UtilsResult<String>) {
        StringUtilsExt::abbreviate_with_abbrev_marker(self.as_str(), abbrev_marker, max_width)
    }

    fn abbreviate_with_full_opt(&self, abbrev_marker: &str, offset: isize, max_width: usize) -> (r:
        UtilsResult<String>) {
        StringUtilsExt::abbreviate_with_full_opt(self.as_str(), abbrev_marker, offset, max_width)
    }

    fn abbreviate_with_offset(&self, offset: isize, max_width: usize) -> (r: UtilsResult<String>) {
        StringUtilsExt::abbreviate_with_offset(self.as_str(), offset, max_width)
    }

    fn abbreviate_middle(&self, middle: &str, length: usize) -> (r: UtilsResult<String>) {
        StringUtilsExt::abbreviate_middle(self.as_str(), middle, length)
    }
}

} // verus!
