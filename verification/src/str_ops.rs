//! The catalogue implemented for `str`: every operation's logic lives here,
//! verified against the contracts declared on the trait.

use vstd::prelude::*;
use vstd::string::*;

use std::ops::Range;

use crate::abbrev::spec_min;
use crate::chars::{
    alphabetic_char, char_fold, char_is_ascii_printable, char_is_numeric, char_is_space,
    char_to_lowercase, char_to_uppercase, fold_char, fold_seq, is_ascii_printable_char,
    is_space_char, lowercase_char, numeric_char, str_to_lowercase, str_to_uppercase,
    swap_case_spec, swapped_char, uppercase_char,
};
use crate::error::{UtilsError, UtilsResult};
use crate::model::{
    between_at, collapse_space_spec, compare_spec, control_or_space_pred, count_matches_spec,
    count_pred, eq_char_pred, first_char_at, first_diff_at, first_match_at, first_match_from_at,
    first_matching, in_set_pred, last_char_at, last_match_at, lemma_char_index_in_is,
    lemma_compare_skip, lemma_count_pred_take_succ, lemma_first_char_unique,
    lemma_first_diff_unique, lemma_first_match_from_unique, lemma_first_match_unique,
    lemma_first_matching_is, lemma_last_char_index_is, lemma_last_char_unique,
    lemma_last_match_unique, lemma_leading_count_is, lemma_match_count_below_empty,
    lemma_match_count_below_stable, lemma_match_count_from_empty, lemma_match_count_from_stable,
    lemma_rep_spec_stable, lemma_trailing_count_is, match_count_below, match_count_from,
    ne_char_pred, not_space_pred, numeric_pred, pad_seq, remove_all_fold_spec, remove_all_spec,
    repeat_spec, replace_chars_spec, replace_each_rep_spec, replace_each_spec, replace_map,
    reverse_delimited_spec, seq_contains_seq, seq_ends_with, seq_matches_at, seq_starts_with,
    space_pred, trim_spec, unclosed_at,
};
use crate::scan::{
    char_in_slice, char_in_str, find_char_from, find_str_fold_from, find_str_from, matches_at_fold,
    matches_at_str, rfind_char_upto, rfind_str_fold_upto, rfind_str_upto, str_eq, str_eq_fold,
};
use crate::string_utils::StringUtilsExt;

verus! {

impl StringUtilsExt for str {
    fn is_empty(&self) -> (r: bool) {
        str::is_empty(self)
    }

    fn is_not_empty(&self) -> (r: bool) {
        !str::is_empty(self)
    }

    fn is_blank(&self) -> (r: bool) {
        StringUtilsExt::is_whitespace(self)
    }

    fn is_not_blank(&self) -> (r: bool) {
        !StringUtilsExt::is_whitespace(self)
    }

    fn is_whitespace(&self) -> (r: bool) {
        let n = self.unicode_len();
        let mut i: usize = 0;
        while i < n
            invariant
                i <= n,
                n == self@.len(),
                forall|j: int| 0 <= j < i ==> is_space_char(#[trigger] self@[j]),
            decreases n - i,
        {
            if !char_is_space(self.get_char(i)) {
                return false;
            }
            i += 1;
        }
        true
    }

    fn is_ascii_printable(&self) -> (r: bool) {
        let n = self.unicode_len();
        let mut i: usize = 0;
        while i < n
            invariant
                i <= n,
                n == self@.len(),
                forall|j: int| 0 <= j < i ==> is_ascii_printable_char(#[trigger] self@[j]),
            decreases n - i,
        {
            if !char_is_ascii_printable(self.get_char(i)) {
                return false;
            }
            i += 1;
        }
        true
    }

    fn is_alpha(&self) -> (r: bool) {
        let n = self.unicode_len();
        if n == 0 {
            return false;
        }
        let mut i: usize = 0;
        while i < n
            invariant
                i <= n,
                n == self@.len(),
                forall|j: int| 0 <= j < i ==> alphabetic_char(#[trigger] self@[j]),
            decreases n - i,
        {
            if !self.get_char(i).is_alphabetic() {
                return false;
            }
            i += 1;
        }
        true
    }

    fn is_alphanumeric(&self) -> (r: bool) {
        let n = self.unicode_len();
        if n == 0 {
            return false;
        }
        let mut i: usize = 0;
        while i < n
            invariant
                i <= n,
                n == self@.len(),
                forall|j: int|
                    0 <= j < i ==> alphabetic_char(#[trigger] self@[j]) || numeric_char(self@[j]),
            decreases n - i,
        {
            let c = self.get_char(i);
            if !c.is_alphabetic() && !char_is_numeric(c) {
                return false;
            }
            i += 1;
        }
        true
    }

    fn is_alphanumeric_space(&self) -> (r: bool) {
        let n = self.unicode_len();
        let mut i: usize = 0;
        while i < n
            invariant
                i <= n,
                n == self@.len(),
                forall|j: int|
                    0 <= j < i ==> alphabetic_char(#[trigger] self@[j]) || numeric_char(self@[j])
                        || is_space_char(self@[j]),
            decreases n - i,
        {
            let c = self.get_char(i);
            if !c.is_alphabetic() && !char_is_numeric(c) && !char_is_space(c) {
                return false;
            }
            i += 1;
        }
        true
    }

    fn is_alpha_space(&self) -> (r: bool) {
        let n = self.unicode_len();
        let mut i: usize = 0;
        while i < n
            invariant
                i <= n,
                n == self@.len(),
                forall|j: int|
                    0 <= j < i ==> alphabetic_char(#[trigger] self@[j]) || is_space_char(self@[j]),
            decreases n - i,
        {
            let c = self.get_char(i);
            if !c.is_alphabetic() && !char_is_space(c) {
                return false;
            }
            i += 1;
        }
        true
    }

    fn is_numeric(&self) -> (r: bool) {
        let n = self.unicode_len();
        if n == 0 {
            return false;
        }
        let mut i: usize = 0;
        while i < n
            invariant
                i <= n,
                n == self@.len(),
                forall|j: int| 0 <= j < i ==> numeric_char(#[trigger] self@[j]),
            decreases n - i,
        {
            if !char_is_numeric(self.get_char(i)) {
                return false;
            }
            i += 1;
        }
        true
    }

    fn is_numeric_space(&self) -> (r: bool) {
        let n = self.unicode_len();
        let mut i: usize = 0;
        while i < n
            invariant
                i <= n,
                n == self@.len(),
                forall|j: int|
                    0 <= j < i ==> numeric_char(#[trigger] self@[j]) || is_space_char(self@[j]),
            decreases n - i,
        {
            let c = self.get_char(i);
            if !char_is_numeric(c) && !char_is_space(c) {
                return false;
            }
            i += 1;
        }
        true
    }

    fn is_mixed_case(&self) -> (r: bool) {
        let n = self.unicode_len();
        let mut has_upper = false;
        let mut has_lower = false;
        let mut i: usize = 0;
        while i < n
            invariant
                i <= n,
                n == self@.len(),
                has_upper == exists|j: int| 0 <= j < i && uppercase_char(#[trigger] self@[j]),
                has_lower == exists|j: int| 0 <= j < i && lowercase_char(#[trigger] self@[j]),
            decreases n - i,
        {
            let c = self.get_char(i);
            if c.is_uppercase() {
                has_upper = true;
            }
            if c.is_lowercase() {
                has_lower = true;
            }
            i += 1;
        }
        has_upper && has_lower
    }

    fn equals(&self, str2: &str) -> (r: bool) {
        str_eq(self, str2)
    }

    fn equals_ignore_case(&self, str2: &str) -> (r: bool) {
        str_eq_fold(self, str2)
    }

    fn equals_any(&self, searches: &[&str]) -> (r: bool) {
        let n = searches.len();
        let mut i: usize = 0;
        while i < n
            invariant
                i <= n,
                n == searches@.len(),
                forall|j: int| 0 <= j < i ==> self@ != (#[trigger] searches@[j])@,
            decreases n - i,
        {
            if str_eq(self, searches[i]) {
                return true;
            }
            i += 1;
        }
        false
    }

    fn equals_any_ignore_case(&self, searches: &[&str]) -> (r: bool) {
        let n = searches.len();
        let mut i: usize = 0;
        while i < n
            invariant
                i <= n,
                n == searches@.len(),
                forall|j: int| 0 <= j < i ==> fold_seq(self@) != fold_seq((#[trigger] searches@[j])@),
            decreases n - i,
        {
            if str_eq_fold(self, searches[i]) {
                return true;
            }
            i += 1;
        }
        false
    }

    fn contains(&self, search: &str) -> (r: bool) {
        match find_str_from(self, search, 0) {
            Some(_) => true,
            None => false,
        }
    }

    fn contains_char(&self, search_char: char) -> (r: bool) {
        match find_char_from(self, search_char, 0) {
            Some(_) => true,
            None => false,
        }
    }

    fn contains_ignore_case(&self, search: &str) -> (r: bool) {
        match crate::scan::find_str_fold_from(self, search, 0) {
            Some(_) => true,
            None => false,
        }
    }

    fn contains_any(&self, searches: &[&str]) -> (r: bool) {
        let n = searches.len();
        let mut i: usize = 0;
        while i < n
            invariant
                i <= n,
                n == searches@.len(),
                forall|j: int| 0 <= j < i ==> !seq_contains_seq(self@, (#[trigger] searches@[j])@),
            decreases n - i,
        {
            if StringUtilsExt::contains(self, searches[i]) {
                return true;
            }
            i += 1;
        }
        false
    }

    fn contains_any_char(&self, searches: &[char]) -> (r: bool) {
        let n = self.unicode_len();
        let mut i: usize = 0;
        while i < n
            invariant
                i <= n,
                n == self@.len(),
                forall|j: int| 0 <= j < i ==> !searches@.contains(#[trigger] self@[j]),
            decreases n - i,
        {
            if char_in_slice(searches, self.get_char(i)) {
                return true;
            }
            i += 1;
        }
        false
    }

    fn contains_any_in(&self, searches_str: &str) -> (r: bool) {
        let n = self.unicode_len();
        let mut i: usize = 0;
        while i < n
            invariant
                i <= n,
                n == self@.len(),
                forall|j: int| 0 <= j < i ==> !searches_str@.contains(#[trigger] self@[j]),
            decreases n - i,
        {
            if char_in_str(searches_str, self.get_char(i)) {
                return true;
            }
            i += 1;
        }
        false
    }

    fn contains_any_ignore_case(&self, searches: &[&str]) -> (r: bool) {
        let n = searches.len();
        let mut i: usize = 0;
        while i < n
            invariant
                i <= n,
                n == searches@.len(),
                forall|j: int|
                    0 <= j < i ==> !seq_contains_seq(
                        fold_seq(self@),
                        fold_seq((#[trigger] searches@[j])@),
                    ),
            decreases n - i,
        {
            if StringUtilsExt::contains_ignore_case(self, searches[i]) {
                return true;
            }
            i += 1;
        }
        false
    }

    fn contains_none(&self, searches: &[char]) -> (r: bool) {
        !StringUtilsExt::contains_any_char(self, searches)
    }

    fn contains_none_in(&self, invalid_chars: &str) -> (r: bool) {
        !StringUtilsExt::contains_any_in(self, invalid_chars)
    }

    fn contains_only(&self, valid: &[char]) -> (r: bool) {
        let n = self.unicode_len();
        let mut i: usize = 0;
        while i < n
            invariant
                i <= n,
                n == self@.len(),
                forall|j: int| 0 <= j < i ==> valid@.contains(#[trigger] self@[j]),
            decreases n - i,
        {
            if !char_in_slice(valid, self.get_char(i)) {
                return false;
            }
            i += 1;
        }
        true
    }

    fn contains_only_in(&self, valid_chars: &str) -> (r: bool) {
        let n = self.unicode_len();
        let mut i: usize = 0;
        while i < n
            invariant
                i <= n,
                n == self@.len(),
                forall|j: int| 0 <= j < i ==> valid_chars@.contains(#[trigger] self@[j]),
            decreases n - i,
        {
            if !char_in_str(valid_chars, self.get_char(i)) {
                return false;
            }
            i += 1;
        }
        true
    }

    fn contains_whitespace(&self) -> (r: bool) {
        let n = self.unicode_len();
        let mut i: usize = 0;
        while i < n
            invariant
                i <= n,
                n == self@.len(),
                forall|j: int| 0 <= j < i ==> !is_space_char(#[trigger] self@[j]),
            decreases n - i,
        {
            if char_is_space(self.get_char(i)) {
                return true;
            }
            i += 1;
        }
        false
    }

    fn if_empty<T: Fn() -> String>(&self, default_supplier: T) -> (r: String) {
        if str::is_empty(self) {
            default_supplier()
        } else {
            self.to_owned()
        }
    }

    fn if_blank<T: Fn() -> String>(&self, default_supplier: T) -> (r: String) {
        if StringUtilsExt::is_blank(self) {
            default_supplier()
        } else {
            self.to_owned()
        }
    }

    fn index_of(&self, search: &str) -> (r: Option<usize>) {
        find_str_from(self, search, 0)
    }

    fn index_of_starting_from(&self, search: &str, start_pos: usize) -> (r: Option<usize>) {
        find_str_from(self, search, start_pos)
    }

    fn index_of_ignore_case(&self, search: &str) -> (r: Option<usize>) {
        find_str_fold_from(self, search, 0)
    }

    fn index_of_ignore_case_starting_from(&self, search: &str, start_pos: usize) -> (r: Option<
        usize,
    >) {
        find_str_fold_from(self, search, start_pos)
    }

    fn index_of_char(&self, search_char: char) -> (r: Option<usize>) {
        find_char_from(self, search_char, 0)
    }

    fn index_of_char_starting_from(&self, search_char: char, start_pos: usize) -> (r: Option<
        usize,
    >) {
        find_char_from(self, search_char, start_pos)
    }

    fn last_index_of(&self, search: &str) -> (r: Option<usize>) {
        let n = self.unicode_len();
        rfind_str_upto(self, search, n)
    }

    fn last_index_of_starting_from(&self, search: &str, start_pos: usize) -> (r: Option<usize>) {
        rfind_str_upto(self, search, start_pos)
    }

    fn last_index_of_ignore_case(&self, search: &str) -> (r: Option<usize>) {
        let n = self.unicode_len();
        rfind_str_fold_upto(self, search, n)
    }

    fn last_index_of_ignore_case_starting_from(&self, search: &str, start_pos: usize) -> (r:
        Option<usize>) {
        rfind_str_fold_upto(self, search, start_pos)
    }

    fn last_index_of_char(&self, search_char: char) -> (r: Option<usize>) {
        let n = self.unicode_len();
        rfind_char_upto(self, search_char, n)
    }

    fn last_index_of_char_starting_from(&self, search_char: char, start_pos: usize) -> (r: Option<
        usize,
    >) {
        rfind_char_upto(self, search_char, start_pos)
    }

    fn index_of_any(&self, searches: &[&str]) -> (r: Option<usize>) {
        let n = searches.len();
        let mut best: Option<usize> = None;
        let mut k: usize = 0;
        while k < n
            invariant
                k <= n,
                n == searches@.len(),
                best matches Some(b) ==> ((exists|q: int|
                    0 <= q < k && seq_matches_at(self@, (#[trigger] searches@[q])@, b as int)) && (
                forall|j: int, q: int|
                    #![trigger seq_matches_at(self@, (searches@[q])@, j)]
                    0 <= q < k && 0 <= j < b ==> !seq_matches_at(self@, (searches@[q])@, j))),
                best is None ==> forall|q: int|
                    0 <= q < k ==> !seq_contains_seq(self@, (#[trigger] searches@[q])@),
            decreases n - k,
        {
            match find_str_from(self, searches[k], 0) {
                Some(i) => {
                    match best {
                        Some(b) => {
                            if i < b {
                                best = Some(i);
                            }
                        },
                        None => {
                            best = Some(i);
                        },
                    }
                },
                None => {},
            }
            k += 1;
        }
        best
    }

    fn last_index_of_any(&self, searches: &[&str]) -> (r: Option<usize>) {
        let n = searches.len();
        let text_len = self.unicode_len();
        let mut best: Option<usize> = None;
        let mut k: usize = 0;
        while k < n
            invariant
                k <= n,
                n == searches@.len(),
                text_len == self@.len(),
                best matches Some(b) ==> ((exists|q: int|
                    0 <= q < k && seq_matches_at(self@, (#[trigger] searches@[q])@, b as int)) && (
                forall|j: int, q: int|
                    #![trigger seq_matches_at(self@, (searches@[q])@, j)]
                    0 <= q < k && j > b ==> !seq_matches_at(self@, (searches@[q])@, j))),
                best is None ==> forall|q: int|
                    0 <= q < k ==> !seq_contains_seq(self@, (#[trigger] searches@[q])@),
            decreases n - k,
        {
            match rfind_str_upto(self, searches[k], text_len) {
                Some(i) => {
                    match best {
                        Some(b) => {
                            if i > b {
                                best = Some(i);
                            }
                        },
                        None => {
                            best = Some(i);
                        },
                    }
                },
                None => {},
            }
            k += 1;
        }
        best
    }

    fn ordinal_index_of(&self, search: &str, ordinal: usize) -> (r: Option<usize>) {
        if ordinal == 0 {
            return None;
        }
        let n = self.unicode_len();
        let m = search.unicode_len();
        if m == 0 {
            if ordinal - 1 <= n {
                let i = ordinal - 1;
                proof {
                    lemma_match_count_below_empty(self@, search@, i as int);
                    assert(self@.subrange(i as int, i as int) =~= search@);
                }
                return Some(i);
            } else {
                proof {
                    lemma_match_count_below_empty(self@, search@, n as int);
                    assert(self@.subrange(n as int, n as int) =~= search@);
                }
                return None;
            }
        }
        if m > n {
            proof {
                lemma_match_count_below_stable(self@, search@, 0, n as int + 1);
            }
            return None;
        }
        let mut cnt: usize = 0;
        let mut i: usize = 0;
        while i <= n - m
            invariant
                i <= n - m + 1,
                0 < m <= n,
                n == self@.len(),
                m == search@.len(),
                cnt as int == match_count_below(self@, search@, i as int),
                cnt < ordinal,
            decreases n - m + 1 - i,
        {
            if matches_at_str(self, search, i) {
                if cnt + 1 == ordinal {
                    return Some(i);
                }
                cnt += 1;
            }
            i += 1;
        }
        proof {
            lemma_match_count_below_stable(self@, search@, (n - m + 1) as int, n as int + 1);
        }
        None
    }

    fn last_ordinal_index_of(&self, search: &str, ordinal: usize) -> (r: Option<usize>) {
        if ordinal == 0 {
            return None;
        }
        let n = self.unicode_len();
        let m = search.unicode_len();
        if m == 0 {
            if ordinal - 1 <= n {
                let i = n - (ordinal - 1);
                proof {
                    lemma_match_count_from_empty(self@, search@, i as int + 1);
                    assert(self@.subrange(i as int, i as int) =~= search@);
                }
                return Some(i);
            } else {
                proof {
                    lemma_match_count_from_empty(self@, search@, 0);
                }
                return None;
            }
        }
        if m > n {
            proof {
                lemma_match_count_from_stable(self@, search@, 0, n as int + 1);
            }
            return None;
        }
        let mut cnt: usize = 0;
        let mut i: usize = n - m;
        proof {
            lemma_match_count_from_stable(self@, search@, (n - m + 1) as int, n as int + 1);
        }
        loop
            invariant
                i <= n - m,
                0 < m <= n,
                n == self@.len(),
                m == search@.len(),
                cnt as int == match_count_from(self@, search@, i as int + 1),
                cnt < ordinal,
            decreases i,
        {
            if matches_at_str(self, search, i) {
                if cnt + 1 == ordinal {
                    return Some(i);
                }
                cnt += 1;
            }
            if i == 0 {
                proof {
                    assert(cnt as int == match_count_from(self@, search@, 0));
                }
                return None;
            }
            i -= 1;
        }
    }

    fn index_of_any_char(&self, search_chars: &[char]) -> (r: Option<usize>) {
        let n = self.unicode_len();
        let mut i: usize = 0;
        while i < n
            invariant
                i <= n,
                n == self@.len(),
                forall|j: int| 0 <= j < i ==> !search_chars@.contains(#[trigger] self@[j]),
            decreases n - i,
        {
            if char_in_slice(search_chars, self.get_char(i)) {
                return Some(i);
            }
            i += 1;
        }
        None
    }

    fn index_of_any_in(&self, search_chars: &str) -> (r: Option<usize>) {
        let n = self.unicode_len();
        let mut i: usize = 0;
        while i < n
            invariant
                i <= n,
                n == self@.len(),
                forall|j: int| 0 <= j < i ==> !search_chars@.contains(#[trigger] self@[j]),
            decreases n - i,
        {
            if char_in_str(search_chars, self.get_char(i)) {
                return Some(i);
            }
            i += 1;
        }
        None
    }

    fn index_of_any_but(&self, search_chars: &[char]) -> (r: Option<usize>) {
        let n = self.unicode_len();
        let mut i: usize = 0;
        while i < n
            invariant
                i <= n,
                n == self@.len(),
                forall|j: int| 0 <= j < i ==> search_chars@.contains(#[trigger] self@[j]),
            decreases n - i,
        {
            if !char_in_slice(search_chars, self.get_char(i)) {
                return Some(i);
            }
            i += 1;
        }
        None
    }

    fn index_of_any_but_in(&self, search_chars: &str) -> (r: Option<usize>) {
        let n = self.unicode_len();
        let mut i: usize = 0;
        while i < n
            invariant
                i <= n,
                n == self@.len(),
                forall|j: int| 0 <= j < i ==> search_chars@.contains(#[trigger] self@[j]),
            decreases n - i,
        {
            if !char_in_str(search_chars, self.get_char(i)) {
                return Some(i);
            }
            i += 1;
        }
        None
    }

    fn starts_with(&self, prefix: &str, ignore_case: bool) -> (r: bool) {
        let n = self.unicode_len();
        let m = prefix.unicode_len();
        if m > n {
            proof {
                assert(fold_seq(self@).len() == self@.len());
                assert(fold_seq(prefix@).len() == prefix@.len());
            }
            return false;
        }
        if ignore_case {
            let r = matches_at_fold(self, prefix, 0);
            proof {
                assert(fold_seq(self@).subrange(0, m as int) =~= fold_seq(self@).take(
                    fold_seq(prefix@).len() as int,
                ));
            }
            r
        } else {
            let r = matches_at_str(self, prefix, 0);
            proof {
                assert(self@.subrange(0, m as int) =~= self@.take(prefix@.len() as int));
            }
            r
        }
    }

    fn starts_with_any(&self, prefixes: &[&str]) -> (r: bool) {
        let n = prefixes.len();
        let mut i: usize = 0;
        while i < n
            invariant
                i <= n,
                n == prefixes@.len(),
                forall|j: int| 0 <= j < i ==> !seq_starts_with(self@, (#[trigger] prefixes@[j])@),
            decreases n - i,
        {
            if StringUtilsExt::starts_with(self, prefixes[i], false) {
                return true;
            }
            i += 1;
        }
        false
    }

    fn end_with(&self, suffix: &str, ignore_case: bool) -> (r: bool) {
        let n = self.unicode_len();
        let m = suffix.unicode_len();
        if m > n {
            proof {
                assert(fold_seq(self@).len() == self@.len());
                assert(fold_seq(suffix@).len() == suffix@.len());
            }
            return false;
        }
        if ignore_case {
            let r = matches_at_fold(self, suffix, n - m);
            proof {
                let fs = fold_seq(self@);
                let ft = fold_seq(suffix@);
                assert(fs.subrange(n - m, n as int) =~= fs.skip(fs.len() - ft.len()));
            }
            r
        } else {
            let r = matches_at_str(self, suffix, n - m);
            proof {
                assert(self@.subrange(n - m, n as int) =~= self@.skip(
                    self@.len() - suffix@.len(),
                ));
            }
            r
        }
    }

    fn end_with_any(&self, searches: &[&str]) -> (r: bool) {
        let n = searches.len();
        let mut i: usize = 0;
        while i < n
            invariant
                i <= n,
                n == searches@.len(),
                forall|j: int| 0 <= j < i ==> !seq_ends_with(self@, (#[trigger] searches@[j])@),
            decreases n - i,
        {
            if StringUtilsExt::end_with(self, searches[i], false) {
                return true;
            }
            i += 1;
        }
        false
    }

    fn end_with_consider_case(&self, suffix: &str) -> (r: bool) {
        StringUtilsExt::end_with(self, suffix, false)
    }

    fn end_with_ignore_case(&self, suffix: &str) -> (r: bool) {
        StringUtilsExt::end_with(self, suffix, true)
    }

    fn left(&self, len: usize) -> (r: String) {
        let n = self.unicode_len();
        let k = if len < n {
            len
        } else {
            n
        };
        self.substring_char(0, k).to_owned()
    }

    fn reverse_delimited(&self, separator_char: char) -> (r: String) {
        let n = self.unicode_len();
        let mut out = String::new();
        let mut pos: usize = n;
        proof {
            assert(self@.take(n as int) =~= self@);
            assert(Seq::<char>::empty() + reverse_delimited_spec(self@, separator_char)
                =~= reverse_delimited_spec(self@, separator_char));
        }
        loop
            invariant
                pos <= n,
                n == self@.len(),
                reverse_delimited_spec(self@, separator_char) == out@ + reverse_delimited_spec(
                    self@.take(pos as int),
                    separator_char,
                ),
            decreases pos,
        {
            let ghost prefix = self@.take(pos as int);
            if pos == 0 {
                proof {
                    lemma_last_char_index_is(self@.take(0), separator_char, -1);
                    assert(out@ + self@.take(0) =~= out@);
                }
                return out;
            }
            match rfind_char_upto(self, separator_char, pos - 1) {
                Some(i) => {
                    proof {
                        assert forall|j: int| i < j < prefix.len() implies prefix[j]
                            != separator_char by {
                            assert(prefix[j] == self@[j]);
                        }
                        lemma_last_char_index_is(prefix, separator_char, i as int);
                    }
                    out.append(self.substring_char(i + 1, pos));
                    out.push(separator_char);
                    proof {
                        assert(prefix.skip(i + 1) =~= self@.subrange(i + 1, pos as int));
                        assert(prefix.take(i as int) =~= self@.take(i as int));
                        assert(out@ + reverse_delimited_spec(self@.take(i as int), separator_char)
                            =~= reverse_delimited_spec(self@, separator_char));
                    }
                    pos = i;
                },
                None => {
                    proof {
                        assert forall|j: int| -1 < j < prefix.len() implies prefix[j]
                            != separator_char by {
                            assert(prefix[j] == self@[j]);
                        }
                        lemma_last_char_index_is(prefix, separator_char, -1);
                    }
                    out.append(self.substring_char(0, pos));
                    proof {
                        assert(out@ =~= reverse_delimited_spec(self@, separator_char));
                    }
                    return out;
                },
            }
        }
    }

    fn right(&self, len: usize) -> (r: String) {
        let n = self.unicode_len();
        let k = if len < n {
            len
        } else {
            n
        };
        self.substring_char(n - k, n).to_owned()
    }

    fn mid(&self, pos: usize, len: usize) -> (r: String) {
        let n = self.unicode_len();
        if pos > n {
            return String::new();
        }
        let hi = if len > n - pos {
            n
        } else {
            pos + len
        };
        self.substring_char(pos, hi).to_owned()
    }

    fn substring(&self, range: Range<usize>) -> (r: String) {
        self.substring_char(range.start, range.end).to_owned()
    }

    fn truncate(&self, max_width: usize) -> (r: String) {
        let n = self.unicode_len();
        let k = if max_width < n {
            max_width
        } else {
            n
        };
        self.substring_char(0, k).to_owned()
    }

    fn truncate_with_offset(&self, offset: usize, max_width: usize) -> (r: String) {
        let n = self.unicode_len();
        let lo = if offset < n {
            offset
        } else {
            n
        };
        let hi = if max_width > n - lo {
            n
        } else {
            lo + max_width
        };
        self.substring_char(lo, hi).to_owned()
    }

    fn chop(&self) -> (r: String) {
        let n = self.unicode_len();
        if n == 0 {
            return String::new();
        }
        if n >= 2 && self.get_char(n - 2) == '\r' && self.get_char(n - 1) == '\n' {
            self.substring_char(0, n - 2).to_owned()
        } else {
            self.substring_char(0, n - 1).to_owned()
        }
    }

    fn chomp(&self) -> (r: String) {
        let n = self.unicode_len();
        if n == 0 {
            return String::new();
        }
        if n >= 2 && self.get_char(n - 2) == '\r' && self.get_char(n - 1) == '\n' {
            self.substring_char(0, n - 2).to_owned()
        } else if self.get_char(n - 1) == '\n' || self.get_char(n - 1) == '\r' {
            self.substring_char(0, n - 1).to_owned()
        } else {
            self.to_owned()
        }
    }

    fn chomp_specified(&self, separator: &str) -> (r: String) {
        if StringUtilsExt::end_with(self, separator, false) {
            let n = self.unicode_len();
            let m = separator.unicode_len();
            self.substring_char(0, n - m).to_owned()
        } else {
            self.to_owned()
        }
    }

    fn remove_start(&self, remove: &str) -> (r: String) {
        if StringUtilsExt::starts_with(self, remove, false) {
            let n = self.unicode_len();
            let m = remove.unicode_len();
            self.substring_char(m, n).to_owned()
        } else {
            self.to_owned()
        }
    }

    fn remove_start_char(&self, remove: char) -> (r: String) {
        let n = self.unicode_len();
        if n > 0 && self.get_char(0) == remove {
            self.substring_char(1, n).to_owned()
        } else {
            self.to_owned()
        }
    }

    fn remove_start_ignore_case(&self, remove: &str) -> (r: String) {
        if StringUtilsExt::starts_with(self, remove, true) {
            let n = self.unicode_len();
            let m = remove.unicode_len();
            proof {
                assert(fold_seq(self@).len() == self@.len());
                assert(fold_seq(remove@).len() == remove@.len());
            }
            self.substring_char(m, n).to_owned()
        } else {
            self.to_owned()
        }
    }

    fn remove_end(&self, remove: &str) -> (r: String) {
        if StringUtilsExt::end_with(self, remove, false) {
            let n = self.unicode_len();
            let m = remove.unicode_len();
            self.substring_char(0, n - m).to_owned()
        } else {
            self.to_owned()
        }
    }

    fn remove_end_ignore_case(&self, remove: &str) -> (r: String) {
        if StringUtilsExt::end_with(self, remove, true) {
            let n = self.unicode_len();
            let m = remove.unicode_len();
            proof {
                assert(fold_seq(self@).len() == self@.len());
                assert(fold_seq(remove@).len() == remove@.len());
            }
            self.substring_char(0, n - m).to_owned()
        } else {
            self.to_owned()
        }
    }

    fn remove(&self, remove: &str) -> (r: String) {
        remove_every(self, remove)
    }

    fn remove_all(&self, remove: &str) -> (r: String) {
        remove_every(self, remove)
    }

    fn remove_ignore_case(&self, remove: &str) -> (r: String) {
        let n = self.unicode_len();
        let m = remove.unicode_len();
        if m == 0 {
            return self.to_owned();
        }
        let mut out = String::new();
        let mut pos: usize = 0;
        proof {
            assert(self@.skip(0) =~= self@);
            assert(Seq::<char>::empty() + remove_all_fold_spec(self@, remove@)
                =~= remove_all_fold_spec(self@, remove@));
        }
        while pos < n
            invariant
                pos <= n,
                n == self@.len(),
                m == remove@.len(),
                m > 0,
                remove_all_fold_spec(self@, remove@) == out@ + remove_all_fold_spec(
                    self@.skip(pos as int),
                    remove@,
                ),
            decreases n - pos,
        {
            let tail_matches = m <= n && pos <= n - m && matches_at_fold(self, remove, pos);
            proof {
                let suffix = self@.skip(pos as int);
                assert(fold_seq(suffix) =~= fold_seq(self@).skip(pos as int));
                if pos + m <= n {
                    assert(fold_seq(suffix).subrange(0, m as int) =~= fold_seq(self@).subrange(
                        pos as int,
                        pos + m,
                    ));
                }
                if tail_matches {
                    assert(suffix.skip(m as int) =~= self@.skip(pos + m));
                } else {
                    assert(suffix.skip(1) =~= self@.skip(pos + 1));
                    assert(suffix[0] == self@[pos as int]);
                }
            }
            if tail_matches {
                pos += m;
            } else {
                out.push(self.get_char(pos));
                proof {
                    assert(out@ + remove_all_fold_spec(self@.skip(pos + 1), remove@)
                        =~= remove_all_fold_spec(self@, remove@));
                }
                pos += 1;
            }
        }
        proof {
            assert(self@.skip(n as int) =~= Seq::<char>::empty());
            assert(out@ + remove_all_fold_spec(self@.skip(n as int), remove@) =~= out@);
        }
        out
    }

    fn remove_first(&self, remove: &str) -> (r: String) {
        match find_str_from(self, remove, 0) {
            Some(i) => {
                let n = self.unicode_len();
                let m = remove.unicode_len();
                let mut out = self.substring_char(0, i).to_owned();
                out.append(self.substring_char(i + m, n));
                proof {
                    assert forall|k: int| first_match_at(self@, remove@, k) implies out@
                        == self@.take(k) + self@.skip(k + remove@.len()) by {
                        lemma_first_match_unique(self@, remove@, i as int, k);
                        assert(self@.take(k) =~= self@.subrange(0, i as int));
                        assert(self@.skip(k + remove@.len()) =~= self@.subrange(
                            i + m,
                            self@.len() as int,
                        ));
                    }
                }
                out
            },
            None => self.to_owned(),
        }
    }

    fn replace_each(&self, search_list: &[&str], replace_list: &[&str]) -> (r: UtilsResult<
        String,
    >) {
        if search_list.len() != replace_list.len() {
            return Err(
                UtilsError::InvalidArgument(
                    String::from_str("the search and replacement lists must have the same length"),
                ),
            );
        }
        let n = self.unicode_len();
        let ghost sv = search_list.deep_view();
        let ghost rv = replace_list.deep_view();
        let mut out = String::new();
        let mut pos: usize = 0;
        proof {
            assert(self@.skip(0) =~= self@);
            assert(Seq::<char>::empty() + replace_each_spec(self@, sv, rv) =~= replace_each_spec(
                self@,
                sv,
                rv,
            ));
        }
        while pos < n
            invariant
                pos <= n,
                n == self@.len(),
                sv == search_list.deep_view(),
                rv == replace_list.deep_view(),
                sv.len() == rv.len(),
                search_list@.len() == sv.len(),
                replace_list@.len() == rv.len(),
                replace_each_spec(self@, sv, rv) == out@ + replace_each_spec(
                    self@.skip(pos as int),
                    sv,
                    rv,
                ),
            decreases n - pos,
        {
            match first_hit_at(self, pos, search_list) {
                Some(k) => {
                    let m = search_list[k].unicode_len();
                    out.append(replace_list[k]);
                    proof {
                        let suffix = self@.skip(pos as int);
                        assert(suffix.skip(m as int) =~= self@.skip(pos + m));
                        assert(rv[k as int] == replace_list@[k as int]@);
                        assert(out@ + replace_each_spec(self@.skip(pos + m), sv, rv)
                            =~= replace_each_spec(self@, sv, rv));
                    }
                    pos += m;
                },
                None => {
                    out.push(self.get_char(pos));
                    proof {
                        let suffix = self@.skip(pos as int);
                        assert(suffix[0] == self@[pos as int]);
                        assert(suffix.skip(1) =~= self@.skip(pos + 1));
                        assert(out@ + replace_each_spec(self@.skip(pos + 1), sv, rv)
                            =~= replace_each_spec(self@, sv, rv));
                    }
                    pos += 1;
                },
            }
        }
        proof {
            assert(self@.skip(n as int) =~= Seq::<char>::empty());
            assert(out@ + replace_each_spec(self@.skip(n as int), sv, rv) =~= out@);
        }
        Ok(out)
    }

    fn replace_each_repeatedly(
        &self,
        search_list: &[&str],
        replace_list: &[&str],
        time_to_live: Option<usize>,
    ) -> (r: UtilsResult<String>) {
        if search_list.len() != replace_list.len() {
            return Err(
                UtilsError::InvalidArgument(
                    String::from_str("the search and replacement lists must have the same length"),
                ),
            );
        }
        let ttl = match time_to_live {
            Some(t) => t,
            None => search_list.len(),
        };
        let ghost sv = search_list.deep_view();
        let ghost rv = replace_list.deep_view();
        let mut cur = self.to_owned();
        let mut i: usize = 0;
        while i < ttl
            invariant
                i <= ttl,
                sv == search_list.deep_view(),
                rv == replace_list.deep_view(),
                search_list@.len() == replace_list@.len(),
                ttl as int == (match time_to_live {
                    Some(t) => t as int,
                    None => search_list@.len() as int,
                }),
                replace_each_rep_spec(self@, sv, rv, ttl as int) == replace_each_rep_spec(
                    cur@,
                    sv,
                    rv,
                    ttl - i,
                ),
            decreases ttl - i,
        {
            let next = match StringUtilsExt::replace_each(cur.as_str(), search_list, replace_list) {
                Ok(v) => v,
                Err(e) => {
                    return Err(e);
                },
            };
            if str_eq(next.as_str(), cur.as_str()) {
                proof {
                    lemma_rep_spec_stable(cur@, sv, rv, ttl - i);
                }
                return Ok(cur);
            }
            cur = next;
            i += 1;
        }
        let check = match StringUtilsExt::replace_each(cur.as_str(), search_list, replace_list) {
            Ok(v) => v,
            Err(e) => {
                return Err(e);
            },
        };
        if str_eq(check.as_str(), cur.as_str()) {
            Ok(cur)
        } else {
            Err(
                UtilsError::InvalidArgument(
                    String::from_str(
                        "the replacements kept producing new matches until the time to live was exhausted",
                    ),
                ),
            )
        }
    }

    fn replace_first(&self, search: &str, replace: &str) -> (r: String) {
        match find_str_from(self, search, 0) {
            Some(i) => {
                let n = self.unicode_len();
                let m = search.unicode_len();
                let mut out = self.substring_char(0, i).to_owned();
                out.append(replace);
                out.append(self.substring_char(i + m, n));
                proof {
                    assert forall|k: int| first_match_at(self@, search@, k) implies out@
                        == self@.take(k) + replace@ + self@.skip(k + search@.len()) by {
                        lemma_first_match_unique(self@, search@, i as int, k);
                        assert(self@.take(k) =~= self@.subrange(0, i as int));
                        assert(self@.skip(k + search@.len()) =~= self@.subrange(
                            i + m,
                            self@.len() as int,
                        ));
                    }
                }
                out
            },
            None => self.to_owned(),
        }
    }

    fn substring_before(&self, separator: char) -> (r: String) {
        match find_char_from(self, separator, 0) {
            Some(i) => {
                let out = self.substring_char(0, i).to_owned();
                proof {
                    assert forall|k: int| first_char_at(self@, separator, k) implies out@
                        == self@.take(k) by {
                        lemma_first_char_unique(self@, separator, i as int, k);
                    }
                }
                out
            },
            None => self.to_owned(),
        }
    }

    fn substring_after(&self, separator: char) -> (r: String) {
        match find_char_from(self, separator, 0) {
            Some(i) => {
                let n = self.unicode_len();
                let out = self.substring_char(i + 1, n).to_owned();
                proof {
                    assert forall|k: int| first_char_at(self@, separator, k) implies out@
                        == self@.skip(k + 1) by {
                        lemma_first_char_unique(self@, separator, i as int, k);
                        assert(self@.skip(k + 1) =~= self@.subrange(i + 1, self@.len() as int));
                    }
                }
                out
            },
            None => String::new(),
        }
    }

    fn substring_before_last(&self, separator: char) -> (r: String) {
        let n = self.unicode_len();
        match rfind_char_upto(self, separator, n) {
            Some(i) => {
                let out = self.substring_char(0, i).to_owned();
                proof {
                    assert forall|k: int| last_char_at(self@, separator, k) implies out@
                        == self@.take(k) by {
                        lemma_last_char_unique(self@, separator, i as int, k);
                    }
                }
                out
            },
            None => self.to_owned(),
        }
    }

    fn substring_after_last(&self, separator: char) -> (r: String) {
        let n = self.unicode_len();
        match rfind_char_upto(self, separator, n) {
            Some(i) => {
                let out = self.substring_char(i + 1, n).to_owned();
                proof {
                    assert forall|k: int| last_char_at(self@, separator, k) implies out@
                        == self@.skip(k + 1) by {
                        lemma_last_char_unique(self@, separator, i as int, k);
                        assert(self@.skip(k + 1) =~= self@.subrange(i + 1, self@.len() as int));
                    }
                }
                out
            },
            None => String::new(),
        }
    }

    fn substring_before_str(&self, separator: &str) -> (r: String) {
        match find_str_from(self, separator, 0) {
            Some(i) => {
                let out = self.substring_char(0, i).to_owned();
                proof {
                    assert forall|k: int| first_match_at(self@, separator@, k) implies out@
                        == self@.take(k) by {
                        lemma_first_match_unique(self@, separator@, i as int, k);
                    }
                }
                out
            },
            None => self.to_owned(),
        }
    }

    fn substring_after_str(&self, separator: &str) -> (r: String) {
        match find_str_from(self, separator, 0) {
            Some(i) => {
                let n = self.unicode_len();
                let m = separator.unicode_len();
                let out = self.substring_char(i + m, n).to_owned();
                proof {
                    assert forall|k: int| first_match_at(self@, separator@, k) implies out@
                        == self@.skip(k + separator@.len()) by {
                        lemma_first_match_unique(self@, separator@, i as int, k);
                        assert(self@.skip(k + separator@.len()) =~= self@.subrange(
                            i + m,
                            self@.len() as int,
                        ));
                    }
                }
                out
            },
            None => String::new(),
        }
    }

    fn substring_before_last_str(&self, separator: &str) -> (r: String) {
        let n = self.unicode_len();
        match rfind_str_upto(self, separator, n) {
            Some(i) => {
                let out = self.substring_char(0, i).to_owned();
                proof {
                    assert forall|k: int| last_match_at(self@, separator@, k) implies out@
                        == self@.take(k) by {
                        lemma_last_match_unique(self@, separator@, i as int, k);
                    }
                }
                out
            },
            None => self.to_owned(),
        }
    }

    fn substring_after_last_str(&self, separator: &str) -> (r: String) {
        let n = self.unicode_len();
        match rfind_str_upto(self, separator, n) {
            Some(i) => {
                let m = separator.unicode_len();
                let out = self.substring_char(i + m, n).to_owned();
                proof {
                    assert forall|k: int| last_match_at(self@, separator@, k) implies out@
                        == self@.skip(k + separator@.len()) by {
                        lemma_last_match_unique(self@, separator@, i as int, k);
                        assert(self@.skip(k + separator@.len()) =~= self@.subrange(
                            i + m,
                            self@.len() as int,
                        ));
                    }
                }
                out
            },
            None => String::new(),
        }
    }

    fn substring_between(&self, open: &str, close: &str) -> (r: String) {
        match find_str_from(self, open, 0) {
            Some(i) => {
                let n = self.unicode_len();
                let ol = open.unicode_len();
                proof {
                    assert(i + ol <= n);
                }
                match find_str_from(self, close, i + ol) {
                    Some(j) => {
                        let out = self.substring_char(i + ol, j).to_owned();
                        proof {
                            assert forall|a: int, b: int|
                                #[trigger] between_at(self@, open@, close@, a, b) implies out@
                                == self@.subrange(a + open@.len(), b) by {
                                lemma_first_match_unique(self@, open@, i as int, a);
                                lemma_first_match_from_unique(
                                    self@,
                                    close@,
                                    a + open@.len(),
                                    j as int,
                                    b,
                                );
                            }
                            assert forall|a: int|
                                #[trigger] unclosed_at(self@, open@, close@, a) implies out@
                                == Seq::<char>::empty() by {
                                lemma_first_match_unique(self@, open@, i as int, a);
                                assert(seq_matches_at(self@, close@, j as int));
                                assert(false);
                            }
                        }
                        out
                    },
                    None => {
                        let out = String::new();
                        proof {
                            assert forall|a: int, b: int|
                                #[trigger] between_at(self@, open@, close@, a, b) implies out@
                                == self@.subrange(a + open@.len(), b) by {
                                lemma_first_match_unique(self@, open@, i as int, a);
                                assert(!seq_matches_at(self@, close@, b));
                                assert(false);
                            }
                        }
                        out
                    },
                }
            },
            None => {
                let out = String::new();
                proof {
                    assert forall|a: int, b: int|
                        #[trigger] between_at(self@, open@, close@, a, b) implies out@
                        == self@.subrange(a + open@.len(), b) by {
                        assert(!seq_matches_at(self@, open@, a));
                        assert(false);
                    }
                }
                out
            },
        }
    }

    fn substring_between_tag(&self, tag: &str) -> (r: String) {
        StringUtilsExt::substring_between(self, tag, tag)
    }

    fn wrap(&self, wrap_with: char) -> (r: String) {
        let mut out = String::new();
        out.push(wrap_with);
        out.append(self);
        out.push(wrap_with);
        proof {
            assert(out@ =~= seq![wrap_with] + self@ + seq![wrap_with]);
        }
        out
    }

    fn wrap_with_str(&self, wrap_with: &str) -> (r: String) {
        let mut out = wrap_with.to_owned();
        out.append(self);
        out.append(wrap_with);
        proof {
            assert(out@ =~= wrap_with@ + self@ + wrap_with@);
        }
        out
    }

    fn wrap_if_missing(&self, wrap_with: char) -> (r: String) {
        let n = self.unicode_len();
        if n == 0 {
            return self.to_owned();
        }
        let mut out = String::new();
        if self.get_char(0) != wrap_with {
            out.push(wrap_with);
        }
        out.append(self);
        if self.get_char(n - 1) != wrap_with {
            out.push(wrap_with);
        }
        proof {
            assert(out@ =~= (if self@[0] == wrap_with {
                Seq::<char>::empty()
            } else {
                seq![wrap_with]
            }) + self@ + (if self@[self@.len() - 1] == wrap_with {
                Seq::<char>::empty()
            } else {
                seq![wrap_with]
            }));
        }
        out
    }

    fn wrap_if_missing_str(&self, wrap_with: &str) -> (r: String) {
        let n = self.unicode_len();
        let m = wrap_with.unicode_len();
        if n == 0 || m == 0 {
            return self.to_owned();
        }
        let mut out = String::new();
        if !StringUtilsExt::starts_with(self, wrap_with, false) {
            out.append(wrap_with);
        }
        out.append(self);
        if !StringUtilsExt::end_with(self, wrap_with, false) {
            out.append(wrap_with);
        }
        proof {
            assert(out@ =~= (if seq_starts_with(self@, wrap_with@) {
                Seq::<char>::empty()
            } else {
                wrap_with@
            }) + self@ + (if seq_ends_with(self@, wrap_with@) {
                Seq::<char>::empty()
            } else {
                wrap_with@
            }));
        }
        out
    }

    fn unwrap_from_char(&self, wrap_char: char) -> (r: String) {
        let n = self.unicode_len();
        if n >= 2 && self.get_char(0) == wrap_char && self.get_char(n - 1) == wrap_char {
            self.substring_char(1, n - 1).to_owned()
        } else {
            self.to_owned()
        }
    }

    fn unwrap_from_str(&self, wrap_str: &str) -> (r: String) {
        let n = self.unicode_len();
        let m = wrap_str.unicode_len();
        if m > 0 && m <= n && m <= n - m && StringUtilsExt::starts_with(self, wrap_str, false)
            && StringUtilsExt::end_with(self, wrap_str, false) {
            self.substring_char(m, n - m).to_owned()
        } else {
            self.to_owned()
        }
    }

    fn overlay(&self, overlay: &str, start: usize, end: usize) -> (r: String) {
        let n = self.unicode_len();
        let a = if start < n {
            start
        } else {
            n
        };
        let b = if end < n {
            end
        } else {
            n
        };
        let lo = if a <= b {
            a
        } else {
            b
        };
        let hi = if a <= b {
            b
        } else {
            a
        };
        let mut out = self.substring_char(0, lo).to_owned();
        out.append(overlay);
        out.append(self.substring_char(hi, n));
        proof {
            let sn = self@.len() as int;
            let sa = spec_min(start as int, sn);
            let sb = spec_min(end as int, sn);
            let slo = spec_min(sa, sb);
            let shi = if sa <= sb {
                sb
            } else {
                sa
            };
            assert(out@ =~= self@.take(slo) + overlay@ + self@.skip(shi));
        }
        out
    }

    fn default_if_empty(&self, default_str: &str) -> (r: String) {
        if str::is_empty(self) {
            default_str.to_owned()
        } else {
            self.to_owned()
        }
    }

    fn default_if_blank(&self, default_str: &str) -> (r: String) {
        if StringUtilsExt::is_blank(self) {
            default_str.to_owned()
        } else {
            self.to_owned()
        }
    }

    fn default_string(&self) -> (r: String) {
        self.to_owned()
    }

    fn lower_case(&self) -> (r: String) {
        str_to_lowercase(self)
    }

    fn upper_case(&self) -> (r: String) {
        str_to_uppercase(self)
    }

    fn repeat(&self, repeat: usize) -> (r: String) {
        let mut out = String::new();
        let mut i: usize = 0;
        while i < repeat
            invariant
                i <= repeat,
                out@ == repeat_spec(self@, i as int),
            decreases repeat - i,
        {
            out.append(self);
            i += 1;
        }
        out
    }

    fn rotate(&self, shift: isize) -> (r: String) {
        let n = self.unicode_len();
        if n == 0 {
            return String::new();
        }
        let d: usize = if shift >= 0 {
            (shift as usize) % n
        } else {
            let mag = ((-(shift + 1)) as usize) + 1;
            let r0 = mag % n;
            proof {
                let sh = shift as int;
                let nn = n as int;
                let q = (-sh) / nn;
                vstd::arithmetic::div_mod::lemma_fundamental_div_mod(-sh, nn);
                if (-sh) % nn == 0 {
                    assert(sh == (-q) * nn + 0) by (nonlinear_arith)
                        requires
                            -sh == nn * q,
                    ;
                    vstd::arithmetic::div_mod::lemma_fundamental_div_mod_converse_mod(
                        sh,
                        nn,
                        -q,
                        0,
                    );
                } else {
                    assert(sh == (-q - 1) * nn + (nn - ((-sh) % nn))) by (nonlinear_arith)
                        requires
                            -sh == nn * q + ((-sh) % nn),
                    ;
                    vstd::arithmetic::div_mod::lemma_fundamental_div_mod_converse_mod(
                        sh,
                        nn,
                        -q - 1,
                        nn - ((-sh) % nn),
                    );
                }
            }
            if r0 == 0 {
                0
            } else {
                n - r0
            }
        };
        let k = n - d;
        let mut out = self.substring_char(k, n).to_owned();
        out.append(self.substring_char(0, k));
        out
    }

    fn reverse(&self) -> (r: String) {
        let n = self.unicode_len();
        let mut out = String::new();
        let mut i: usize = 0;
        while i < n
            invariant
                i <= n,
                n == self@.len(),
                out@.len() == i,
                forall|k: int| 0 <= k < i ==> out@[k] == self@[n - 1 - k],
            decreases n - i,
        {
            out.push(self.get_char(n - 1 - i));
            i += 1;
        }
        proof {
            assert(out@ =~= self@.reverse());
        }
        out
    }

    fn count_matches(&self, ch: char) -> (r: u64) {
        let n = self.unicode_len();
        let mut cnt: u64 = 0;
        let mut i: usize = 0;
        while i < n
            invariant
                i <= n,
                n == self@.len(),
                cnt as int == count_pred(self@.take(i as int), eq_char_pred(ch)),
                cnt <= i,
            decreases n - i,
        {
            proof {
                lemma_count_pred_take_succ(self@, eq_char_pred(ch), i as int);
            }
            if self.get_char(i) == ch {
                cnt = cnt + 1;
            }
            i += 1;
        }
        proof {
            assert(self@.take(n as int) =~= self@);
        }
        cnt
    }

    fn count_matches_str(&self, sub: &str) -> (r: u64) {
        let n = self.unicode_len();
        let m = sub.unicode_len();
        if m == 0 {
            return 0;
        }
        let mut cnt: u64 = 0;
        let mut pos: usize = 0;
        proof {
            assert(self@.skip(0) =~= self@);
        }
        while pos < n
            invariant
                pos <= n,
                n == self@.len(),
                m == sub@.len(),
                m > 0,
                cnt <= pos,
                count_matches_spec(self@, sub@) == cnt + count_matches_spec(
                    self@.skip(pos as int),
                    sub@,
                ),
            decreases n - pos,
        {
            let tail_matches = m <= n && pos <= n - m && matches_at_str(self, sub, pos);
            proof {
                let suffix = self@.skip(pos as int);
                if pos + m <= n {
                    assert(suffix.subrange(0, m as int) =~= self@.subrange(pos as int, pos + m));
                }
                if tail_matches {
                    assert(suffix.skip(m as int) =~= self@.skip(pos + m));
                } else {
                    assert(suffix.skip(1) =~= self@.skip(pos + 1));
                }
            }
            if tail_matches {
                cnt = cnt + 1;
                pos += m;
            } else {
                pos += 1;
            }
        }
        proof {
            assert(self@.skip(n as int) =~= Seq::<char>::empty());
        }
        cnt
    }

    fn digits(&self) -> (r: String) {
        let n = self.unicode_len();
        let mut out = String::new();
        let mut i: usize = 0;
        while i < n
            invariant
                i <= n,
                n == self@.len(),
                out@ == self@.take(i as int).filter(numeric_pred()),
            decreases n - i,
        {
            let c = self.get_char(i);
            proof {
                self@.take(i as int).lemma_filter_push(self@[i as int], numeric_pred());
                self@.lemma_take_succ_push(i as int);
            }
            if char_is_numeric(c) {
                out.push(c);
            }
            i += 1;
        }
        proof {
            assert(self@.take(n as int) =~= self@);
        }
        out
    }

    fn delete_whitespace(&self) -> (r: String) {
        let n = self.unicode_len();
        let mut out = String::new();
        let mut i: usize = 0;
        while i < n
            invariant
                i <= n,
                n == self@.len(),
                out@ == self@.take(i as int).filter(not_space_pred()),
            decreases n - i,
        {
            let c = self.get_char(i);
            proof {
                self@.take(i as int).lemma_filter_push(self@[i as int], not_space_pred());
                self@.lemma_take_succ_push(i as int);
            }
            if !char_is_space(c) {
                out.push(c);
            }
            i += 1;
        }
        proof {
            assert(self@.take(n as int) =~= self@);
        }
        out
    }

    fn remove_char(&self, remove: char) -> (r: String) {
        let n = self.unicode_len();
        let mut out = String::new();
        let mut i: usize = 0;
        while i < n
            invariant
                i <= n,
                n == self@.len(),
                out@ == self@.take(i as int).filter(ne_char_pred(remove)),
            decreases n - i,
        {
            let c = self.get_char(i);
            proof {
                self@.take(i as int).lemma_filter_push(self@[i as int], ne_char_pred(remove));
                self@.lemma_take_succ_push(i as int);
            }
            if c != remove {
                out.push(c);
            }
            i += 1;
        }
        proof {
            assert(self@.take(n as int) =~= self@);
        }
        out
    }

    fn replace_chars(&self, search: char, replace: char) -> (r: String) {
        let n = self.unicode_len();
        let mut out = String::new();
        let mut i: usize = 0;
        while i < n
            invariant
                i <= n,
                n == self@.len(),
                out@.len() == i,
                forall|k: int|
                    0 <= k < i ==> out@[k] == (#[trigger] replace_map(search, replace)(self@[k])),
            decreases n - i,
        {
            let c = self.get_char(i);
            if c == search {
                out.push(replace);
            } else {
                out.push(c);
            }
            i += 1;
        }
        proof {
            assert(out@ =~= self@.map_values(replace_map(search, replace)));
        }
        out
    }

    fn replace_chars_in(&self, search_chars: &str, replace_chars: &str) -> (r: String) {
        let n = self.unicode_len();
        let rlen = replace_chars.unicode_len();
        let mut out = String::new();
        let mut pos: usize = 0;
        proof {
            assert(self@.skip(0) =~= self@);
            assert(Seq::<char>::empty() + replace_chars_spec(self@, search_chars@, replace_chars@)
                =~= replace_chars_spec(self@, search_chars@, replace_chars@));
        }
        while pos < n
            invariant
                pos <= n,
                n == self@.len(),
                rlen == replace_chars@.len(),
                replace_chars_spec(self@, search_chars@, replace_chars@) == out@
                    + replace_chars_spec(self@.skip(pos as int), search_chars@, replace_chars@),
            decreases n - pos,
        {
            let c = self.get_char(pos);
            proof {
                let suffix = self@.skip(pos as int);
                assert(suffix[0] == self@[pos as int]);
                assert(suffix.skip(1) =~= self@.skip(pos + 1));
            }
            match find_char_from(search_chars, c, 0) {
                Some(idx) => {
                    proof {
                        lemma_char_index_in_is(search_chars@, c, idx as int);
                    }
                    if idx < rlen {
                        out.push(replace_chars.get_char(idx));
                    }
                },
                None => {
                    proof {
                        lemma_char_index_in_is(search_chars@, c, search_chars@.len() as int);
                    }
                    out.push(c);
                },
            }
            proof {
                assert(out@ + replace_chars_spec(self@.skip(pos + 1), search_chars@, replace_chars@)
                    =~= replace_chars_spec(self@, search_chars@, replace_chars@));
            }
            pos += 1;
        }
        proof {
            assert(self@.skip(n as int) =~= Seq::<char>::empty());
            assert(out@ + replace_chars_spec(self@.skip(n as int), search_chars@, replace_chars@)
                =~= out@);
        }
        out
    }

    fn capitalize(&self) -> (r: String) {
        let n = self.unicode_len();
        if n == 0 {
            return String::new();
        }
        let mut out = char_to_uppercase(self.get_char(0));
        out.append(self.substring_char(1, n));
        out
    }

    fn uncapitalize(&self) -> (r: String) {
        let n = self.unicode_len();
        if n == 0 {
            return String::new();
        }
        let mut out = char_to_lowercase(self.get_char(0));
        out.append(self.substring_char(1, n));
        out
    }

    fn swap_case(&self) -> (r: String) {
        let n = self.unicode_len();
        let mut out = String::new();
        let mut i: usize = 0;
        while i < n
            invariant
                i <= n,
                n == self@.len(),
                out@ == swap_case_spec(self@.take(i as int)),
            decreases n - i,
        {
            let c = self.get_char(i);
            proof {
                assert(self@.take(i + 1).drop_last() =~= self@.take(i as int));
                assert(self@.take(i + 1).last() == self@[i as int]);
            }
            if c.is_uppercase() {
                out.append(char_to_lowercase(c).as_str());
            } else if c.is_lowercase() {
                out.append(char_to_uppercase(c).as_str());
            } else {
                out.push(c);
                proof {
                    assert(swapped_char(c) =~= seq![c]);
                    assert(out@ =~= swap_case_spec(self@.take(i as int)) + swapped_char(c));
                }
            }
            i += 1;
        }
        proof {
            assert(self@.take(n as int) =~= self@);
        }
        out
    }

    fn index_of_difference(&self, str2: &str) -> (r: Option<usize>) {
        let n = self.unicode_len();
        let m = str2.unicode_len();
        let bound = if n < m {
            n
        } else {
            m
        };
        let mut i: usize = 0;
        while i < bound
            invariant
                i <= bound,
                n == self@.len(),
                m == str2@.len(),
                bound == spec_min(n as int, m as int),
                forall|j: int| 0 <= j < i ==> self@[j] == str2@[j],
            decreases bound - i,
        {
            if self.get_char(i) != str2.get_char(i) {
                return Some(i);
            }
            i += 1;
        }
        if n == m {
            proof {
                assert(self@ =~= str2@);
            }
            None
        } else {
            Some(bound)
        }
    }

    fn difference(&self, str2: &str) -> (r: String) {
        match StringUtilsExt::index_of_difference(self, str2) {
            Some(i) => {
                let m = str2.unicode_len();
                let out = str2.substring_char(i, m).to_owned();
                proof {
                    assert forall|k: int| #[trigger]
                        first_diff_at(self@, str2@, k) implies out@ == str2@.skip(k) by {
                        lemma_first_diff_unique(self@, str2@, i as int, k);
                    }
                }
                out
            },
            None => {
                let out = String::new();
                proof {
                    assert forall|k: int| #[trigger]
                        first_diff_at(self@, str2@, k) implies out@ == str2@.skip(k) by {
                        assert(false);
                    }
                }
                out
            },
        }
    }

    fn left_pad(&self, size: usize) -> (r: String) {
        let n = self.unicode_len();
        if size <= n {
            return self.to_owned();
        }
        let mut out = build_pad(size - n, "");
        out.append(self);
        proof {
            reveal_strlit("");
            assert(pad_seq((size - n) as int, ""@) =~= pad_seq((size - n) as int, Seq::empty()));
            assert(pad_seq((size - n) as int, Seq::empty()) =~= pad_seq(
                (size - n) as int,
                seq![' '],
            ));
        }
        out
    }

    fn left_pad_with(&self, size: usize, pad_char: char) -> (r: String) {
        let n = self.unicode_len();
        if size <= n {
            return self.to_owned();
        }
        let mut out = String::new();
        let mut i: usize = 0;
        let width = size - n;
        while i < width
            invariant
                i <= width,
                out@.len() == i,
                forall|k: int| 0 <= k < i ==> out@[k] == pad_char,
            decreases width - i,
        {
            out.push(pad_char);
            i += 1;
        }
        out.append(self);
        proof {
            assert(out@ =~= pad_seq(width as int, seq![pad_char]) + self@);
        }
        out
    }

    fn left_pad_with_str(&self, size: usize, pad_str: &str) -> (r: String) {
        let n = self.unicode_len();
        if size <= n {
            return self.to_owned();
        }
        let mut out = build_pad(size - n, pad_str);
        out.append(self);
        out
    }

    fn right_pad(&self, size: usize) -> (r: String) {
        let n = self.unicode_len();
        if size <= n {
            return self.to_owned();
        }
        let mut out = self.to_owned();
        out.append(build_pad(size - n, "").as_str());
        proof {
            reveal_strlit("");
            assert(pad_seq((size - n) as int, ""@) =~= pad_seq((size - n) as int, Seq::empty()));
            assert(pad_seq((size - n) as int, Seq::empty()) =~= pad_seq(
                (size - n) as int,
                seq![' '],
            ));
        }
        out
    }

    fn right_pad_with(&self, size: usize, pad_char: char) -> (r: String) {
        let n = self.unicode_len();
        if size <= n {
            return self.to_owned();
        }
        let mut out = self.to_owned();
        let mut i: usize = 0;
        let width = size - n;
        while i < width
            invariant
                i <= width,
                out@.len() == self@.len() + i,
                out@.take(self@.len() as int) == self@,
                forall|k: int| self@.len() <= k < self@.len() + i ==> out@[k] == pad_char,
            decreases width - i,
        {
            out.push(pad_char);
            proof {
                assert(out@.take(self@.len() as int) =~= self@);
            }
            i += 1;
        }
        proof {
            assert(out@ =~= self@ + pad_seq(width as int, seq![pad_char]));
        }
        out
    }

    fn right_pad_with_str(&self, size: usize, pad_str: &str) -> (r: String) {
        let n = self.unicode_len();
        if size <= n {
            return self.to_owned();
        }
        let mut out = self.to_owned();
        out.append(build_pad(size - n, pad_str).as_str());
        out
    }

    fn center(&self, size: usize) -> (r: String) {
        let n = self.unicode_len();
        if size <= n {
            return self.to_owned();
        }
        let half = (size - n) / 2;
        let t = StringUtilsExt::left_pad(self, n + half);
        StringUtilsExt::right_pad(t.as_str(), size)
    }

    fn center_with(&self, size: usize, pad_str: &str) -> (r: String) {
        let n = self.unicode_len();
        if size <= n {
            return self.to_owned();
        }
        let half = (size - n) / 2;
        let t = StringUtilsExt::left_pad_with_str(self, n + half, pad_str);
        StringUtilsExt::right_pad_with_str(t.as_str(), size, pad_str)
    }

    fn center_with_char(&self, size: usize, pad_char: &str) -> (r: String) {
        StringUtilsExt::center_with(self, size, pad_char)
    }

    fn strip_start(&self) -> (r: String) {
        let n = self.unicode_len();
        let mut a: usize = 0;
        while a < n && char_is_space(self.get_char(a))
            invariant
                a <= n,
                n == self@.len(),
                forall|j: int| 0 <= j < a ==> is_space_char(#[trigger] self@[j]),
            decreases n - a,
        {
            a += 1;
        }
        proof {
            lemma_leading_count_is(self@, space_pred(), a as int);
        }
        self.substring_char(a, n).to_owned()
    }

    fn strip_end(&self) -> (r: String) {
        let n = self.unicode_len();
        let mut b: usize = n;
        while b > 0 && char_is_space(self.get_char(b - 1))
            invariant
                b <= n,
                n == self@.len(),
                forall|j: int| b <= j < n ==> is_space_char(#[trigger] self@[j]),
            decreases b,
        {
            b -= 1;
        }
        proof {
            lemma_trailing_count_is(self@, space_pred(), (n - b) as int);
        }
        self.substring_char(0, b).to_owned()
    }

    fn strip(&self) -> (r: String) {
        let t = StringUtilsExt::strip_start(self);
        StringUtilsExt::strip_end(t.as_str())
    }

    fn strip_start_in(&self, strip_chars: &str) -> (r: String) {
        let n = self.unicode_len();
        let mut a: usize = 0;
        while a < n && char_in_str(strip_chars, self.get_char(a))
            invariant
                a <= n,
                n == self@.len(),
                forall|j: int| 0 <= j < a ==> strip_chars@.contains(#[trigger] self@[j]),
            decreases n - a,
        {
            a += 1;
        }
        proof {
            lemma_leading_count_is(self@, in_set_pred(strip_chars@), a as int);
        }
        self.substring_char(a, n).to_owned()
    }

    fn strip_end_in(&self, strip_chars: &str) -> (r: String) {
        let n = self.unicode_len();
        let mut b: usize = n;
        while b > 0 && char_in_str(strip_chars, self.get_char(b - 1))
            invariant
                b <= n,
                n == self@.len(),
                forall|j: int| b <= j < n ==> strip_chars@.contains(#[trigger] self@[j]),
            decreases b,
        {
            b -= 1;
        }
        proof {
            lemma_trailing_count_is(self@, in_set_pred(strip_chars@), (n - b) as int);
        }
        self.substring_char(0, b).to_owned()
    }

    fn strip_in(&self, strip_chars: &str) -> (r: String) {
        let t = StringUtilsExt::strip_start_in(self, strip_chars);
        StringUtilsExt::strip_end_in(t.as_str(), strip_chars)
    }

    fn compare(&self, str2: &str) -> (r: i32) {
        let n = self.unicode_len();
        let m = str2.unicode_len();
        let bound = if n < m {
            n
        } else {
            m
        };
        let mut i: usize = 0;
        while i < bound
            invariant
                i <= bound,
                bound == spec_min(n as int, m as int),
                n == self@.len(),
                m == str2@.len(),
                forall|j: int| 0 <= j < i ==> self@[j] == str2@[j],
            decreases bound - i,
        {
            let a = self.get_char(i);
            let b = str2.get_char(i);
            if a != b {
                proof {
                    lemma_compare_skip(self@, str2@, i as int);
                    assert(self@.skip(i as int)[0] == self@[i as int]);
                    assert(str2@.skip(i as int)[0] == str2@[i as int]);
                }
                if (a as u32) < (b as u32) {
                    return -1;
                } else {
                    return 1;
                }
            }
            i += 1;
        }
        proof {
            lemma_compare_skip(self@, str2@, bound as int);
        }
        if n == m {
            0
        } else if n < m {
            -1
        } else {
            1
        }
    }

    fn compare_ignore_case(&self, str2: &str) -> (r: i32) {
        let n = self.unicode_len();
        let m = str2.unicode_len();
        let bound = if n < m {
            n
        } else {
            m
        };
        let mut i: usize = 0;
        while i < bound
            invariant
                i <= bound,
                bound == spec_min(n as int, m as int),
                n == self@.len(),
                m == str2@.len(),
                forall|j: int| 0 <= j < i ==> fold_char(#[trigger] self@[j]) == fold_char(str2@[j]),
            decreases bound - i,
        {
            let a = char_fold(self.get_char(i));
            let b = char_fold(str2.get_char(i));
            if a != b {
                proof {
                    let fs = fold_seq(self@);
                    let ft = fold_seq(str2@);
                    assert forall|j: int| 0 <= j < i implies fs[j] == ft[j] by {
                        assert(fs[j] == fold_char(self@[j]));
                        assert(ft[j] == fold_char(str2@[j]));
                    }
                    lemma_compare_skip(fs, ft, i as int);
                    assert(fs.skip(i as int)[0] == fs[i as int]);
                    assert(ft.skip(i as int)[0] == ft[i as int]);
                    assert(fs[i as int] == fold_char(self@[i as int]));
                    assert(ft[i as int] == fold_char(str2@[i as int]));
                }
                if (a as u32) < (b as u32) {
                    return -1;
                } else {
                    return 1;
                }
            }
            i += 1;
        }
        proof {
            let fs = fold_seq(self@);
            let ft = fold_seq(str2@);
            assert forall|j: int| 0 <= j < bound implies fs[j] == ft[j] by {
                assert(fs[j] == fold_char(self@[j]));
                assert(ft[j] == fold_char(str2@[j]));
            }
            lemma_compare_skip(fs, ft, bound as int);
        }
        if n == m {
            0
        } else if n < m {
            -1
        } else {
            1
        }
    }

    fn append_if_missing(&self, suffix: &str, ignore_case: bool) -> (r: String) {
        if StringUtilsExt::end_with(self, suffix, ignore_case) {
            self.to_owned()
        } else {
            let mut out = self.to_owned();
            out.append(suffix);
            out
        }
    }

    fn append_if_missing_one_of(&self, suffix: &str, suffixes: &[&str], ignore_case: bool) -> (r:
        String) {
        if StringUtilsExt::end_with(self, suffix, ignore_case) || ends_with_one_of(
            self,
            suffixes,
            ignore_case,
        ) {
            self.to_owned()
        } else {
            let mut out = self.to_owned();
            out.append(suffix);
            out
        }
    }

    fn prepend_if_missing(&self, prefix: &str, ignore_case: bool) -> (r: String) {
        if StringUtilsExt::starts_with(self, prefix, ignore_case) {
            self.to_owned()
        } else {
            let mut out = prefix.to_owned();
            out.append(self);
            out
        }
    }

    fn prepend_if_missing_one_of(&self, prefix: &str, prefixes: &[&str], ignore_case: bool) -> (r:
        String) {
        if StringUtilsExt::starts_with(self, prefix, ignore_case) || starts_with_one_of(
            self,
            prefixes,
            ignore_case,
        ) {
            self.to_owned()
        } else {
            let mut out = prefix.to_owned();
            out.append(self);
            out
        }
    }

    fn abbreviate(&self, max_width: usize) -> (r: UtilsResult<String>) {
        crate::abbrev::abbreviate(self, max_width)
    }

    fn abbreviate_with_abbrev_marker(&self, abbrev_marker: &str, max_width: usize) -> (r:
        UtilsResult<String>) {
        crate::abbrev::abbreviate_with_marker(self, abbrev_marker, max_width)
    }

    fn abbreviate_with_full_opt(&self, abbrev_marker: &str, offset: isize, max_width: usize) -> (r:
        UtilsResult<String>) {
        crate::abbrev::abbreviate_full(self, abbrev_marker, offset, max_width)
    }

    fn abbreviate_with_offset(&self, offset: isize, max_width: usize) -> (r: UtilsResult<String>) {
        crate::abbrev::abbreviate_full(self, "...", offset, max_width)
    }

    fn abbreviate_middle(&self, middle: &str, length: usize) -> (r: UtilsResult<String>) {
        let n = self.unicode_len();
        let m = middle.unicode_len();
        if n > 0 && m > 0 && length < n && length >= 2 && length - 2 >= m {
            let target = length - m;
            let start_off = target / 2 + target % 2;
            let end_off = n - target / 2;
            let mut out = self.substring_char(0, start_off).to_owned();
            out.append(middle);
            out.append(self.substring_char(end_off, n));
            Ok(out)
        } else {
            Ok(self.to_owned())
        }
    }

    fn normalize_space(&self) -> (r: String) {
        let stripped = StringUtilsExt::strip(self);
        let t = stripped.as_str();
        let n = t.unicode_len();
        let mut out = String::new();
        let mut pos: usize = 0;
        proof {
            assert(t@.skip(0) =~= t@);
            assert(Seq::<char>::empty() + collapse_space_spec(t@) =~= collapse_space_spec(t@));
        }
        while pos < n
            invariant
                pos <= n,
                n == t@.len(),
                t@ == trim_spec(self@, space_pred()),
                collapse_space_spec(t@) == out@ + collapse_space_spec(t@.skip(pos as int)),
            decreases n - pos,
        {
            let c = t.get_char(pos);
            let skip_this = pos + 1 < n && char_is_space(c) && char_is_space(t.get_char(pos + 1));
            proof {
                let suffix = t@.skip(pos as int);
                assert(suffix[0] == t@[pos as int]);
                if pos + 1 < n {
                    assert(suffix[1] == t@[pos + 1]);
                }
                assert(suffix.skip(1) =~= t@.skip(pos + 1));
            }
            if !skip_this {
                if char_is_space(c) {
                    out.push(' ');
                } else {
                    out.push(c);
                }
                proof {
                    assert(out@ + collapse_space_spec(t@.skip(pos + 1)) =~= collapse_space_spec(
                        t@,
                    ));
                }
            }
            pos += 1;
        }
        proof {
            assert(t@.skip(n as int) =~= Seq::<char>::empty());
            assert(out@ + collapse_space_spec(t@.skip(n as int)) =~= out@);
        }
        out
    }

    fn trim(&self) -> (r: String) {
        let n = self.unicode_len();
        let mut a: usize = 0;
        while a < n && self.get_char(a) <= ' '
            invariant
                a <= n,
                n == self@.len(),
                forall|j: int| 0 <= j < a ==> (#[trigger] self@[j]) as int <= 32,
            decreases n - a,
        {
            a += 1;
        }
        let mut b: usize = n;
        while b > a && self.get_char(b - 1) <= ' '
            invariant
                a <= b <= n,
                n == self@.len(),
                forall|j: int| b <= j < n ==> (#[trigger] self@[j]) as int <= 32,
            decreases b,
        {
            b -= 1;
        }
        proof {
            let p = control_or_space_pred();
            lemma_leading_count_is(self@, p, a as int);
            let t = self@.skip(a as int);
            assert forall|j: int| t.len() - (n - b) <= j < t.len() implies p(#[trigger] t[j]) by {
                assert(t[j] == self@[a + j]);
            }
            if (n - b) < t.len() {
                assert(t[t.len() - (n - b) - 1] == self@[b - 1]);
            }
            lemma_trailing_count_is(t, p, (n - b) as int);
            assert(trim_spec(self@, p) =~= self@.subrange(a as int, b as int));
        }
        self.substring_char(a, b).to_owned()
    }
}

/// The position in `searches` of the first non-empty needle that occurs in
/// `s` at position `pos`, if any does.
fn first_hit_at(s: &str, pos: usize, searches: &[&str]) -> (r: Option<usize>)
    requires
        pos <= s@.len(),
    ensures
        r matches Some(k) ==> k < searches@.len() && searches.deep_view()[k as int].len() > 0
            && seq_matches_at(s@.skip(pos as int), searches.deep_view()[k as int], 0)
            && first_matching(s@.skip(pos as int), searches.deep_view()) == k,
        r is None ==> first_matching(s@.skip(pos as int), searches.deep_view()) < 0,
{
    let n = s.unicode_len();
    let cnt = searches.len();
    let mut k: usize = 0;
    while k < cnt
        invariant
            k <= cnt,
            cnt == searches@.len(),
            pos <= n,
            n == s@.len(),
            forall|q: int|
                0 <= q < k ==> !((#[trigger] searches.deep_view()[q]).len() > 0 && seq_matches_at(
                    s@.skip(pos as int),
                    searches.deep_view()[q],
                    0,
                )),
        decreases cnt - k,
    {
        let t = searches[k];
        let m = t.unicode_len();
        proof {
            assert(searches.deep_view()[k as int] == searches@[k as int]@);
            let suffix = s@.skip(pos as int);
            if m > 0 && m <= n - pos {
                assert(suffix.subrange(0, m as int) =~= s@.subrange(pos as int, pos + m));
            }
        }
        if m > 0 && m <= n - pos && matches_at_str(s, t, pos) {
            proof {
                lemma_first_matching_is(s@.skip(pos as int), searches.deep_view(), k as int);
            }
            return Some(k);
        }
        k += 1;
    }
    proof {
        lemma_first_matching_is(s@.skip(pos as int), searches.deep_view(), cnt as int);
    }
    None
}

/// The text with every occurrence of `t` elided, scanning left to right.
fn remove_every(s: &str, t: &str) -> (r: String)
    ensures
        r@ == remove_all_spec(s@, t@),
{
    let n = s.unicode_len();
    let m = t.unicode_len();
    if m == 0 {
        return s.to_owned();
    }
    let mut out = String::new();
    let mut pos: usize = 0;
    proof {
        assert(s@.skip(0) =~= s@);
        assert(Seq::<char>::empty() + remove_all_spec(s@, t@) =~= remove_all_spec(s@, t@));
    }
    while pos < n
        invariant
            pos <= n,
            n == s@.len(),
            m == t@.len(),
            m > 0,
            remove_all_spec(s@, t@) == out@ + remove_all_spec(s@.skip(pos as int), t@),
        decreases n - pos,
    {
        let tail_matches = m <= n && pos <= n - m && matches_at_str(s, t, pos);
        proof {
            let suffix = s@.skip(pos as int);
            if pos + m <= n {
                assert(suffix.subrange(0, m as int) =~= s@.subrange(pos as int, pos + m));
            }
            if tail_matches {
                assert(suffix.skip(m as int) =~= s@.skip(pos + m));
            } else {
                assert(suffix.skip(1) =~= s@.skip(pos + 1));
                assert(suffix[0] == s@[pos as int]);
            }
        }
        if tail_matches {
            pos += m;
        } else {
            out.push(s.get_char(pos));
            proof {
                assert(out@ + remove_all_spec(s@.skip(pos + 1), t@) =~= remove_all_spec(s@, t@));
            }
            pos += 1;
        }
    }
    proof {
        assert(s@.skip(n as int) =~= Seq::<char>::empty());
        assert(out@ + remove_all_spec(s@.skip(n as int), t@) =~= out@);
    }
    out
}

/// Whether the text ends with one of the given suffixes, case-sensitively
/// or ASCII-case-folded as requested.
fn ends_with_one_of(s: &str, suffixes: &[&str], ignore_case: bool) -> (r: bool)
    ensures
        !ignore_case ==> r == exists|i: int|
            0 <= i < suffixes@.len() && seq_ends_with(s@, (#[trigger] suffixes@[i])@),
        ignore_case ==> r == exists|i: int|
            0 <= i < suffixes@.len() && seq_ends_with(
                fold_seq(s@),
                fold_seq((#[trigger] suffixes@[i])@),
            ),
{
    let n = suffixes.len();
    let mut i: usize = 0;
    while i < n
        invariant
            i <= n,
            n == suffixes@.len(),
            !ignore_case ==> forall|j: int|
                0 <= j < i ==> !seq_ends_with(s@, (#[trigger] suffixes@[j])@),
            ignore_case ==> forall|j: int|
                0 <= j < i ==> !seq_ends_with(fold_seq(s@), fold_seq((#[trigger] suffixes@[j])@)),
        decreases n - i,
    {
        if StringUtilsExt::end_with(s, suffixes[i], ignore_case) {
            return true;
        }
        i += 1;
    }
    false
}

/// Whether the text begins with one of the given prefixes, case-sensitively
/// or ASCII-case-folded as requested.
fn starts_with_one_of(s: &str, prefixes: &[&str], ignore_case: bool) -> (r: bool)
    ensures
        !ignore_case ==> r == exists|i: int|
            0 <= i < prefixes@.len() && seq_starts_with(s@, (#[trigger] prefixes@[i])@),
        ignore_case ==> r == exists|i: int|
            0 <= i < prefixes@.len() && seq_starts_with(
                fold_seq(s@),
                fold_seq((#[trigger] prefixes@[i])@),
            ),
{
    let n = prefixes.len();
    let mut i: usize = 0;
    while i < n
        invariant
            i <= n,
            n == prefixes@.len(),
            !ignore_case ==> forall|j: int|
                0 <= j < i ==> !seq_starts_with(s@, (#[trigger] prefixes@[j])@),
            ignore_case ==> forall|j: int|
                0 <= j < i ==> !seq_starts_with(fold_seq(s@), fold_seq((#[trigger] prefixes@[j])@)),
        decreases n - i,
    {
        if StringUtilsExt::starts_with(s, prefixes[i], ignore_case) {
            return true;
        }
        i += 1;
    }
    false
}

/// The padding block of `count` codepoints: `p` repeated cyclically, or
/// spaces when `p` is empty.
fn build_pad(count: usize, p: &str) -> (r: String)
    ensures
        r@ == pad_seq(count as int, p@),
{
    let m = p.unicode_len();
    let mut out = String::new();
    let mut i: usize = 0;
    if m == 0 {
        while i < count
            invariant
                i <= count,
                out@.len() == i,
                forall|k: int| 0 <= k < i ==> out@[k] == ' ',
            decreases count - i,
        {
            out.push(' ');
            i += 1;
        }
        proof {
            assert(out@ =~= pad_seq(count as int, p@));
        }
        return out;
    }
    while i < count
        invariant
            i <= count,
            m == p@.len(),
            m > 0,
            out@.len() == i,
            forall|k: int| 0 <= k < i ==> out@[k] == p@[k % (m as int)],
        decreases count - i,
    {
        out.push(p.get_char(i % m));
        i += 1;
    }
    proof {
        assert(out@ =~= pad_seq(count as int, p@));
    }
    out
}

} // verus!
