//! Mathematical models shared by the catalogue's contracts: substring
//! occurrence, prefix and suffix tests, whitespace predicates, trimming and
//! counting over sequences of codepoints.

use vstd::prelude::*;

use crate::chars::{fold_seq, is_space_char, numeric_char};

verus! {

/// `t` occurs in `s` at position `i`.
pub open spec fn seq_matches_at(s: Seq<char>, t: Seq<char>, i: int) -> bool {
    0 <= i && i + t.len() <= s.len() && s.subrange(i, i + t.len()) == t
}

/// `t` occurs somewhere in `s`.
pub open spec fn seq_contains_seq(s: Seq<char>, t: Seq<char>) -> bool {
    exists|i: int| seq_matches_at(s, t, i)
}

/// `s` begins with `t`.
pub open spec fn seq_starts_with(s: Seq<char>, t: Seq<char>) -> bool {
    t.len() <= s.len() && s.take(t.len() as int) == t
}

/// `s` ends with `t`.
pub open spec fn seq_ends_with(s: Seq<char>, t: Seq<char>) -> bool {
    t.len() <= s.len() && s.skip(s.len() - t.len()) == t
}

/// Every codepoint of `s` is whitespace; an empty text qualifies.
pub open spec fn all_space(s: Seq<char>) -> bool {
    forall|i: int| 0 <= i < s.len() ==> is_space_char(#[trigger] s[i])
}

/// Blank: empty or consisting only of whitespace.
pub open spec fn is_blank_seq(s: Seq<char>) -> bool {
    all_space(s)
}

/// The whitespace predicate as a value, for trimming.
pub open spec fn space_pred() -> spec_fn(char) -> bool {
    |c: char| is_space_char(c)
}

/// The predicate trimmed by `trim`: ASCII control characters and the space
/// character, every codepoint up to and including `' '`.
pub open spec fn control_or_space_pred() -> spec_fn(char) -> bool {
    |c: char| c as int <= 32
}

/// Membership in a caller-supplied set of codepoints, for `strip_in`.
pub open spec fn in_set_pred(t: Seq<char>) -> spec_fn(char) -> bool {
    |c: char| t.contains(c)
}

/// `i` is the first position where `t` occurs in `s`.
pub open spec fn first_match_at(s: Seq<char>, t: Seq<char>, i: int) -> bool {
    seq_matches_at(s, t, i) && forall|j: int| 0 <= j < i ==> !seq_matches_at(s, t, j)
}

/// `i` is the first position at or after `from` where `t` occurs in `s`.
pub open spec fn first_match_from_at(s: Seq<char>, t: Seq<char>, from: int, i: int) -> bool {
    from <= i && seq_matches_at(s, t, i) && forall|j: int|
        from <= j < i ==> !seq_matches_at(s, t, j)
}

/// `i` is the last position where `t` occurs in `s`.
pub open spec fn last_match_at(s: Seq<char>, t: Seq<char>, i: int) -> bool {
    seq_matches_at(s, t, i) && forall|j: int| j > i ==> !seq_matches_at(s, t, j)
}

/// `i` is the first position where the codepoint `c` occurs in `s`.
pub open spec fn first_char_at(s: Seq<char>, c: char, i: int) -> bool {
    0 <= i < s.len() && s[i] == c && forall|j: int| 0 <= j < i ==> s[j] != c
}

/// `i` is the last position where the codepoint `c` occurs in `s`.
pub open spec fn last_char_at(s: Seq<char>, c: char, i: int) -> bool {
    0 <= i < s.len() && s[i] == c && forall|j: int| i < j < s.len() ==> s[j] != c
}

/// `i` is the first occurrence of `open` in `s` and `j` the first
/// occurrence of `close` after it; the span `[i + open.len(), j)` is the
/// content between the two delimiters.
pub open spec fn between_at(
    s: Seq<char>,
    open: Seq<char>,
    close: Seq<char>,
    i: int,
    j: int,
) -> bool {
    first_match_at(s, open, i) && first_match_from_at(s, close, i + open.len(), j)
}

/// `i` is the first occurrence of `open` in `s`, and no occurrence of
/// `close` follows it.
pub open spec fn unclosed_at(s: Seq<char>, open: Seq<char>, close: Seq<char>, i: int) -> bool {
    first_match_at(s, open, i) && forall|j: int|
        j >= i + open.len() ==> !seq_matches_at(s, close, j)
}

/// There is only one first occurrence of `t` in `s`.
pub proof fn lemma_first_match_unique(s: Seq<char>, t: Seq<char>, i: int, k: int)
    requires
        first_match_at(s, t, i),
        first_match_at(s, t, k),
    ensures
        i == k,
{
    if i < k {
        assert(!seq_matches_at(s, t, i));
    }
    if k < i {
        assert(!seq_matches_at(s, t, k));
    }
}

/// There is only one first occurrence of `t` in `s` at or after `from`.
pub proof fn lemma_first_match_from_unique(s: Seq<char>, t: Seq<char>, from: int, i: int, k: int)
    requires
        first_match_from_at(s, t, from, i),
        first_match_from_at(s, t, from, k),
    ensures
        i == k,
{
    if i < k {
        assert(!seq_matches_at(s, t, i));
    }
    if k < i {
        assert(!seq_matches_at(s, t, k));
    }
}

/// There is only one last occurrence of `t` in `s`.
pub proof fn lemma_last_match_unique(s: Seq<char>, t: Seq<char>, i: int, k: int)
    requires
        last_match_at(s, t, i),
        last_match_at(s, t, k),
    ensures
        i == k,
{
    if i < k {
        assert(!seq_matches_at(s, t, k));
    }
    if k < i {
        assert(!seq_matches_at(s, t, i));
    }
}

/// There is only one first occurrence of the codepoint `c` in `s`.
pub proof fn lemma_first_char_unique(s: Seq<char>, c: char, i: int, k: int)
    requires
        first_char_at(s, c, i),
        first_char_at(s, c, k),
    ensures
        i == k,
{
}

/// There is only one last occurrence of the codepoint `c` in `s`.
pub proof fn lemma_last_char_unique(s: Seq<char>, c: char, i: int, k: int)
    requires
        last_char_at(s, c, i),
        last_char_at(s, c, k),
    ensures
        i == k,
{
}

/// `s` with every occurrence of `t` removed, scanning left to right: at
/// each position an occurrence of `t` is skipped whole, otherwise the
/// codepoint is kept.  An empty `t` removes nothing.
pub open spec fn remove_all_spec(s: Seq<char>, t: Seq<char>) -> Seq<char>
    decreases s.len(),
{
    if t.len() == 0 || t.len() > s.len() {
        s
    } else if seq_matches_at(s, t, 0) {
        remove_all_spec(s.skip(t.len() as int), t)
    } else {
        seq![s[0]] + remove_all_spec(s.skip(1), t)
    }
}

/// `s` with every occurrence of `t` removed, comparing ASCII-case-folded,
/// scanning left to right: at each position a folded occurrence of `t` is
/// skipped whole, otherwise the original codepoint is kept.
pub open spec fn remove_all_fold_spec(s: Seq<char>, t: Seq<char>) -> Seq<char>
    decreases s.len(),
{
    if t.len() == 0 || t.len() > s.len() {
        s
    } else if seq_matches_at(fold_seq(s), fold_seq(t), 0) {
        remove_all_fold_spec(s.skip(t.len() as int), t)
    } else {
        seq![s[0]] + remove_all_fold_spec(s.skip(1), t)
    }
}

/// How many times `t` occurs in `s`, scanning left to right and skipping
/// each occurrence whole, so occurrences do not overlap.
pub open spec fn count_matches_spec(s: Seq<char>, t: Seq<char>) -> int
    decreases s.len(),
{
    if t.len() == 0 || t.len() > s.len() {
        0
    } else if seq_matches_at(s, t, 0) {
        1 + count_matches_spec(s.skip(t.len() as int), t)
    } else {
        count_matches_spec(s.skip(1), t)
    }
}

/// How many positions strictly below `upto` hold an occurrence of `t` in
/// `s`; overlapping occurrences all count.
pub open spec fn match_count_below(s: Seq<char>, t: Seq<char>, upto: int) -> int
    decreases upto,
{
    if upto <= 0 {
        0
    } else {
        match_count_below(s, t, upto - 1) + if seq_matches_at(s, t, upto - 1) {
            1int
        } else {
            0int
        }
    }
}

/// How many positions at or above `from` hold an occurrence of `t` in `s`;
/// overlapping occurrences all count.
pub open spec fn match_count_from(s: Seq<char>, t: Seq<char>, from: int) -> int
    decreases s.len() + 1 - from,
{
    if from > s.len() {
        0
    } else {
        (if seq_matches_at(s, t, from) {
            1int
        } else {
            0int
        }) + match_count_from(s, t, from + 1)
    }
}

/// Positions without occurrences do not change the count below them.
pub proof fn lemma_match_count_below_stable(s: Seq<char>, t: Seq<char>, from: int, to: int)
    requires
        0 <= from <= to,
        forall|j: int| from <= j < to ==> !seq_matches_at(s, t, j),
    ensures
        match_count_below(s, t, to) == match_count_below(s, t, from),
    decreases to - from,
{
    if from < to {
        lemma_match_count_below_stable(s, t, from, to - 1);
    }
}

/// Positions without occurrences do not change the count above them.
pub proof fn lemma_match_count_from_stable(s: Seq<char>, t: Seq<char>, from: int, to: int)
    requires
        from <= to <= s.len() + 1,
        forall|j: int| from <= j < to ==> !seq_matches_at(s, t, j),
    ensures
        match_count_from(s, t, from) == match_count_from(s, t, to),
    decreases to - from,
{
    if from < to {
        lemma_match_count_from_stable(s, t, from + 1, to);
    }
}

/// With an empty needle every position up to the end of `s` matches.
pub proof fn lemma_match_count_below_empty(s: Seq<char>, t: Seq<char>, upto: int)
    requires
        t.len() == 0,
        0 <= upto <= s.len(),
    ensures
        match_count_below(s, t, upto) == upto,
    decreases upto,
{
    if upto > 0 {
        lemma_match_count_below_empty(s, t, upto - 1);
        assert(s.subrange(upto - 1, upto - 1) =~= t);
    }
}

/// With an empty needle every position from `from` to the end of `s`
/// matches.
pub proof fn lemma_match_count_from_empty(s: Seq<char>, t: Seq<char>, from: int)
    requires
        t.len() == 0,
        0 <= from <= s.len() + 1,
    ensures
        match_count_from(s, t, from) == s.len() + 1 - from,
    decreases s.len() + 1 - from,
{
    if from <= s.len() {
        lemma_match_count_from_empty(s, t, from + 1);
        assert(s.subrange(from, from) =~= t);
    }
}

/// The position of the first occurrence of the codepoint `c` in `t`, or a
/// negative value when it does not occur.
pub open spec fn char_index_in(t: Seq<char>, c: char) -> int
    decreases t.len(),
{
    if t.len() == 0 {
        -1
    } else if t[0] == c {
        0
    } else {
        let r = char_index_in(t.skip(1), c);
        if r < 0 {
            -1
        } else {
            1 + r
        }
    }
}

/// The first occurrence of `c` in `t` characterizes [`char_index_in`].
pub proof fn lemma_char_index_in_is(t: Seq<char>, c: char, i: int)
    requires
        0 <= i <= t.len(),
        forall|j: int| 0 <= j < i ==> t[j] != c,
        i < t.len() ==> t[i] == c,
    ensures
        i < t.len() ==> char_index_in(t, c) == i,
        i == t.len() ==> char_index_in(t, c) < 0,
    decreases t.len(),
{
    if t.len() > 0 && t[0] != c {
        lemma_char_index_in_is(t.skip(1), c, i - 1);
    }
}

/// What a single codepoint becomes under `replace_chars_in`: the codepoint
/// of `rc` at the position `c` holds in `sc`, nothing when `rc` is too
/// short, and `c` itself when it is not in `sc`.
pub open spec fn char_replacement(c: char, sc: Seq<char>, rc: Seq<char>) -> Seq<char> {
    let idx = char_index_in(sc, c);
    if idx < 0 {
        seq![c]
    } else if idx < rc.len() {
        seq![rc[idx]]
    } else {
        Seq::empty()
    }
}

/// Every codepoint of `s` rewritten by [`char_replacement`].
pub open spec fn replace_chars_spec(s: Seq<char>, sc: Seq<char>, rc: Seq<char>) -> Seq<char>
    decreases s.len(),
{
    if s.len() == 0 {
        Seq::empty()
    } else {
        char_replacement(s[0], sc, rc) + replace_chars_spec(s.skip(1), sc, rc)
    }
}

/// The position of the last occurrence of the codepoint `c` in `s`, or a
/// negative value when it does not occur.
pub open spec fn last_char_index(s: Seq<char>, c: char) -> int
    decreases s.len(),
{
    if s.len() == 0 {
        -1
    } else if s.last() == c {
        s.len() - 1
    } else {
        last_char_index(s.drop_last(), c)
    }
}

/// The last occurrence of `c` in `s` characterizes [`last_char_index`].
pub proof fn lemma_last_char_index_is(s: Seq<char>, c: char, i: int)
    requires
        -1 <= i < s.len(),
        forall|j: int| i < j < s.len() ==> s[j] != c,
        i >= 0 ==> s[i] == c,
    ensures
        last_char_index(s, c) == i,
    decreases s.len(),
{
    if s.len() > 0 && s.last() != c {
        lemma_last_char_index_is(s.drop_last(), c, i);
    }
}

/// The segments of `s` between occurrences of the delimiter `d`, in
/// reverse order, still separated by `d`.
pub open spec fn reverse_delimited_spec(s: Seq<char>, d: char) -> Seq<char>
    decreases s.len(),
{
    let li = last_char_index(s, d);
    if 0 <= li < s.len() {
        s.skip(li + 1) + seq![d] + reverse_delimited_spec(s.take(li), d)
    } else {
        s
    }
}

/// The position in `searches` of the first non-empty needle that occurs at
/// the start of `s`, or a negative value when none does.
pub open spec fn first_matching(s: Seq<char>, searches: Seq<Seq<char>>) -> int
    decreases searches.len(),
{
    if searches.len() == 0 {
        -1
    } else if searches[0].len() > 0 && seq_matches_at(s, searches[0], 0) {
        0
    } else {
        let r = first_matching(s, searches.skip(1));
        if r < 0 {
            -1
        } else {
            1 + r
        }
    }
}

/// The index of the needle found at the start of `s` characterizes
/// [`first_matching`].
pub proof fn lemma_first_matching_is(s: Seq<char>, searches: Seq<Seq<char>>, k: int)
    requires
        0 <= k <= searches.len(),
        forall|q: int|
            0 <= q < k ==> !((#[trigger] searches[q]).len() > 0 && seq_matches_at(
                s,
                searches[q],
                0,
            )),
        k < searches.len() ==> searches[k].len() > 0 && seq_matches_at(s, searches[k], 0),
    ensures
        k < searches.len() ==> first_matching(s, searches) == k,
        k == searches.len() ==> first_matching(s, searches) < 0,
    decreases searches.len(),
{
    if searches.len() > 0 {
        if !(searches[0].len() > 0 && seq_matches_at(s, searches[0], 0)) {
            lemma_first_matching_is(s, searches.skip(1), k - 1);
        }
    }
}

/// `s` rewritten left to right: at each position, the first needle of
/// `searches` that occurs there is replaced by the corresponding element of
/// `repls` and skipped whole; positions where no needle occurs keep their
/// codepoint.  Replaced text is not rescanned.
pub open spec fn replace_each_spec(
    s: Seq<char>,
    searches: Seq<Seq<char>>,
    repls: Seq<Seq<char>>,
) -> Seq<char>
    decreases s.len(),
{
    if s.len() == 0 {
        Seq::empty()
    } else {
        let k = first_matching(s, searches);
        if 0 <= k < searches.len() && 0 < searches[k].len() <= s.len() {
            repls[k] + replace_each_spec(s.skip(searches[k].len() as int), searches, repls)
        } else {
            seq![s[0]] + replace_each_spec(s.skip(1), searches, repls)
        }
    }
}

/// [`replace_each_spec`] applied up to `ttl` times, stopping as soon as a
/// pass changes nothing.
pub open spec fn replace_each_rep_spec(
    s: Seq<char>,
    searches: Seq<Seq<char>>,
    repls: Seq<Seq<char>>,
    ttl: int,
) -> Seq<char>
    decreases ttl,
{
    if ttl <= 0 {
        s
    } else {
        let s1 = replace_each_spec(s, searches, repls);
        if s1 == s {
            s
        } else {
            replace_each_rep_spec(s1, searches, repls, ttl - 1)
        }
    }
}

/// A text that one pass leaves unchanged stays unchanged under any number
/// of passes.
pub proof fn lemma_rep_spec_stable(
    s: Seq<char>,
    searches: Seq<Seq<char>>,
    repls: Seq<Seq<char>>,
    ttl: int,
)
    requires
        replace_each_spec(s, searches, repls) == s,
    ensures
        replace_each_rep_spec(s, searches, repls, ttl) == s,
{
}

/// Runs of whitespace collapsed to a single space codepoint.
pub open spec fn collapse_space_spec(s: Seq<char>) -> Seq<char>
    decreases s.len(),
{
    if s.len() == 0 {
        Seq::empty()
    } else if is_space_char(s[0]) {
        if s.len() >= 2 && is_space_char(s[1]) {
            collapse_space_spec(s.skip(1))
        } else {
            seq![' '] + collapse_space_spec(s.skip(1))
        }
    } else {
        seq![s[0]] + collapse_space_spec(s.skip(1))
    }
}

/// Lexicographic comparison of two codepoint sequences: negative when `a`
/// orders first, zero when they are equal, positive when `b` orders first.
pub open spec fn compare_spec(a: Seq<char>, b: Seq<char>) -> int
    decreases a.len(),
{
    if a.len() == 0 && b.len() == 0 {
        0
    } else if a.len() == 0 {
        -1
    } else if b.len() == 0 {
        1
    } else if a[0] != b[0] {
        if (a[0] as int) < (b[0] as int) {
            -1
        } else {
            1
        }
    } else {
        compare_spec(a.skip(1), b.skip(1))
    }
}

/// Dropping a shared prefix does not change the comparison.
pub proof fn lemma_compare_skip(a: Seq<char>, b: Seq<char>, i: int)
    requires
        0 <= i <= a.len(),
        i <= b.len(),
        forall|j: int| 0 <= j < i ==> a[j] == b[j],
    ensures
        compare_spec(a, b) == compare_spec(a.skip(i), b.skip(i)),
    decreases i,
{
    if i > 0 {
        lemma_compare_skip(a.skip(1), b.skip(1), i - 1);
        assert(a.skip(1).skip(i - 1) =~= a.skip(i));
        assert(b.skip(1).skip(i - 1) =~= b.skip(i));
        assert(a.skip(0) =~= a);
        assert(b.skip(0) =~= b);
    } else {
        assert(a.skip(0) =~= a);
        assert(b.skip(0) =~= b);
    }
}

/// Equality with a fixed codepoint, as a predicate value.
pub open spec fn eq_char_pred(ch: char) -> spec_fn(char) -> bool {
    |c: char| c == ch
}

/// Difference from a fixed codepoint, as a predicate value.
pub open spec fn ne_char_pred(ch: char) -> spec_fn(char) -> bool {
    |c: char| c != ch
}

/// The numeric-codepoint predicate, as a value.
pub open spec fn numeric_pred() -> spec_fn(char) -> bool {
    |c: char| numeric_char(c)
}

/// The non-whitespace predicate, as a value.
pub open spec fn not_space_pred() -> spec_fn(char) -> bool {
    |c: char| !is_space_char(c)
}

/// The codepoint map that turns `search` into `replace` and keeps
/// everything else.
pub open spec fn replace_map(search: char, replace: char) -> spec_fn(char) -> char {
    (|c: char|
        if c == search {
            replace
        } else {
            c
        })
}

/// Number of leading codepoints of `s` satisfying `p`.
pub open spec fn leading_count(s: Seq<char>, p: spec_fn(char) -> bool) -> int
    decreases s.len(),
{
    if s.len() > 0 && p(s[0]) {
        1 + leading_count(s.skip(1), p)
    } else {
        0
    }
}

/// Number of trailing codepoints of `s` satisfying `p`.
pub open spec fn trailing_count(s: Seq<char>, p: spec_fn(char) -> bool) -> int {
    leading_count(s.reverse(), p)
}

/// `s` without its leading run of codepoints satisfying `p`.
pub open spec fn trim_start_spec(s: Seq<char>, p: spec_fn(char) -> bool) -> Seq<char> {
    s.skip(leading_count(s, p))
}

/// `s` without its trailing run of codepoints satisfying `p`.
pub open spec fn trim_end_spec(s: Seq<char>, p: spec_fn(char) -> bool) -> Seq<char> {
    s.take(s.len() - trailing_count(s, p))
}

/// `s` without its leading and trailing runs of codepoints satisfying `p`.
pub open spec fn trim_spec(s: Seq<char>, p: spec_fn(char) -> bool) -> Seq<char> {
    trim_end_spec(trim_start_spec(s, p), p)
}

/// Number of codepoints of `s` satisfying `p`.
pub open spec fn count_pred(s: Seq<char>, p: spec_fn(char) -> bool) -> int
    decreases s.len(),
{
    if s.len() == 0 {
        0
    } else {
        count_pred(s.drop_last(), p) + if p(s.last()) {
            1int
        } else {
            0int
        }
    }
}

/// `s` repeated `k` times.
pub open spec fn repeat_spec(s: Seq<char>, k: int) -> Seq<char>
    decreases k,
{
    if k <= 0 {
        Seq::empty()
    } else {
        repeat_spec(s, k - 1) + s
    }
}

/// `i` is the first position at which `a` and `b` differ: they share the
/// codepoints before `i`, and either disagree at `i` or exactly one of them
/// ends there.
pub open spec fn first_diff_at(a: Seq<char>, b: Seq<char>, i: int) -> bool {
    0 <= i <= a.len() && i <= b.len() && (forall|j: int| 0 <= j < i ==> a[j] == b[j]) && (if i
        < a.len() && i < b.len() {
        a[i] != b[i]
    } else {
        a.len() != b.len()
    })
}

/// There is only one first point of difference.
pub proof fn lemma_first_diff_unique(a: Seq<char>, b: Seq<char>, i: int, k: int)
    requires
        first_diff_at(a, b, i),
        first_diff_at(a, b, k),
    ensures
        i == k,
{
    if i < k {
        assert(a[i] == b[i]);
    }
    if k < i {
        assert(a[k] == b[k]);
    }
}

/// The padding block of `count` codepoints: `p` repeated cyclically, or
/// spaces when `p` is empty.
pub open spec fn pad_seq(count: int, p: Seq<char>) -> Seq<char> {
    let q = if p.len() == 0 {
        seq![' ']
    } else {
        p
    };
    Seq::new(count as nat, |k: int| q[k % q.len() as int])
}

/// `s` padded on the left to `size` codepoints with the block `p`.
pub open spec fn left_pad_spec(s: Seq<char>, size: int, p: Seq<char>) -> Seq<char> {
    if size <= s.len() {
        s
    } else {
        pad_seq(size - s.len(), p) + s
    }
}

/// `s` padded on the right to `size` codepoints with the block `p`.
pub open spec fn right_pad_spec(s: Seq<char>, size: int, p: Seq<char>) -> Seq<char> {
    if size <= s.len() {
        s
    } else {
        s + pad_seq(size - s.len(), p)
    }
}

/// `s` centered in a field of `size` codepoints: the deficit is split, the
/// smaller half padded on the left and the rest on the right.
pub open spec fn center_spec(s: Seq<char>, size: int, p: Seq<char>) -> Seq<char> {
    right_pad_spec(left_pad_spec(s, s.len() + (size - s.len()) / 2, p), size, p)
}

/// The first index at which `p` fails characterizes the leading run.
pub proof fn lemma_leading_count_is(s: Seq<char>, p: spec_fn(char) -> bool, k: int)
    requires
        0 <= k <= s.len(),
        forall|j: int| 0 <= j < k ==> p(#[trigger] s[j]),
        k < s.len() ==> !p(s[k]),
    ensures
        leading_count(s, p) == k,
    decreases s.len(),
{
    if s.len() > 0 && p(s[0]) {
        assert(k >= 1);
        lemma_leading_count_is(s.skip(1), p, k - 1);
    }
}

/// The last index at which `p` fails characterizes the trailing run.
pub proof fn lemma_trailing_count_is(s: Seq<char>, p: spec_fn(char) -> bool, k: int)
    requires
        0 <= k <= s.len(),
        forall|j: int| s.len() - k <= j < s.len() ==> p(#[trigger] s[j]),
        k < s.len() ==> !p(s[s.len() - k - 1]),
    ensures
        trailing_count(s, p) == k,
{
    let r = s.reverse();
    assert forall|j: int| 0 <= j < k implies p(#[trigger] r[j]) by {
        assert(r[j] == s[s.len() - 1 - j]);
    }
    if k < s.len() {
        assert(r[k] == s[s.len() - k - 1]);
    }
    lemma_leading_count_is(r, p, k);
}

/// Counting a prefix one longer adds the new codepoint's contribution.
pub proof fn lemma_count_pred_take_succ(s: Seq<char>, p: spec_fn(char) -> bool, i: int)
    requires
        0 <= i < s.len(),
    ensures
        count_pred(s.take(i + 1), p) == count_pred(s.take(i), p) + if p(s[i]) {
            1int
        } else {
            0int
        },
{
    assert(s.take(i + 1).drop_last() =~= s.take(i));
    assert(s.take(i + 1).last() == s[i]);
}

} // verus!
