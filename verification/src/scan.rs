//! Verified scanning primitives: codepoint-exact equality, occurrence tests
//! and first/last occurrence searches, in case-sensitive and ASCII-folded
//! forms.  The catalogue's containment, search and substring operations are
//! all built on these.

use vstd::prelude::*;
use vstd::string::*;

use crate::chars::{char_fold, fold_char, fold_seq};
use crate::model::seq_matches_at;

verus! {

/// Whether `t` occurs in `s` at position `i`.
pub fn matches_at_str(s: &str, t: &str, i: usize) -> (r: bool)
    requires
        i + t@.len() <= s@.len() <= usize::MAX,
    ensures
        r == seq_matches_at(s@, t@, i as int),
{
    let m = t.unicode_len();
    let mut j: usize = 0;
    while j < m
        invariant
            j <= m,
            m == t@.len(),
            i + m <= s@.len() <= usize::MAX,
            forall|k: int| 0 <= k < j ==> s@[i + k] == t@[k],
        decreases m - j,
    {
        if s.get_char(i + j) != t.get_char(j) {
            proof {
                let sub = s@.subrange(i as int, i + m);
                assert(sub =~= t@ ==> sub[j as int] == t@[j as int]);
            }
            return false;
        }
        j += 1;
    }
    proof {
        assert(s@.subrange(i as int, i + m) =~= t@);
    }
    true
}

/// Whether `t` occurs in `s` at position `i` once both are ASCII-case-folded.
pub fn matches_at_fold(s: &str, t: &str, i: usize) -> (r: bool)
    requires
        i + t@.len() <= s@.len() <= usize::MAX,
    ensures
        r == seq_matches_at(fold_seq(s@), fold_seq(t@), i as int),
{
    let m = t.unicode_len();
    let mut j: usize = 0;
    while j < m
        invariant
            j <= m,
            m == t@.len(),
            i + m <= s@.len() <= usize::MAX,
            forall|k: int| 0 <= k < j ==> fold_char(s@[i + k]) == fold_char(t@[k]),
        decreases m - j,
    {
        if char_fold(s.get_char(i + j)) != char_fold(t.get_char(j)) {
            proof {
                let fs = fold_seq(s@);
                let ft = fold_seq(t@);
                let sub = fs.subrange(i as int, i + m);
                assert(fs[i + j] == fold_char(s@[i + j]));
                assert(ft[j as int] == fold_char(t@[j as int]));
                assert(sub =~= ft ==> sub[j as int] == ft[j as int]);
            }
            return false;
        }
        j += 1;
    }
    proof {
        let fs = fold_seq(s@);
        let ft = fold_seq(t@);
        assert forall|k: int| 0 <= k < m implies fs.subrange(i as int, i + m)[k] == ft[k] by {
            assert(fs[i + k] == fold_char(s@[i + k]));
            assert(ft[k] == fold_char(t@[k]));
        }
        assert(fs.subrange(i as int, i + m) =~= ft);
    }
    true
}

/// Whether the two strings hold the same codepoints.
pub fn str_eq(a: &str, b: &str) -> (r: bool)
    ensures
        r == (a@ == b@),
{
    let n = a.unicode_len();
    let m = b.unicode_len();
    if n != m {
        return false;
    }
    let r = matches_at_str(a, b, 0);
    proof {
        assert(a@.subrange(0, n as int) =~= a@);
    }
    r
}

/// Whether the two strings hold the same codepoints once ASCII-case-folded.
pub fn str_eq_fold(a: &str, b: &str) -> (r: bool)
    ensures
        r == (fold_seq(a@) == fold_seq(b@)),
{
    let n = a.unicode_len();
    let m = b.unicode_len();
    if n != m {
        proof {
            assert(fold_seq(a@).len() != fold_seq(b@).len());
        }
        return false;
    }
    let r = matches_at_fold(a, b, 0);
    proof {
        assert(fold_seq(a@).subrange(0, n as int) =~= fold_seq(a@));
    }
    r
}

/// The first position `i >= start` where `c` occurs in `s`, if any.
pub fn find_char_from(s: &str, c: char, start: usize) -> (r: Option<usize>)
    ensures
        r matches Some(i) ==> start <= i < s@.len() && s@[i as int] == c && (forall|j: int|
            start <= j < i ==> s@[j] != c),
        r is None ==> forall|j: int| start <= j < s@.len() ==> s@[j] != c,
{
    let n = s.unicode_len();
    let mut i = start;
    while i < n
        invariant
            start <= i,
            n == s@.len(),
            forall|j: int| start <= j < i ==> s@[j] != c,
        decreases n - i,
    {
        if s.get_char(i) == c {
            return Some(i);
        }
        i += 1;
    }
    None
}

/// The last position `i <= from` where `c` occurs in `s`, if any.
pub fn rfind_char_upto(s: &str, c: char, from: usize) -> (r: Option<usize>)
    ensures
        r matches Some(i) ==> i < s@.len() && i <= from && s@[i as int] == c && (forall|j: int|
            i < j <= from && j < s@.len() ==> s@[j] != c),
        r is None ==> forall|j: int| 0 <= j <= from && j < s@.len() ==> s@[j] != c,
{
    let n = s.unicode_len();
    if n == 0 {
        return None;
    }
    let mut i: usize = if from < n - 1 {
        from
    } else {
        n - 1
    };
    loop
        invariant
            n == s@.len(),
            n > 0,
            i < n,
            i <= from,
            forall|j: int| i < j <= from && j < n ==> s@[j] != c,
        decreases i,
    {
        if s.get_char(i) == c {
            return Some(i);
        }
        if i == 0 {
            return None;
        }
        i -= 1;
    }
}

/// The first position `i >= start` where `t` occurs in `s`, if any.
pub fn find_str_from(s: &str, t: &str, start: usize) -> (r: Option<usize>)
    ensures
        r matches Some(i) ==> start <= i && seq_matches_at(s@, t@, i as int) && (forall|j: int|
            start <= j < i ==> !seq_matches_at(s@, t@, j)),
        r is None ==> forall|j: int| j >= start ==> !seq_matches_at(s@, t@, j),
{
    let n = s.unicode_len();
    let m = t.unicode_len();
    if m > n || start > n - m {
        return None;
    }
    if m == 0 {
        proof {
            assert(s@.subrange(start as int, start as int) =~= t@);
        }
        return Some(start);
    }
    let mut i = start;
    while i <= n - m
        invariant
            start <= i <= n - m + 1,
            0 < m <= n,
            n == s@.len(),
            m == t@.len(),
            forall|j: int| start <= j < i ==> !seq_matches_at(s@, t@, j),
        decreases n - m + 1 - i,
    {
        if matches_at_str(s, t, i) {
            return Some(i);
        }
        i += 1;
    }
    None
}

/// The last position where `t` occurs in `s` at or before `from`, if any.
pub fn rfind_str_upto(s: &str, t: &str, from: usize) -> (r: Option<usize>)
    ensures
        r matches Some(i) ==> i <= from && seq_matches_at(s@, t@, i as int) && (forall|j: int|
            i < j <= from ==> !seq_matches_at(s@, t@, j)),
        r is None ==> forall|j: int| 0 <= j <= from ==> !seq_matches_at(s@, t@, j),
{
    let n = s.unicode_len();
    let m = t.unicode_len();
    if m > n {
        return None;
    }
    let mut i: usize = if from < n - m {
        from
    } else {
        n - m
    };
    loop
        invariant
            i <= n - m,
            i <= from,
            m <= n,
            n == s@.len(),
            m == t@.len(),
            forall|j: int| i < j <= from ==> !seq_matches_at(s@, t@, j),
        decreases i,
    {
        if matches_at_str(s, t, i) {
            return Some(i);
        }
        if i == 0 {
            return None;
        }
        i -= 1;
    }
}

/// The first position `i >= start` where `t` occurs in `s` once both are
/// ASCII-case-folded, if any.
pub fn find_str_fold_from(s: &str, t: &str, start: usize) -> (r: Option<usize>)
    ensures
        r matches Some(i) ==> start <= i && seq_matches_at(fold_seq(s@), fold_seq(t@), i as int)
            && (forall|j: int| start <= j < i ==> !seq_matches_at(fold_seq(s@), fold_seq(t@), j)),
        r is None ==> forall|j: int| j >= start ==> !seq_matches_at(fold_seq(s@), fold_seq(t@), j),
{
    let n = s.unicode_len();
    let m = t.unicode_len();
    proof {
        assert(fold_seq(s@).len() == s@.len());
        assert(fold_seq(t@).len() == t@.len());
    }
    if m > n || start > n - m {
        return None;
    }
    if m == 0 {
        proof {
            assert(fold_seq(s@).subrange(start as int, start as int) =~= fold_seq(t@));
        }
        return Some(start);
    }
    let mut i = start;
    while i <= n - m
        invariant
            start <= i <= n - m + 1,
            0 < m <= n,
            n == s@.len(),
            m == t@.len(),
            forall|j: int| start <= j < i ==> !seq_matches_at(fold_seq(s@), fold_seq(t@), j),
        decreases n - m + 1 - i,
    {
        if matches_at_fold(s, t, i) {
            return Some(i);
        }
        i += 1;
    }
    None
}

/// The last position where `t` occurs in `s` at or before `from`, once
/// both are ASCII-case-folded, if any.
pub fn rfind_str_fold_upto(s: &str, t: &str, from: usize) -> (r: Option<usize>)
    ensures
        r matches Some(i) ==> i <= from && seq_matches_at(fold_seq(s@), fold_seq(t@), i as int)
            && (forall|j: int|
            i < j <= from ==> !seq_matches_at(fold_seq(s@), fold_seq(t@), j)),
        r is None ==> forall|j: int|
            0 <= j <= from ==> !seq_matches_at(fold_seq(s@), fold_seq(t@), j),
{
    let n = s.unicode_len();
    let m = t.unicode_len();
    proof {
        assert(fold_seq(s@).len() == s@.len());
        assert(fold_seq(t@).len() == t@.len());
    }
    if m > n {
        return None;
    }
    let mut i: usize = if from < n - m {
        from
    } else {
        n - m
    };
    loop
        invariant
            i <= n - m,
            i <= from,
            m <= n,
            n == s@.len(),
            m == t@.len(),
            forall|j: int| i < j <= from ==> !seq_matches_at(fold_seq(s@), fold_seq(t@), j),
        decreases i,
    {
        if matches_at_fold(s, t, i) {
            return Some(i);
        }
        if i == 0 {
            return None;
        }
        i -= 1;
    }
}

/// Whether `c` is one of the codepoints of `set`.
pub fn char_in_str(set: &str, c: char) -> (r: bool)
    ensures
        r == set@.contains(c),
{
    match find_char_from(set, c, 0) {
        Some(_) => true,
        None => false,
    }
}

/// Whether `c` is one of the codepoints of `set`.
pub fn char_in_slice(set: &[char], c: char) -> (r: bool)
    ensures
        r == set@.contains(c),
{
    let n = set.len();
    let mut i: usize = 0;
    while i < n
        invariant
            i <= n,
            n == set@.len(),
            forall|j: int| 0 <= j < i ==> set@[j] != c,
        decreases n - i,
    {
        if set[i] == c {
            return true;
        }
        i += 1;
    }
    false
}

} // verus!
