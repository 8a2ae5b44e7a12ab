//! Searching a byte sequence for a literal pattern.
//!
//! Everything the header logic needs to locate (a field's keyword, the
//! carriage return that ends a value, the blanks around the status code, the
//! blank line that ends the header) is the *first* occurrence of a fixed byte
//! pattern at or after some position. This module defines that notion once and
//! provides an executable search proved against it.

use vstd::prelude::*;

verus! {

/// `pat` occurs in `s` at index `i`.
pub open spec fn matches_at(s: Seq<u8>, pat: Seq<u8>, i: int) -> bool {
    &&& 0 <= i
    &&& i + pat.len() <= s.len()
    &&& s.subrange(i, i + pat.len()) =~= pat
}

/// The least index `i >= from` at which `pat` occurs in `s`, if there is one.
pub open spec fn first_match_from(s: Seq<u8>, pat: Seq<u8>, from: int) -> Option<int>
    decreases s.len() - from,
{
    if from < 0 || from + pat.len() > s.len() {
        None
    } else if matches_at(s, pat, from) {
        Some(from)
    } else {
        first_match_from(s, pat, from + 1)
    }
}

/// The least index at which `pat` occurs in `s`, if there is one.
pub open spec fn first_match(s: Seq<u8>, pat: Seq<u8>) -> Option<int> {
    first_match_from(s, pat, 0)
}

/// `i` is the least index `>= from` at which `pat` occurs in `s`.
pub open spec fn is_first_match_from(s: Seq<u8>, pat: Seq<u8>, from: int, i: int) -> bool {
    &&& from <= i
    &&& matches_at(s, pat, i)
    &&& forall|j: int| from <= j < i ==> !matches_at(s, pat, j)
}

/// What `first_match_from` returns is the least match, and it returns `None`
/// only when there is no match at all.
pub proof fn lemma_first_match_from(s: Seq<u8>, pat: Seq<u8>, from: int)
    requires
        0 <= from,
    ensures
        match first_match_from(s, pat, from) {
            Some(i) => is_first_match_from(s, pat, from, i),
            None => forall|j: int| from <= j ==> !matches_at(s, pat, j),
        },
    decreases s.len() - from,
{
    if from + pat.len() > s.len() {
    } else if matches_at(s, pat, from) {
    } else {
        lemma_first_match_from(s, pat, from + 1);
    }
}

/// A least match is what `first_match_from` returns.
pub proof fn lemma_first_match_unique(s: Seq<u8>, pat: Seq<u8>, from: int, i: int)
    requires
        0 <= from,
        is_first_match_from(s, pat, from, i),
    ensures
        first_match_from(s, pat, from) == Some(i),
{
    lemma_first_match_from(s, pat, from);
}

/// Without any match there is no first match.
pub proof fn lemma_first_match_none(s: Seq<u8>, pat: Seq<u8>, from: int)
    requires
        0 <= from,
        forall|j: int| from <= j ==> !matches_at(s, pat, j),
    ensures
        first_match_from(s, pat, from) is None,
{
    lemma_first_match_from(s, pat, from);
}

/// A match that lies inside `s` is still a match after `s` is extended, and
/// the extension adds no match that ends inside `s`.
pub proof fn lemma_matches_at_extend(s: Seq<u8>, t: Seq<u8>, pat: Seq<u8>, i: int)
    requires
        0 <= i,
        i + pat.len() <= s.len(),
    ensures
        matches_at(s + t, pat, i) == matches_at(s, pat, i),
{
    assert((s + t).subrange(i, i + pat.len()) =~= s.subrange(i, i + pat.len()));
}

/// Whether `pat` occurs in `s` at index `i`.
pub fn occurs_at(s: &[u8], pat: &[u8], i: usize) -> (r: bool)
    ensures
        r == matches_at(s@, pat@, i as int),
{
    if pat.len() > s.len() || i > s.len() - pat.len() {
        return false;
    }
    let mut k: usize = 0;
    while k < pat.len()
        invariant
            k <= pat.len(),
            i + pat.len() <= s.len(),
            forall|j: int| 0 <= j < k ==> s@[i + j] == pat@[j],
        decreases pat.len() - k,
    {
        if s[i + k] != pat[k] {
            proof {
                let w = s@.subrange(i as int, i + pat@.len());
                assert(w[k as int] == s@[i + k]);
            }
            return false;
        }
        k += 1;
    }
    true
}

/// The least index `>= from` at which `pat` occurs in `s`.
pub fn find_from(s: &[u8], pat: &[u8], from: usize) -> (r: Option<usize>)
    ensures
        match r {
            Some(i) => first_match_from(s@, pat@, from as int) == Some(i as int),
            None => first_match_from(s@, pat@, from as int) is None,
        },
        r matches Some(i) ==> from <= i && i + pat.len() <= s.len(),
{
    if pat.len() > s.len() {
        return None;
    }
    let last: usize = s.len() - pat.len();
    let mut i: usize = from;
    while i <= last
        invariant
            from <= i,
            last + pat.len() == s.len(),
            first_match_from(s@, pat@, from as int) == first_match_from(s@, pat@, i as int),
        decreases last + 1 - i,
    {
        if occurs_at(s, pat, i) {
            return Some(i);
        }
        i += 1;
    }
    None
}

} // verus!
