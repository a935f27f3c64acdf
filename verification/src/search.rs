//! Searching a sequence for a pattern, and splitting a text at the
//! occurrences of one.

use vstd::prelude::*;
use vstd::string::*;
use crate::text::chars_of;

verus! {

/// `pat` occurs in `s` at index `i`.
pub open spec fn occurs_at<A>(s: Seq<A>, pat: Seq<A>, i: int) -> bool {
    0 <= i && i + pat.len() <= s.len() && s.subrange(i, i + pat.len()) == pat
}

/// `pat` occurs in `s` at index `i` and at no smaller index.
pub open spec fn is_first_occurrence<A>(s: Seq<A>, pat: Seq<A>, i: int) -> bool {
    occurs_at(s, pat, i) && forall|j: int| 0 <= j < i ==> !occurs_at(s, pat, j)
}

/// Index of the leftmost occurrence of `pat` in `s`, if there is one.
pub open spec fn find<A>(s: Seq<A>, pat: Seq<A>) -> Option<int> {
    if exists|i: int| is_first_occurrence(s, pat, i) {
        Some(choose|i: int| is_first_occurrence(s, pat, i))
    } else {
        None
    }
}

/// The parts of `s` before and after the leftmost occurrence of `pat`.
pub open spec fn split_once(s: Seq<char>, pat: Seq<char>) -> Option<(Seq<char>, Seq<char>)> {
    match find(s, pat) {
        Some(i) => Some((s.take(i), s.skip(i + pat.len()))),
        None => None,
    }
}

/// The pieces of `s` between successive, non-overlapping occurrences of
/// `pat`, searched from the left. A text without any occurrence is one piece;
/// so is every text when `pat` is empty.
pub open spec fn split(s: Seq<char>, pat: Seq<char>) -> Seq<Seq<char>>
    decreases s.len(),
{
    match find(s, pat) {
        Some(i) if pat.len() > 0 && occurs_at(s, pat, i) => seq![s.take(i)] + split(
            s.skip(i + pat.len()),
            pat,
        ),
        _ => seq![s],
    }
}

/// The views of a list of string slices.
pub open spec fn views(pieces: Seq<&str>) -> Seq<Seq<char>> {
    pieces.map_values(|p: &str| p@)
}

/// A first occurrence is the one that `find` reports.
pub proof fn lemma_find_some<A>(s: Seq<A>, pat: Seq<A>, i: int)
    requires
        is_first_occurrence(s, pat, i),
    ensures
        find(s, pat) == Some(i),
{
}

/// An occurrence in a suffix is an occurrence in the whole text, shifted.
pub proof fn lemma_occurs_in_suffix<A>(s: Seq<A>, pat: Seq<A>, k: int, j: int)
    requires
        0 <= k <= s.len(),
        0 <= j,
    ensures
        occurs_at(s.skip(k), pat, j) == occurs_at(s, pat, k + j),
{
    if j + pat.len() <= s.len() - k {
        assert(s.skip(k).subrange(j, j + pat.len()) =~= s.subrange(k + j, k + j + pat.len()));
    }
}

/// A text that does not hold the character `c`, then `c`, then any text:
/// parting at `c` gives the two texts back.
pub proof fn lemma_split_once_char(head: Seq<char>, c: char, tail: Seq<char>)
    requires
        !head.contains(c),
    ensures
        split_once(head + seq![c] + tail, seq![c]) == Some((head, tail)),
{
    let s = head + seq![c] + tail;
    let pat = seq![c];
    let i = head.len() as int;
    assert(s.subrange(i, i + 1) =~= pat);
    assert forall|j: int| 0 <= j < i implies !occurs_at(s, pat, j) by {
        if occurs_at(s, pat, j) {
            assert(s.subrange(j, j + 1)[0] == c);
        }
    }
    lemma_find_some(s, pat, i);
}

/// A text that does not hold the character `c` is one piece when it is
/// split at `c`.
pub proof fn lemma_split_without(s: Seq<char>, c: char)
    requires
        !s.contains(c),
    ensures
        split_once(s, seq![c]) is None,
        split(s, seq![c]) == seq![s],
{
    let pat = seq![c];
    assert forall|j: int| 0 <= j implies !occurs_at(s, pat, j) by {
        if occurs_at(s, pat, j) {
            assert(s.subrange(j, j + 1)[0] == c);
        }
    }
}

/// A text that does not hold the character `c`, then `c`, then any text:
/// splitting at `c` gives the first text and the pieces of the last.
pub proof fn lemma_split_char(head: Seq<char>, c: char, tail: Seq<char>)
    requires
        !head.contains(c),
    ensures
        split(head + seq![c] + tail, seq![c]) == seq![head] + split(tail, seq![c]),
{
    lemma_split_once_char(head, c, tail);
}

/// Whether `pat` occurs in `hay` at index `at`.
fn occurs_here(hay: &Vec<char>, pat: &Vec<char>, at: usize) -> (r: bool)
    requires
        at + pat@.len() <= hay@.len(),
    ensures
        r == occurs_at(hay@, pat@, at as int),
{
    let n = hay.len();
    let mut k: usize = 0;
    while k < pat.len()
        invariant
            k <= pat@.len(),
            at + pat@.len() <= hay@.len(),
            n == hay@.len(),
            forall|j: int| 0 <= j < k ==> hay@[at + j] == pat@[j],
        decreases pat@.len() - k,
    {
        if hay[at + k] != pat[k] {
            return false;
        }
        k += 1;
    }
    assert(hay@.subrange(at as int, at + pat@.len()) =~= pat@);
    true
}

/// The leftmost index at or after `from` where `pat` occurs in `hay`.
pub fn find_from(hay: &Vec<char>, pat: &Vec<char>, from: usize) -> (r: Option<usize>)
    requires
        from <= hay@.len(),
    ensures
        match r {
            Some(i) => from <= i && find(hay@.skip(from as int), pat@) == Some(i - from),
            None => find(hay@.skip(from as int), pat@) is None,
        },
{
    let n = hay.len();
    let m = pat.len();
    let ghost rest = hay@.skip(from as int);
    if m > n - from {
        return None;
    }
    let last = n - m;
    let mut i: usize = from;
    loop
        invariant
            from <= i <= last,
            last == n - m,
            n == hay@.len(),
            m == pat@.len(),
            rest == hay@.skip(from as int),
            forall|j: int| from <= j < i ==> !occurs_at(hay@, pat@, j),
        decreases last - i,
    {
        if occurs_here(hay, pat, i) {
            proof {
                assert forall|j: int| 0 <= j < i - from implies !occurs_at(rest, pat@, j) by {
                    lemma_occurs_in_suffix(hay@, pat@, from as int, j);
                }
                lemma_occurs_in_suffix(hay@, pat@, from as int, i - from);
                lemma_find_some(rest, pat@, i - from);
            }
            return Some(i);
        }
        if i == last {
            proof {
                assert forall|j: int| 0 <= j implies !occurs_at(rest, pat@, j) by {
                    lemma_occurs_in_suffix(hay@, pat@, from as int, j);
                }
            }
            return None;
        }
        i += 1;
    }
}

/// Splits `s` at the leftmost occurrence of `pat`, which is left out of both
/// parts.
pub fn str_split_once<'a>(s: &'a str, pat: &str) -> (r: Option<(&'a str, &'a str)>)
    ensures
        match r {
            Some((head, tail)) => split_once(s@, pat@) == Some((head@, tail@)),
            None => split_once(s@, pat@) is None,
        },
{
    let hay = chars_of(s);
    let needle = chars_of(pat);
    let n = hay.len();
    let m = needle.len();
    match find_from(&hay, &needle, 0) {
        Some(i) => {
            assert(s@.skip(0) =~= s@);
            let head = s.substring_char(0, i);
            let tail = s.substring_char(i + m, n);
            Some((head, tail))
        },
        None => {
            assert(s@.skip(0) =~= s@);
            None
        },
    }
}

/// Splits `s` at every occurrence of `pat`, searched from the left without
/// overlap. The pieces come in order and leave the occurrences out.
pub fn str_split<'a>(s: &'a str, pat: &str) -> (pieces: Vec<&'a str>)
    ensures
        views(pieces@) == split(s@, pat@),
{
    let hay = chars_of(s);
    let needle = chars_of(pat);
    let n = hay.len();
    let m = needle.len();
    let mut pieces: Vec<&'a str> = Vec::new();
    if m == 0 {
        pieces.push(s);
        return pieces;
    }
    let mut start: usize = 0;
    assert(s@.skip(0) =~= s@);
    loop
        invariant
            start <= n,
            n == hay@.len(),
            m == needle@.len(),
            m > 0,
            hay@ == s@,
            needle@ == pat@,
            split(s@, pat@) == views(pieces@) + split(s@.skip(start as int), pat@),
        decreases n - start,
    {
        let ghost rest = s@.skip(start as int);
        match find_from(&hay, &needle, start) {
            Some(i) => {
                let piece = s.substring_char(start, i);
                pieces.push(piece);
                proof {
                    assert(piece@ =~= rest.take(i - start));
                    assert(rest.skip(i - start + m) =~= s@.skip(i + m));
                }
                start = i + m;
            },
            None => {
                let piece = s.substring_char(start, n);
                pieces.push(piece);
                return pieces;
            },
        }
    }
}

} // verus!
