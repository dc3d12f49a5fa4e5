//! Verified text helpers: whitespace trimming and substring search over
//! character sequences, with the semantics of `str::trim` and `str::split`.

use vstd::prelude::*;
use vstd::string::StrSliceExecFns;

verus! {

/// Whether a character outside the ASCII range has the Unicode white-space
/// property, as `char::is_whitespace` decides it. The result depends on the
/// character alone.
pub uninterp spec fn unicode_whitespace(c: char) -> bool;

/// Whether a character has the Unicode white-space property, as
/// `char::is_whitespace` decides it. Within ASCII these are exactly tab, line
/// feed, vertical tab, form feed, carriage return and space; beyond ASCII the
/// property is left abstract.
pub open spec fn char_whitespace(c: char) -> bool {
    if (c as u32) < 128 {
        c == ' ' || c == '\t' || c == '\n' || c == '\u{0b}' || c == '\u{0c}' || c == '\r'
    } else {
        unicode_whitespace(c)
    }
}

/// Relies on char::is_whitespace: whether `c` has the Unicode white-space
/// property, a function of `c` alone. Its documentation lists the ASCII
/// white-space characters exhaustively: tab, line feed, vertical tab, form
/// feed, carriage return and space.
#[verifier::external_body]
fn is_whitespace_char(c: char) -> (r: bool)
    ensures
        r == char_whitespace(c),
        (c as u32) >= 128 ==> r == unicode_whitespace(c),
{
    c.is_whitespace()
}

/// `s` without its leading whitespace.
pub open spec fn spec_trim_start(s: Seq<char>) -> Seq<char>
    decreases s.len(),
{
    if s.len() > 0 && char_whitespace(s[0]) {
        spec_trim_start(s.subrange(1, s.len() as int))
    } else {
        s
    }
}

/// `s` without its trailing whitespace.
pub open spec fn spec_trim_end(s: Seq<char>) -> Seq<char>
    decreases s.len(),
{
    if s.len() > 0 && char_whitespace(s[s.len() - 1]) {
        spec_trim_end(s.subrange(0, s.len() - 1))
    } else {
        s
    }
}

/// `s` without surrounding whitespace, as `str::trim` returns it.
pub open spec fn spec_trim(s: Seq<char>) -> Seq<char> {
    spec_trim_end(spec_trim_start(s))
}

/// Strip surrounding whitespace, as `str::trim` does.
pub fn trim<'a>(s: &'a str) -> (r: &'a str)
    ensures
        r@ == spec_trim(s@),
{
    let n = s.unicode_len();
    proof {
        assert(s@.subrange(0, n as int) =~= s@);
    }
    let mut lo: usize = 0;
    while lo < n && is_whitespace_char(s.get_char(lo))
        invariant
            lo <= n,
            n == s@.len(),
            spec_trim_start(s@) == spec_trim_start(s@.subrange(lo as int, n as int)),
        decreases n - lo,
    {
        proof {
            let t = s@.subrange(lo as int, n as int);
            assert(t.subrange(1, t.len() as int) =~= s@.subrange(lo as int + 1, n as int));
        }
        lo = lo + 1;
    }
    proof {
        assert(spec_trim_start(s@) == s@.subrange(lo as int, n as int));
    }
    let mut hi: usize = n;
    while hi > lo && is_whitespace_char(s.get_char(hi - 1))
        invariant
            lo <= hi <= n,
            n == s@.len(),
            spec_trim_start(s@) == s@.subrange(lo as int, n as int),
            spec_trim_end(s@.subrange(lo as int, n as int)) == spec_trim_end(
                s@.subrange(lo as int, hi as int),
            ),
        decreases hi,
    {
        proof {
            let t = s@.subrange(lo as int, hi as int);
            assert(t.subrange(0, t.len() - 1) =~= s@.subrange(lo as int, hi as int - 1));
        }
        hi = hi - 1;
    }
    let r = s.substring_char(lo, hi);
    proof {
        assert(spec_trim_end(s@.subrange(lo as int, hi as int)) == s@.subrange(
            lo as int,
            hi as int,
        ));
    }
    r
}

/// The index of the first occurrence of `pat` in `s` at or after `from`,
/// if there is one.
pub open spec fn spec_find(s: Seq<char>, pat: Seq<char>, from: int) -> Option<int>
    recommends
        1 <= pat.len(),
        0 <= from,
    decreases s.len() - from,
{
    if pat.len() < 1 || from + pat.len() > s.len() {
        None
    } else if s.subrange(from, from + pat.len()) == pat {
        Some(from)
    } else {
        spec_find(s, pat, from + 1)
    }
}

/// A found index lies within `s`, at or after the position searched from.
pub proof fn lemma_find_in_range(s: Seq<char>, pat: Seq<char>, from: int)
    requires
        0 <= from,
        spec_find(s, pat, from) is Some,
    ensures
        1 <= pat.len(),
        from <= spec_find(s, pat, from)->Some_0,
        spec_find(s, pat, from)->Some_0 + pat.len() <= s.len(),
        s.subrange(
            spec_find(s, pat, from)->Some_0,
            spec_find(s, pat, from)->Some_0 + pat.len(),
        ) == pat,
    decreases s.len() - from,
{
    if pat.len() < 1 || from + pat.len() > s.len() {
    } else if s.subrange(from, from + pat.len()) == pat {
    } else {
        lemma_find_in_range(s, pat, from + 1);
    }
}

/// Whether `pat` occurs in `s` starting exactly at index `i`.
fn match_at(s: &str, pat: &str, i: usize) -> (r: bool)
    requires
        i + pat@.len() <= s@.len(),
        s@.len() <= usize::MAX,
    ensures
        r <==> s@.subrange(i as int, i + pat@.len()) == pat@,
{
    let m = pat.unicode_len();
    let mut j: usize = 0;
    while j < m
        invariant
            j <= m,
            m == pat@.len(),
            i + m <= s@.len(),
            s@.len() <= usize::MAX,
            forall|k: int| 0 <= k < j ==> s@[i + k] == pat@[k],
        decreases m - j,
    {
        if s.get_char(i + j) != pat.get_char(j) {
            proof {
                assert(s@.subrange(i as int, i + pat@.len())[j as int] != pat@[j as int]);
            }
            return false;
        }
        j = j + 1;
    }
    proof {
        assert(s@.subrange(i as int, i + pat@.len()) =~= pat@);
    }
    true
}

/// The pieces of `s` split on non-overlapping occurrences of the non-empty
/// pattern `pat`, scanned left to right, as `str::split` yields them: one
/// piece more than there are occurrences, each piece possibly empty.
pub open spec fn spec_split(s: Seq<char>, pat: Seq<char>) -> Seq<Seq<char>>
    recommends
        1 <= pat.len(),
    decreases s.len(),
    via spec_split_decreases
{
    match spec_find(s, pat, 0) {
        Some(i) => seq![s.subrange(0, i)] + spec_split(
            s.subrange(i + pat.len(), s.len() as int),
            pat,
        ),
        None => seq![s],
    }
}

#[via_fn]
proof fn spec_split_decreases(s: Seq<char>, pat: Seq<char>) {
    if spec_find(s, pat, 0) is Some {
        lemma_find_in_range(s, pat, 0);
    }
}

/// Splitting never yields an empty piece list, and when `pat` occurs first at
/// `i`, the pieces are the text before `i` followed by the pieces of the text
/// after the occurrence.
pub proof fn lemma_split_unfold(s: Seq<char>, pat: Seq<char>)
    requires
        1 <= pat.len(),
    ensures
        spec_split(s, pat).len() >= 1,
        spec_find(s, pat, 0) is None ==> spec_split(s, pat) == seq![s],
        spec_find(s, pat, 0) matches Some(i) ==> {
            &&& 0 <= i
            &&& i + pat.len() <= s.len()
            &&& spec_split(s, pat) == seq![s.subrange(0, i)] + spec_split(
                s.subrange(i + pat.len(), s.len() as int),
                pat,
            )
        },
{
    if spec_find(s, pat, 0) is Some {
        lemma_find_in_range(s, pat, 0);
    }
}

/// The index of the first occurrence of `pat` in `s`, if there is one,
/// as `str::find` with a non-empty string pattern returns it.
pub fn find_pat(s: &str, pat: &str) -> (r: Option<usize>)
    requires
        1 <= pat@.len(),
    ensures
        match r {
            Some(i) => spec_find(s@, pat@, 0) == Some(i as int),
            None => spec_find(s@, pat@, 0) is None,
        },
{
    let n = s.unicode_len();
    let m = pat.unicode_len();
    if m > n {
        return None;
    }
    let mut i: usize = 0;
    while i <= n - m
        invariant
            i <= n,
            m <= n == s@.len(),
            m == pat@.len(),
            1 <= m,
            spec_find(s@, pat@, 0) == spec_find(s@, pat@, i as int),
        decreases n - i,
    {
        if match_at(s, pat, i) {
            return Some(i);
        }
        i = i + 1;
    }
    None
}

} // verus!
