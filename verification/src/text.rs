//! Character-level text primitives: conversions between `String` and
//! `Vec<char>`, and the forward/backward separator scans that the word- and
//! line-boundary queries are built on.

use vstd::prelude::*;
use vstd::string::StrSliceExecFns;

verus! {

/// Largest index `i < end` with `s[i]` in `seps`, or -1 when no such index
/// exists (also when `end <= 0`).
pub open spec fn last_index_in(s: Seq<char>, seps: Seq<char>, end: int) -> int
    decreases end,
{
    if end <= 0 {
        -1
    } else if seps.contains(s[end - 1]) {
        end - 1
    } else {
        last_index_in(s, seps, end - 1)
    }
}

/// Largest index `i < end` with `s[i]` not in `seps`, or -1 when none exists.
pub open spec fn last_index_not_in(s: Seq<char>, seps: Seq<char>, end: int) -> int
    decreases end,
{
    if end <= 0 {
        -1
    } else if !seps.contains(s[end - 1]) {
        end - 1
    } else {
        last_index_not_in(s, seps, end - 1)
    }
}

/// Smallest index `i >= from` with `s[i]` in `seps`, or `s.len()` when no
/// such index exists (also when `from >= s.len()`).
pub open spec fn first_index_in(s: Seq<char>, seps: Seq<char>, from: int) -> int
    recommends
        0 <= from,
    decreases s.len() - from,
{
    if from >= s.len() {
        s.len() as int
    } else if seps.contains(s[from]) {
        from
    } else {
        first_index_in(s, seps, from + 1)
    }
}

/// Smallest index `i >= from` with `s[i]` not in `seps`, or `s.len()`.
pub open spec fn first_index_not_in(s: Seq<char>, seps: Seq<char>, from: int) -> int
    recommends
        0 <= from,
    decreases s.len() - from,
{
    if from >= s.len() {
        s.len() as int
    } else if !seps.contains(s[from]) {
        from
    } else {
        first_index_not_in(s, seps, from + 1)
    }
}

/// A backward scan stops exactly at a known boundary: if position `b - 1`
/// is a separator (or the start of the text) and nothing in `[b, end)` is,
/// the scan over `[0, end)` lands just before `b`.
pub proof fn lemma_last_index_located(s: Seq<char>, seps: Seq<char>, end: int, b: int)
    requires
        0 <= b <= end <= s.len(),
        b == 0 || seps.contains(s[b - 1]),
        forall|k: int| b <= k < end ==> !seps.contains(s[k]),
    ensures
        last_index_in(s, seps, end) == b - 1,
    decreases end - b,
{
    if end > b {
        lemma_last_index_located(s, seps, end - 1, b);
    }
}

/// A forward scan stops exactly at a known boundary: if position `e` is a
/// separator (or the end of the text) and nothing in `[from, e)` is, the
/// scan from `from` lands on `e`.
pub proof fn lemma_first_index_located(s: Seq<char>, seps: Seq<char>, from: int, e: int)
    requires
        0 <= from <= e <= s.len(),
        e == s.len() || seps.contains(s[e]),
        forall|k: int| from <= k < e ==> !seps.contains(s[k]),
    ensures
        first_index_in(s, seps, from) == e,
    decreases e - from,
{
    if from < e {
        lemma_first_index_located(s, seps, from + 1, e);
    }
}

/// Whether `c` occurs among the characters of `seps`.
pub fn contains_char(seps: &Vec<char>, c: char) -> (b: bool)
    ensures
        b == seps@.contains(c),
{
    let mut i: usize = 0;
    while i < seps.len()
        invariant
            i <= seps@.len(),
            forall|j: int| 0 <= j < i ==> seps@[j] != c,
        decreases seps@.len() - i,
    {
        if seps[i] == c {
            return true;
        }
        i += 1;
    }
    false
}

/// Scans `text[..end]` backwards for a character of `seps`; returns the index
/// just after the rightmost hit, or 0 when there is none.
pub fn scan_last_in(text: &Vec<char>, seps: &Vec<char>, end: usize) -> (r: usize)
    requires
        end <= text@.len(),
    ensures
        r as int == last_index_in(text@, seps@, end as int) + 1,
        r <= end,
{
    let mut i: usize = end;
    while i > 0
        invariant
            i <= end <= text@.len(),
            last_index_in(text@, seps@, end as int) == last_index_in(text@, seps@, i as int),
        decreases i,
    {
        if contains_char(seps, text[i - 1]) {
            return i;
        }
        i -= 1;
    }
    0
}

/// Scans `text[..end]` backwards for a character outside `seps`; returns the
/// index just after the rightmost hit, or 0 when there is none.
pub fn scan_last_not_in(text: &Vec<char>, seps: &Vec<char>, end: usize) -> (r: usize)
    requires
        end <= text@.len(),
    ensures
        r as int == last_index_not_in(text@, seps@, end as int) + 1,
        r <= end,
{
    let mut i: usize = end;
    while i > 0
        invariant
            i <= end <= text@.len(),
            last_index_not_in(text@, seps@, end as int) == last_index_not_in(
                text@,
                seps@,
                i as int,
            ),
        decreases i,
    {
        if !contains_char(seps, text[i - 1]) {
            return i;
        }
        i -= 1;
    }
    0
}

/// Scans `text[from..]` forwards for a character of `seps`; returns the index
/// of the first hit, or `text.len()` when there is none.
pub fn scan_first_in(text: &Vec<char>, seps: &Vec<char>, from: usize) -> (r: usize)
    requires
        from <= text@.len(),
    ensures
        r as int == first_index_in(text@, seps@, from as int),
        from <= r <= text@.len(),
{
    let mut i: usize = from;
    while i < text.len()
        invariant
            from <= i <= text@.len(),
            first_index_in(text@, seps@, from as int) == first_index_in(text@, seps@, i as int),
        decreases text@.len() - i,
    {
        if contains_char(seps, text[i]) {
            return i;
        }
        i += 1;
    }
    text.len()
}

/// Scans `text[from..]` forwards for a character outside `seps`; returns the
/// index of the first hit, or `text.len()` when there is none.
pub fn scan_first_not_in(text: &Vec<char>, seps: &Vec<char>, from: usize) -> (r: usize)
    requires
        from <= text@.len(),
    ensures
        r as int == first_index_not_in(text@, seps@, from as int),
        from <= r <= text@.len(),
{
    let mut i: usize = from;
    while i < text.len()
        invariant
            from <= i <= text@.len(),
            first_index_not_in(text@, seps@, from as int) == first_index_not_in(
                text@,
                seps@,
                i as int,
            ),
        decreases text@.len() - i,
    {
        if !contains_char(seps, text[i]) {
            return i;
        }
        i += 1;
    }
    text.len()
}

/// A one-element vector, for use as a separator set.
pub fn single_char_vec(c: char) -> (v: Vec<char>)
    ensures
        v@ == seq![c],
{
    let mut v: Vec<char> = Vec::new();
    v.push(c);
    proof {
        assert(v@ =~= seq![c]);
    }
    v
}

/// Whether `c` has the Unicode `White_Space` property.
pub uninterp spec fn char_is_whitespace(c: char) -> bool;

/// Relies on `char::is_whitespace`: the Unicode `White_Space` property of
/// the character alone.
#[verifier::external_body]
pub(crate) fn is_whitespace_char(c: char) -> (b: bool)
    ensures
        b == char_is_whitespace(c),
{
    c.is_whitespace()
}

/// Relies on `String::push`: appends the single character `c` to the string.
#[verifier::external_body]
fn string_push_char(s: &mut String, c: char)
    ensures
        final(s)@ == old(s)@.push(c),
{
    s.push(c);
}

/// The characters of `s`, in order, as a vector.
pub fn str_chars(s: &str) -> (v: Vec<char>)
    ensures
        v@ == s@,
{
    let n = s.unicode_len();
    let mut v: Vec<char> = Vec::new();
    let mut i: usize = 0;
    while i < n
        invariant
            n == s@.len(),
            i <= n,
            v@ == s@.subrange(0, i as int),
        decreases n - i,
    {
        v.push(s.get_char(i));
        proof {
            assert(v@ =~= s@.subrange(0, i + 1));
        }
        i += 1;
    }
    proof {
        assert(v@ =~= s@);
    }
    v
}

/// The characters `v[lo..hi]` collected into a `String`.
pub fn chars_string(v: &Vec<char>, lo: usize, hi: usize) -> (s: String)
    requires
        lo <= hi <= v@.len(),
    ensures
        s@ == v@.subrange(lo as int, hi as int),
{
    let mut s = String::new();
    let mut i: usize = lo;
    while i < hi
        invariant
            lo <= i <= hi <= v@.len(),
            s@ == v@.subrange(lo as int, i as int),
        decreases hi - i,
    {
        string_push_char(&mut s, v[i]);
        proof {
            assert(s@ =~= v@.subrange(lo as int, i + 1));
        }
        i += 1;
    }
    s
}

} // verus!
