//! Column layout for completion suggestions: each column's entries are
//! flattened, padded to a shared width (or truncated under a `...` marker)
//! and wrapped in prefix/suffix padding, all under a total width budget.

use vstd::prelude::*;

use crate::completion::Suggestion;
use crate::text::{str_chars, chars_string};

verus! {

/// Whether `c` survives flattening (anything but a line break).
pub open spec fn keeps(c: char) -> bool {
    c != '\n' && c != '\r'
}

/// `s` with every line-break character removed.
pub open spec fn strip_breaks(s: Seq<char>) -> Seq<char>
    decreases s.len(),
{
    if s.len() == 0 {
        Seq::empty()
    } else if keeps(s.last())  {
        strip_breaks(s.drop_last()).push(s.last())
    } else {
        strip_breaks(s.drop_last())
    }
}

/// The widest entry after flattening; 0 when all entries are empty.
pub open spec fn max_clean_width(entries: Seq<Seq<char>>) -> int
    decreases entries.len(),
{
    if entries.len() == 0 {
        0
    } else {
        let w = strip_breaks(entries.last()).len() as int;
        let m = max_clean_width(entries.drop_last());
        if w > m {
            w
        } else {
            m
        }
    }
}

/// `n` spaces.
pub open spec fn spaces(n: int) -> Seq<char> {
    Seq::new(n as nat, |i: int| ' ')
}

/// The three-character truncation marker.
pub open spec fn marker() -> Seq<char> {
    seq!['.', '.', '.']
}

/// An entry fitted to width `w`: right-padded with spaces when it fits,
/// truncated under the marker when it does not.
pub open spec fn cell_body(e: Seq<char>, w: int) -> Seq<char> {
    if e.len() <= w {
        e + spaces(w - e.len())
    } else {
        e.subrange(0, w - 3) + marker()
    }
}

/// A finished cell: the flattened entry fitted to `w`, wrapped in the
/// column's prefix and suffix.
pub open spec fn padded_cell(e: Seq<char>, w: int, prefix: Seq<char>, suffix: Seq<char>) -> Seq<char> {
    prefix + cell_body(strip_breaks(e), w) + suffix
}

/// The width entries are fitted to: their natural width, shrunk when
/// prefix, natural width and suffix together would exceed the budget.
pub open spec fn working_width(entries: Seq<Seq<char>>, max: int, p: int, s: int) -> int {
    let nw = max_clean_width(entries);
    if p + nw + s > max {
        max - p - s
    } else {
        nw
    }
}

/// Total width a column consumes: prefix, working width and suffix — or 0
/// when every entry is empty or the budget cannot fit prefix, suffix and
/// marker.
pub open spec fn column_width(entries: Seq<Seq<char>>, max: int, p: int, s: int) -> int {
    let nw = max_clean_width(entries);
    if nw == 0 || p + s + 3 >= max {
        0
    } else {
        p + working_width(entries, max, p, s) + s
    }
}

/// No flattened entry is wider than the column's natural width.
proof fn lemma_max_clean_width_bound(entries: Seq<Seq<char>>, i: int)
    requires
        0 <= i < entries.len(),
    ensures
        strip_breaks(entries[i]).len() <= max_clean_width(entries),
    decreases entries.len(),
{
    if i < entries.len() - 1 {
        lemma_max_clean_width_bound(entries.drop_last(), i);
    }
}

/// `s` with every line feed and carriage return removed.
pub fn delete_break_line_characters(s: &str) -> (r: String)
    ensures
        r@ == strip_breaks(s@),
{
    let v = str_chars(s);
    let kept = strip_chars(&v);
    let r = chars_string(&kept, 0, kept.len());
    proof {
        assert(kept@.subrange(0, kept@.len() as int) =~= kept@);
    }
    r
}

/// The characters of `v` with line breaks removed.
fn strip_chars(v: &Vec<char>) -> (r: Vec<char>)
    ensures
        r@ == strip_breaks(v@),
{
    let mut out: Vec<char> = Vec::new();
    let mut i: usize = 0;
    while i < v.len()
        invariant
            i <= v@.len(),
            out@ == strip_breaks(v@.subrange(0, i as int)),
        decreases v@.len() - i,
    {
        let c = v[i];
        proof {
            assert(v@.subrange(0, i + 1).drop_last() =~= v@.subrange(0, i as int));
            assert(v@.subrange(0, i + 1).last() == v@[i as int]);
        }
        if c != '\n' && c != '\r' {
            out.push(c);
        }
        i += 1;
    }
    proof {
        assert(v@.subrange(0, v@.len() as int) =~= v@);
    }
    out
}

/// `n` empty strings.
fn empty_strings(n: usize) -> (r: Vec<String>)
    ensures
        r@.len() == n,
        forall|i: int| 0 <= i < n ==> r@[i]@ == Seq::<char>::empty(),
{
    let mut out: Vec<String> = Vec::new();
    let mut i: usize = 0;
    while i < n
        invariant
            i <= n,
            out@.len() == i,
            forall|k: int| 0 <= k < i ==> out@[k]@ == Seq::<char>::empty(),
        decreases n - i,
    {
        out.push(String::new());
        i += 1;
    }
    out
}

/// Appends all of `src` to `dst`.
fn push_all(dst: &mut Vec<char>, src: &Vec<char>)
    ensures
        final(dst)@ == old(dst)@ + src@,
{
    let mut i: usize = 0;
    while i < src.len()
        invariant
            i <= src@.len(),
            dst@ == old(dst)@ + src@.subrange(0, i as int),
        decreases src@.len() - i,
    {
        dst.push(src[i]);
        proof {
            assert(old(dst)@ + src@.subrange(0, i + 1) =~= (old(dst)@ + src@.subrange(
                0,
                i as int,
            )).push(src@[i as int]));
        }
        i += 1;
    }
    proof {
        assert(src@.subrange(0, src@.len() as int) =~= src@);
    }
}

/// Appends the first `k` characters of `src` to `dst`.
fn push_prefix(dst: &mut Vec<char>, src: &Vec<char>, k: usize)
    requires
        k <= src@.len(),
    ensures
        final(dst)@ == old(dst)@ + src@.subrange(0, k as int),
{
    let mut i: usize = 0;
    while i < k
        invariant
            i <= k <= src@.len(),
            dst@ == old(dst)@ + src@.subrange(0, i as int),
        decreases k - i,
    {
        dst.push(src[i]);
        proof {
            assert(old(dst)@ + src@.subrange(0, i + 1) =~= (old(dst)@ + src@.subrange(
                0,
                i as int,
            )).push(src@[i as int]));
        }
        i += 1;
    }
}

/// Appends `k` spaces to `dst`.
fn push_spaces(dst: &mut Vec<char>, k: usize)
    ensures
        final(dst)@ == old(dst)@ + spaces(k as int),
{
    let mut i: usize = 0;
    while i < k
        invariant
            i <= k,
            dst@ == old(dst)@ + spaces(i as int),
        decreases k - i,
    {
        dst.push(' ');
        proof {
            assert(old(dst)@ + spaces(i + 1) =~= (old(dst)@ + spaces(i as int)).push(' '));
        }
        i += 1;
    }
}

/// Lays the entries of `o` out as one column under the width budget `max`:
/// every entry flattened, fitted to the shared working width and wrapped
/// in `prefix`/`suffix`; the second result is the total width consumed.
/// When every entry is empty, or the budget cannot fit prefix, suffix and
/// truncation marker, all cells are empty and the width is 0.
pub fn format_texts(o: &Vec<String>, max: usize, prefix: &str, suffix: &str) -> (r: (
    Vec<String>,
    usize,
))
    ensures
        r.0@.len() == o@.len(),
        r.1 as int == column_width(o.deep_view(), max as int, prefix@.len() as int, suffix@.len() as int),
        r.1 <= max,
        ({
            let entries = o.deep_view();
            let p = prefix@.len() as int;
            let s = suffix@.len() as int;
            if max_clean_width(entries) == 0 || p + s + 3 >= max {
                forall|i: int| 0 <= i < r.0@.len() ==> r.0@[i]@ == Seq::<char>::empty()
            } else {
                forall|i: int|
                    0 <= i < r.0@.len() ==> r.0@[i]@ == padded_cell(
                        entries[i],
                        working_width(entries, max as int, p, s),
                        prefix@,
                        suffix@,
                    )
            }
        }),
{
    let ghost entries = o.deep_view();
    let n = o.len();
    let mut cleaned: Vec<Vec<char>> = Vec::new();
    let mut idx: usize = 0;
    while idx < n
        invariant
            idx <= n == o@.len(),
            entries == o.deep_view(),
            cleaned@.len() == idx,
            forall|i: int| 0 <= i < idx ==> cleaned@[i]@ == strip_breaks(entries[i]),
        decreases n - idx,
    {
        let v = str_chars(o[idx].as_str());
        cleaned.push(strip_chars(&v));
        idx += 1;
    }
    let mut widest: usize = 0;
    let mut idx: usize = 0;
    while idx < n
        invariant
            idx <= n == o@.len(),
            entries == o.deep_view(),
            cleaned@.len() == n,
            forall|i: int| 0 <= i < n ==> cleaned@[i]@ == strip_breaks(entries[i]),
            widest as int == max_clean_width(entries.subrange(0, idx as int)),
        decreases n - idx,
    {
        proof {
            assert(entries.subrange(0, idx + 1).drop_last() =~= entries.subrange(0, idx as int));
            assert(entries.subrange(0, idx + 1).last() == entries[idx as int]);
        }
        if cleaned[idx].len() > widest {
            widest = cleaned[idx].len();
        }
        idx += 1;
    }
    proof {
        assert(entries.subrange(0, entries.len() as int) =~= entries);
    }
    if widest == 0 {
        return (empty_strings(n), 0);
    }
    let p = prefix.unicode_len();
    let sfx = suffix.unicode_len();
    if max <= p {
        return (empty_strings(n), 0);
    }
    if max - p <= sfx {
        return (empty_strings(n), 0);
    }
    if max - p - sfx <= 3 {
        return (empty_strings(n), 0);
    }
    let budget = max - p - sfx;
    let w = if widest > budget {
        budget
    } else {
        widest
    };
    let pre = str_chars(prefix);
    let suf = str_chars(suffix);
    let mut out: Vec<String> = Vec::new();
    let mut i: usize = 0;
    while i < n
        invariant
            i <= n == o@.len(),
            entries == o.deep_view(),
            cleaned@.len() == n,
            forall|k: int| 0 <= k < n ==> cleaned@[k]@ == strip_breaks(entries[k]),
            pre@ == prefix@,
            suf@ == suffix@,
            w as int == working_width(entries, max as int, prefix@.len() as int, suffix@.len() as int),
            w <= budget == max - p - sfx,
            budget > 3,
            p == prefix@.len(),
            sfx == suffix@.len(),
            out@.len() == i,
            forall|k: int|
                0 <= k < i ==> out@[k]@ == padded_cell(
                    entries[k],
                    w as int,
                    prefix@,
                    suffix@,
                ),
        decreases n - i,
    {
        let e = &cleaned[i];
        let mut row: Vec<char> = Vec::new();
        push_all(&mut row, &pre);
        if e.len() <= w {
            push_all(&mut row, e);
            push_spaces(&mut row, w - e.len());
        } else {
            proof {
                lemma_max_clean_width_bound(entries, i as int);
            }
            push_prefix(&mut row, e, w - 3);
            row.push('.');
            row.push('.');
            row.push('.');
        }
        push_all(&mut row, &suf);
        proof {
            assert(row@ =~= padded_cell(entries[i as int], w as int, prefix@, suffix@));
        }
        let cell = chars_string(&row, 0, row.len());
        proof {
            assert(row@.subrange(0, row@.len() as int) =~= row@);
        }
        out.push(cell);
        i += 1;
    }
    (out, p + w + sfx)
}

/// Lays suggestions out as two columns: the labels against the whole
/// budget, then the descriptions against what is left. When the label
/// column cannot be shown at all the result is empty with width 0; when
/// only the descriptions cannot, they become empty cells.
pub fn format_suggestions(suggestions: &Vec<Suggestion>, max: usize) -> (r: (
    Vec<Suggestion>,
    usize,
))
    ensures
        ({
            let n = suggestions@.len() as int;
            let labels = Seq::new(suggestions@.len(), |i: int| suggestions@[i].spec_text());
            let descs = Seq::new(suggestions@.len(), |i: int| suggestions@[i].spec_description());
            let lw = column_width(labels, max as int, 1, 1);
            if lw == 0 {
                r.0@.len() == 0 && r.1 == 0
            } else {
                let rw = if max > lw {
                    column_width(descs, max - lw, 1, 1)
                } else {
                    0
                };
                &&& r.1 as int == lw + rw
                &&& r.0@.len() == n
                &&& forall|i: int|
                    0 <= i < n ==> r.0@[i].spec_text() == padded_cell(
                        labels[i],
                        working_width(labels, max as int, 1, 1),
                        seq![' '],
                        seq![' '],
                    )
                &&& forall|i: int|
                    0 <= i < n ==> r.0@[i].spec_description() == (if max > lw && rw != 0 {
                        padded_cell(
                            descs[i],
                            working_width(descs, max - lw, 1, 1),
                            seq![' '],
                            seq![' '],
                        )
                    } else {
                        Seq::<char>::empty()
                    })
            }
        }),
        r.1 <= max,
{
    let ghost labels = Seq::new(suggestions@.len(), |i: int| suggestions@[i].spec_text());
    let ghost descs = Seq::new(suggestions@.len(), |i: int| suggestions@[i].spec_description());
    let n = suggestions.len();
    let mut left: Vec<String> = Vec::new();
    let mut right_in: Vec<String> = Vec::new();
    let mut i: usize = 0;
    while i < n
        invariant
            i <= n == suggestions@.len(),
            labels == Seq::new(suggestions@.len(), |k: int| suggestions@[k].spec_text()),
            descs == Seq::new(suggestions@.len(), |k: int| suggestions@[k].spec_description()),
            left@.len() == i,
            right_in@.len() == i,
            forall|k: int| 0 <= k < i ==> left@[k]@ == labels[k],
            forall|k: int| 0 <= k < i ==> right_in@[k]@ == descs[k],
        decreases n - i,
    {
        left.push(String::from_str(suggestions[i].text()));
        right_in.push(String::from_str(suggestions[i].description()));
        i += 1;
    }
    proof {
        reveal_strlit(" ");
        assert(" "@ =~= seq![' ']);
        assert(left.deep_view() =~= labels);
        assert(right_in.deep_view() =~= descs);
    }
    let (left_fmt, left_width) = format_texts(&left, max, " ", " ");
    if left_width == 0 {
        return (Vec::new(), 0);
    }
    let (right_fmt, right_width) = if max > left_width {
        format_texts(&right_in, max - left_width, " ", " ")
    } else {
        (empty_strings(n), 0)
    };
    let mut out: Vec<Suggestion> = Vec::new();
    let mut i: usize = 0;
    while i < n
        invariant
            i <= n,
            left_fmt@.len() == n,
            right_fmt@.len() == n,
            out@.len() == i,
            forall|k: int|
                0 <= k < i ==> out@[k].spec_text() == left_fmt@[k]@ && out@[k].spec_description()
                    == right_fmt@[k]@,
        decreases n - i,
    {
        out.push(Suggestion::new(left_fmt[i].clone(), right_fmt[i].clone()));
        i += 1;
    }
    (out, left_width + right_width)
}

} // verus!
