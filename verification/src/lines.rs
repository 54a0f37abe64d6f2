//! The line-start table: for a text, the offsets at which its lines begin,
//! and the row/column arithmetic built on top of it. A text with no line
//! break still carries a synthetic one-past-end entry, as the construction
//! algorithm leaves it in place whenever only one line exists.

use vstd::prelude::*;

verus! {

/// Start offsets of the lines of `t`, considering only the breaks among the
/// first `upto` characters: 0, then one entry just after each line feed.
pub open spec fn line_starts_upto(t: Seq<char>, upto: int) -> Seq<int>
    decreases upto,
{
    if upto <= 0 {
        seq![0]
    } else if t[upto - 1] == '\n' {
        line_starts_upto(t, upto - 1).push(upto)
    } else {
        line_starts_upto(t, upto - 1)
    }
}

/// Start offsets of all the lines of `t`.
pub open spec fn line_starts(t: Seq<char>) -> Seq<int> {
    line_starts_upto(t, t.len() as int)
}

/// Number of lines of `t`: one more than the number of line feeds.
pub open spec fn spec_line_count(t: Seq<char>) -> int {
    line_starts(t).len() as int
}

/// The table the lookup runs on: the line starts, with the synthetic
/// one-past-end entry kept when the text is a single line.
pub open spec fn line_table(t: Seq<char>) -> Seq<int> {
    if spec_line_count(t) == 1 {
        line_starts(t).push(t.len() as int + 1)
    } else {
        line_starts(t)
    }
}

/// Offset of the first character of row `r`.
pub open spec fn line_start_of(t: Seq<char>, r: int) -> int {
    line_starts(t)[r]
}

/// Offset one past the last character of row `r` (the position of its line
/// feed, or the end of the text for the last row).
pub open spec fn line_end_of(t: Seq<char>, r: int) -> int {
    if r == spec_line_count(t) - 1 {
        t.len() as int
    } else {
        line_starts(t)[r + 1] - 1
    }
}

/// The characters of row `r`, without its line feed.
pub open spec fn spec_line(t: Seq<char>, r: int) -> Seq<char> {
    t.subrange(line_start_of(t, r), line_end_of(t, r))
}

/// Length of row `r` in characters, without its line feed.
pub open spec fn line_len_of(t: Seq<char>, r: int) -> int {
    line_end_of(t, r) - line_start_of(t, r)
}

/// How many entries of `s` are at most `v`.
pub open spec fn count_le(s: Seq<int>, v: int) -> int
    decreases s.len(),
{
    if s.len() == 0 {
        0
    } else if s.last() <= v {
        count_le(s.drop_last(), v) + 1
    } else {
        count_le(s.drop_last(), v)
    }
}

/// The row whose span contains offset `v`: the rightmost table entry `<= v`.
pub open spec fn spec_row_of(t: Seq<char>, v: int) -> int {
    count_le(line_table(t), v) - 1
}

/// Row `row` clamped to the valid range, then `col` clamped to that row's
/// length, mapped to the absolute offset of that position.
pub open spec fn spec_translate_row_col(t: Seq<char>, row: int, col: int) -> int {
    let r = if row >= spec_line_count(t) {
        spec_line_count(t) - 1
    } else {
        row
    };
    let ll = line_len_of(t, r);
    let c = if col > ll {
        ll
    } else {
        col
    };
    line_start_of(t, r) + c
}

/// Offset `v` mapped to its row and the column within that row.
pub open spec fn spec_translate_index(t: Seq<char>, v: int) -> (int, int) {
    (spec_row_of(t, v), v - line_table(t)[spec_row_of(t, v)])
}

/// Shape of the start table: it begins at 0, increases strictly, stays
/// within the scanned prefix, each later entry sits just after a line feed,
/// and every line feed contributes an entry.
pub proof fn lemma_line_starts_upto(t: Seq<char>, upto: int)
    requires
        0 <= upto <= t.len(),
    ensures
        ({
            let s = line_starts_upto(t, upto);
            &&& 1 <= s.len() <= upto + 1
            &&& s[0] == 0
            &&& forall|i: int, j: int| 0 <= i < j < s.len() ==> s[i] < s[j]
            &&& forall|i: int| 0 <= i < s.len() ==> 0 <= #[trigger] s[i] <= upto
            &&& forall|i: int| 1 <= i < s.len() ==> t[s[i] - 1] == '\n'
            &&& forall|k: int|
                0 <= k < upto && t[k] == '\n' ==> exists|i: int|
                    0 <= i < s.len() && s[i] == k + 1
        }),
    decreases upto,
{
    if upto > 0 {
        lemma_line_starts_upto(t, upto - 1);
        let s0 = line_starts_upto(t, upto - 1);
        let s = line_starts_upto(t, upto);
        if t[upto - 1] == '\n' {
            assert forall|k: int| 0 <= k < upto && t[k] == '\n' implies exists|i: int|
                0 <= i < s.len() && s[i] == k + 1 by {
                if k < upto - 1 {
                    let i = choose|i: int| 0 <= i < s0.len() && s0[i] == k + 1;
                    assert(s[i] == k + 1);
                } else {
                    assert(s[s.len() - 1] == k + 1);
                }
            }
        } else {
            assert forall|k: int| 0 <= k < upto && t[k] == '\n' implies exists|i: int|
                0 <= i < s.len() && s[i] == k + 1 by {
                let i = choose|i: int| 0 <= i < s0.len() && s0[i] == k + 1;
                assert(s[i] == k + 1);
            }
        }
    }
}

/// Counting entries `<= v` of a strictly increasing table splits it exactly:
/// everything before the count is `<= v`, everything from it on is greater.
pub proof fn lemma_count_le_partition(s: Seq<int>, v: int)
    requires
        forall|i: int, j: int| 0 <= i < j < s.len() ==> s[i] < s[j],
    ensures
        ({
            let c = count_le(s, v);
            &&& 0 <= c <= s.len()
            &&& forall|i: int| 0 <= i < c ==> s[i] <= v
            &&& forall|i: int| c <= i < s.len() ==> s[i] > v
        }),
    decreases s.len(),
{
    if s.len() > 0 {
        let s0 = s.drop_last();
        assert(forall|i: int| 0 <= i < s0.len() ==> s0[i] == s[i]);
        lemma_count_le_partition(s0, v);
        let c0 = count_le(s0, v);
        if s.last() <= v {
            if c0 < s0.len() {
                assert(s0[c0] > v);
                assert(s[c0] < s.last());
            }
        }
    }
}

/// A cut with everything on the left `<= v` and everything on the right
/// `> v` can only sit at the counting point.
pub proof fn lemma_partition_point_unique(s: Seq<int>, v: int, r: int)
    requires
        forall|i: int, j: int| 0 <= i < j < s.len() ==> s[i] < s[j],
        0 <= r <= s.len(),
        forall|i: int| 0 <= i < r ==> s[i] <= v,
        forall|i: int| r <= i < s.len() ==> s[i] > v,
    ensures
        r == count_le(s, v),
{
    lemma_count_le_partition(s, v);
    let c = count_le(s, v);
    if r < c {
        assert(s[r] <= v);
        assert(s[r] > v);
    }
    if c < r {
        assert(s[c] <= v);
        assert(s[c] > v);
    }
}

/// The lookup table inherits the start table's shape, with the synthetic
/// entry strictly above every real one.
pub proof fn lemma_line_table(t: Seq<char>)
    ensures
        ({
            let table = line_table(t);
            &&& spec_line_count(t) >= 1
            &&& table.len() >= spec_line_count(t)
            &&& table[0] == 0
            &&& forall|i: int, j: int| 0 <= i < j < table.len() ==> table[i] < table[j]
            &&& forall|i: int| 0 <= i < spec_line_count(t) ==> table[i] == line_starts(t)[i]
            &&& forall|i: int| 0 <= i < spec_line_count(t) ==> 0 <= #[trigger] table[i] <= t.len()
        }),
{
    lemma_line_starts_upto(t, t.len() as int);
}

/// For any offset inside the text, the row found for it is a real row and
/// its span contains the offset.
pub proof fn lemma_row_of_valid(t: Seq<char>, v: int)
    requires
        0 <= v <= t.len(),
    ensures
        ({
            let r = spec_row_of(t, v);
            &&& 0 <= r < spec_line_count(t)
            &&& line_start_of(t, r) <= v <= line_end_of(t, r)
            &&& line_table(t)[r] == line_start_of(t, r)
        }),
{
    lemma_line_table(t);
    let table = line_table(t);
    lemma_count_le_partition(table, v);
    let c = count_le(table, v);
    assert(table[0] <= v);
    if c < 1 {
        assert(table[0] > v);
    }
    let r = c - 1;
    if r >= spec_line_count(t) {
        // only possible through the synthetic entry, which exceeds the text
        assert(table[r] == t.len() + 1);
    }
    if r < spec_line_count(t) - 1 {
        assert(table[r + 1] > v);
    }
}

/// Each offset lies in the span of exactly one row: the row the table lookup
/// finds is the only `r` with `table[r] <= v` that is final or has
/// `v < table[r + 1]`.
pub proof fn lemma_find_line_start_row_unique(t: Seq<char>, v: int, r1: int, r2: int)
    requires
        0 <= r1 < line_table(t).len(),
        line_table(t)[r1] <= v,
        r1 + 1 == line_table(t).len() || v < line_table(t)[r1 + 1],
        0 <= r2 < line_table(t).len(),
        line_table(t)[r2] <= v,
        r2 + 1 == line_table(t).len() || v < line_table(t)[r2 + 1],
    ensures
        r1 == r2,
{
    lemma_line_table(t);
    let table = line_table(t);
    if r1 < r2 {
        assert(table[r1 + 1] <= table[r2]);
    }
    if r2 < r1 {
        assert(table[r2 + 1] <= table[r1]);
    }
}

/// Translating a valid row and an in-range column to an offset and back
/// returns the same row and column.
pub proof fn lemma_translate_round_trip(t: Seq<char>, row: int, col: int)
    requires
        0 <= row < spec_line_count(t),
        0 <= col <= line_len_of(t, row),
    ensures
        spec_translate_index(t, spec_translate_row_col(t, row, col)) == (row, col),
{
    lemma_line_table(t);
    let table = line_table(t);
    let v = line_start_of(t, row) + col;
    assert(spec_translate_row_col(t, row, col) == v);
    assert forall|i: int| 0 <= i < row + 1 implies table[i] <= v by {
        if i < row {
            assert(table[i] < table[row]);
        }
    }
    assert forall|i: int| row + 1 <= i < table.len() implies table[i] > v by {
        if row == spec_line_count(t) - 1 {
            if i < spec_line_count(t) {
                assert(false);
            } else {
                // the synthetic entry, one past the end of the text
                assert(table[i] == t.len() + 1);
            }
        } else {
            assert(table[row + 1] == line_starts(t)[row + 1]);
            assert(v <= line_end_of(t, row));
            assert(table[row + 1] <= table[i]) by {
                if row + 1 < i {
                    assert(table[row + 1] < table[i]);
                }
            }
        }
    }
    lemma_partition_point_unique(table, v, row + 1);
}

} // verus!
