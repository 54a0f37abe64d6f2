//! The text/cursor document: an immutable snapshot of the input buffer plus
//! a cursor offset, answering display-width, word-boundary, line-boundary
//! and row/column queries. All offsets count Unicode scalar values, never
//! bytes.

use vstd::prelude::*;

use crate::lines::{
    line_starts_upto, line_starts, spec_line_count, line_table, line_start_of, line_end_of,
    spec_line, line_len_of, spec_row_of, spec_translate_row_col, spec_translate_index,
    lemma_line_starts_upto, lemma_line_table, lemma_count_le_partition,
    lemma_partition_point_unique, lemma_row_of_valid,
};
use crate::text::{
    last_index_in, last_index_not_in, first_index_in, first_index_not_in, char_is_whitespace,
    is_whitespace_char, lemma_first_index_located, lemma_last_index_located, scan_last_in,
    scan_last_not_in, scan_first_in, scan_first_not_in, str_chars, chars_string, single_char_vec,
};
use crate::width::{char_width, width_upto};

verus! {

/// Relies on crossterm's `KeyCode` existing as a plain `Copy` enum; the
/// document only stores and hands back such a value, never reads it.
#[verifier::external_type_specification]
#[verifier::external_body]
pub struct ExKeyCode(crossterm::event::KeyCode);

/// The separator set actually searched: an empty set falls back to the
/// single plain space.
pub open spec fn effective_seps(sep: Seq<char>) -> Seq<char> {
    if sep.len() == 0 {
        seq![' ']
    } else {
        sep
    }
}

/// First index in `[from, to)` holding a non-whitespace character, or `to`.
pub open spec fn first_index_not_ws(t: Seq<char>, from: int, to: int) -> int
    recommends
        0 <= from,
    decreases to - from,
{
    if from >= to {
        to
    } else if !char_is_whitespace(t[from]) {
        from
    } else {
        first_index_not_ws(t, from + 1, to)
    }
}

/// Column of the cursor offset `cur`: its distance from the start of the
/// row that contains it.
pub open spec fn spec_col_at(t: Seq<char>, cur: int) -> int {
    cur - line_start_of(t, spec_row_of(t, cur))
}

/// Characters from `cur` to the end of its line.
pub open spec fn spec_after_line_len(t: Seq<char>, cur: int) -> int {
    first_index_in(t, seq!['\n'], cur) - cur
}

/// Relative cursor movement for stepping `count` characters left: at most
/// to the start of the current line. A negative `count` steps right.
pub open spec fn spec_cursor_left(t: Seq<char>, cur: int, count: int) -> int
    decreases (if count < 0 { 1int } else { 0int }),
{
    if count < 0 {
        spec_cursor_right(t, cur, -count)
    } else if spec_col_at(t, cur) > count {
        -count
    } else {
        -spec_col_at(t, cur)
    }
}

/// Relative cursor movement for stepping `count` characters right: at most
/// to the end of the current line. A negative `count` steps left.
pub open spec fn spec_cursor_right(t: Seq<char>, cur: int, count: int) -> int
    decreases (if count < 0 { 1int } else { 0int }),
{
    if count < 0 {
        spec_cursor_left(t, cur, -count)
    } else if spec_after_line_len(t, cur) > count {
        count
    } else {
        spec_after_line_len(t, cur)
    }
}

/// Relative cursor movement for moving `drow` rows down (negative: up),
/// the target row clamped to the valid range, into column `col` clamped to
/// that row's length.
pub open spec fn spec_cursor_vertical(t: Seq<char>, cur: int, drow: int, pref: Option<usize>) -> int {
    let col = match pref {
        Some(n) => n as int,
        None => spec_col_at(t, cur),
    };
    let target = spec_row_of(t, cur) + drow;
    let clamped = if target < 0 {
        0
    } else if target >= spec_line_count(t) {
        spec_line_count(t) - 1
    } else {
        target
    };
    spec_translate_row_col(t, clamped, col) - cur
}

/// The two views of a line agree: around any offset, the span between the
/// nearest line feeds is exactly the span of the row that the start table
/// assigns to that offset.
pub proof fn lemma_line_bounds_at(t: Seq<char>, v: int)
    requires
        0 <= v <= t.len(),
    ensures
        last_index_in(t, seq!['\n'], v) == line_start_of(t, spec_row_of(t, v)) - 1,
        first_index_in(t, seq!['\n'], v) == line_end_of(t, spec_row_of(t, v)),
{
    lemma_line_table(t);
    lemma_row_of_valid(t, v);
    lemma_line_starts_upto(t, t.len() as int);
    lemma_count_le_partition(line_table(t), v);
    let r = spec_row_of(t, v);
    let start = line_start_of(t, r);
    let end = line_end_of(t, r);
    let s = line_starts(t);
    let lc = spec_line_count(t);
    let nl = seq!['\n'];
    assert(nl[0] == '\n');
    assert forall|c: char| #[trigger] nl.contains(c) implies c == '\n' by {
        let i = choose|i: int| 0 <= i < nl.len() && nl[i] == c;
    }
    assert forall|k: int| start <= k < v implies !nl.contains(t[k]) by {
        if t[k] == '\n' {
            let i = choose|i: int| 0 <= i < s.len() && s[i] == k + 1;
            assert(line_table(t)[i] == s[i]);
            if i <= r {
                assert(s[i] <= s[r]) by {
                    if i < r {
                        assert(s[i] < s[r]);
                    }
                }
            } else {
                assert(line_table(t)[i] > v);
            }
        } else {
            if nl.contains(t[k]) {
                assert(t[k] == '\n');
            }
        }
    }
    if start > 0 {
        if r == 0 {
            assert(s[0] == 0);
        }
        assert(t[s[r] - 1] == '\n');
        assert(nl.contains(t[start - 1]));
    }
    lemma_last_index_located(t, nl, v, start);
    assert forall|k: int| v <= k < end implies !nl.contains(t[k]) by {
        if t[k] == '\n' {
            let i = choose|i: int| 0 <= i < s.len() && s[i] == k + 1;
            assert(s[r] <= v <= k);
            assert(r < i) by {
                if i <= r {
                    assert(s[i] <= s[r]) by {
                        if i < r {
                            assert(s[i] < s[r]);
                        }
                    }
                }
            }
            if r == lc - 1 {
                assert(false);
            } else {
                assert(s[i] <= end < s[r + 1]);
                assert(s[r + 1] <= s[i]) by {
                    if r + 1 < i {
                        assert(s[r + 1] < s[i]);
                    }
                }
            }
        } else {
            if nl.contains(t[k]) {
                assert(t[k] == '\n');
            }
        }
    }
    if r < lc - 1 {
        assert(t[s[r + 1] - 1] == '\n');
        assert(nl.contains(t[end]));
    }
    lemma_first_index_located(t, nl, v, end);
}

/// An immutable snapshot of the input buffer together with the cursor
/// offset and the key stroke that produced it.
#[derive(Debug)]
pub struct Document {
    text: Vec<char>,
    cursor_position: usize,
    last_key: Option<crossterm::event::KeyCode>,
}

impl Document {
    /// The buffer contents as a character sequence.
    pub closed spec fn spec_text(&self) -> Seq<char> {
        self.text@
    }

    /// Count of characters before the cursor.
    pub closed spec fn spec_cursor(&self) -> int {
        self.cursor_position as int
    }

    pub closed spec fn spec_last_key(&self) -> Option<crossterm::event::KeyCode> {
        self.last_key
    }

    /// The cursor stays inside the text, and the text is small enough that
    /// relative offsets travel as `i32` and per-character display widths
    /// (at most 3 columns each) sum within `usize`.
    pub open spec fn wf(&self) -> bool {
        &&& 0 <= self.spec_cursor() <= self.spec_text().len()
        &&& self.spec_text().len() <= i32::MAX as int
        &&& 3 * self.spec_text().len() <= usize::MAX as int
    }

    /// An empty document with the cursor at the start.
    pub fn new() -> (d: Document)
        ensures
            d.wf(),
            d.spec_text() == Seq::<char>::empty(),
            d.spec_cursor() == 0,
            d.spec_last_key() is None,
    {
        Document { text: Vec::new(), cursor_position: 0, last_key: None }
    }

    /// A document over `text` with the cursor after `cursor_position`
    /// characters. The bounds are the machine limits of the offset
    /// arithmetic, far beyond any interactive input line.
    pub fn with_text(text: &str, cursor_position: usize) -> (d: Document)
        requires
            cursor_position as int <= text@.len(),
            text@.len() <= i32::MAX as int,
            3 * text@.len() <= usize::MAX as int,
        ensures
            d.wf(),
            d.spec_text() == text@,
            d.spec_cursor() == cursor_position as int,
            d.spec_last_key() is None,
    {
        Document { text: str_chars(text), cursor_position, last_key: None }
    }

    /// Records the key stroke that the external input loop last captured.
    pub fn set_last_key_stroke(&mut self, key: Option<crossterm::event::KeyCode>)
        ensures
            final(self).spec_text() == old(self).spec_text(),
            final(self).spec_cursor() == old(self).spec_cursor(),
            final(self).spec_last_key() == key,
            old(self).wf() ==> final(self).wf(),
    {
        self.last_key = key;
    }

    pub fn last_key_stroke(&self) -> (k: Option<crossterm::event::KeyCode>)
        ensures
            k == self.spec_last_key(),
    {
        self.last_key
    }

    /// The buffer contents as a `String`.
    pub fn text(&self) -> (r: String)
        ensures
            r@ == self.spec_text(),
    {
        let r = chars_string(&self.text, 0, self.text.len());
        proof {
            assert(self.text@.subrange(0, self.text@.len() as int) =~= self.text@);
        }
        r
    }

    /// Count of characters before the cursor.
    pub fn cursor_position(&self) -> (r: usize)
        ensures
            r as int == self.spec_cursor(),
    {
        self.cursor_position
    }

    /// The terminal column the cursor sits in: the summed display width of
    /// everything before it.
    pub fn display_cursor_position(&self) -> (r: usize)
        requires
            self.wf(),
        ensures
            r as int == width_upto(self.spec_text(), self.spec_cursor()),
    {
        let mut total: usize = 0;
        let mut i: usize = 0;
        while i < self.cursor_position
            invariant
                i <= self.cursor_position <= self.text@.len(),
                3 * self.text@.len() <= usize::MAX as int,
                total as int == width_upto(self.text@, i as int),
                total <= 3 * i,
            decreases self.cursor_position - i,
        {
            let w = char_width(self.text[i]);
            total += w;
            i += 1;
        }
        total
    }

    /// The character at the given 1-based distance from the cursor (so
    /// offset 1 is the character just after it, 0 the one just before),
    /// or nothing when that position falls outside the text.
    pub fn get_char_relative_to_cursor(&self, offset: i32) -> (r: Option<char>)
        requires
            self.wf(),
        ensures
            ({
                let pos = self.spec_cursor() + offset - 1;
                if 0 <= pos < self.spec_text().len() {
                    r == Some(self.spec_text()[pos])
                } else {
                    r is None
                }
            }),
    {
        if offset >= 1 {
            let delta = (offset - 1) as usize;
            if delta < self.text.len() - self.cursor_position {
                Some(self.text[self.cursor_position + delta])
            } else {
                None
            }
        } else {
            let back = (1 - offset as i64) as usize;
            if back <= self.cursor_position {
                Some(self.text[self.cursor_position - back])
            } else {
                None
            }
        }
    }

    /// The text before the cursor.
    pub fn text_before_cursor(&self) -> (r: String)
        requires
            self.wf(),
        ensures
            r@ == self.spec_text().subrange(0, self.spec_cursor()),
    {
        chars_string(&self.text, 0, self.cursor_position)
    }

    /// The text from the cursor on.
    pub fn text_after_cursor(&self) -> (r: String)
        requires
            self.wf(),
        ensures
            r@ == self.spec_text().subrange(self.spec_cursor(), self.spec_text().len() as int),
    {
        chars_string(&self.text, self.cursor_position, self.text.len())
    }

    /// Index into the text before the cursor just after its last space,
    /// or 0 when it holds no space.
    pub fn find_start_of_previous_word(&self) -> (r: usize)
        requires
            self.wf(),
        ensures
            r as int == last_index_in(self.spec_text(), seq![' '], self.spec_cursor()) + 1,
            r <= self.spec_cursor(),
    {
        let seps: Vec<char> = single_char_vec(' ');
        scan_last_in(&self.text, &seps, self.cursor_position)
    }

    /// Like [`Self::find_start_of_previous_word`], but any run of spaces
    /// touching the cursor is skipped before the search.
    pub fn find_start_of_previous_word_with_space(&self) -> (r: usize)
        requires
            self.wf(),
        ensures
            r as int == last_index_in(
                self.spec_text(),
                seq![' '],
                last_index_not_in(self.spec_text(), seq![' '], self.spec_cursor()),
            ) + 1,
            r <= self.spec_cursor(),
    {
        let seps: Vec<char> = single_char_vec(' ');
        let e = scan_last_not_in(&self.text, &seps, self.cursor_position);
        if e == 0 {
            0
        } else {
            scan_last_in(&self.text, &seps, e - 1)
        }
    }

    /// Like [`Self::find_start_of_previous_word`], with the characters of
    /// `sep` as the separator set; an empty `sep` means the plain space.
    pub fn find_start_of_previous_word_until_separator(&self, sep: &str) -> (r: usize)
        requires
            self.wf(),
        ensures
            r as int == last_index_in(
                self.spec_text(),
                effective_seps(sep@),
                self.spec_cursor(),
            ) + 1,
            r <= self.spec_cursor(),
    {
        let seps = separator_vec(sep);
        scan_last_in(&self.text, &seps, self.cursor_position)
    }

    /// Separators adjacent to the cursor are skipped, then the previous
    /// boundary from `sep` is searched; an empty `sep` means the plain
    /// space.
    pub fn find_start_of_previous_word_until_separator_ignore_next_to_cursor(
        &self,
        sep: &str,
    ) -> (r: usize)
        requires
            self.wf(),
        ensures
            r as int == last_index_in(
                self.spec_text(),
                effective_seps(sep@),
                last_index_not_in(self.spec_text(), effective_seps(sep@), self.spec_cursor()),
            ) + 1,
            r <= self.spec_cursor(),
    {
        let seps = separator_vec(sep);
        let e = scan_last_not_in(&self.text, &seps, self.cursor_position);
        if e == 0 {
            0
        } else {
            scan_last_in(&self.text, &seps, e - 1)
        }
    }

    /// Offset forward from the cursor of the next space, or the length of
    /// the remaining text when it holds none.
    pub fn find_end_of_current_word(&self) -> (r: usize)
        requires
            self.wf(),
        ensures
            r as int == first_index_in(self.spec_text(), seq![' '], self.spec_cursor())
                - self.spec_cursor(),
            self.spec_cursor() + r <= self.spec_text().len(),
    {
        let seps: Vec<char> = single_char_vec(' ');
        let e = scan_first_in(&self.text, &seps, self.cursor_position);
        e - self.cursor_position
    }

    /// Like [`Self::find_end_of_current_word`], but any run of spaces
    /// touching the cursor is skipped before the search.
    pub fn find_end_of_current_word_with_space(&self) -> (r: usize)
        requires
            self.wf(),
        ensures
            r as int == first_index_in(
                self.spec_text(),
                seq![' '],
                first_index_not_in(self.spec_text(), seq![' '], self.spec_cursor()),
            ) - self.spec_cursor(),
            self.spec_cursor() + r <= self.spec_text().len(),
    {
        let seps: Vec<char> = single_char_vec(' ');
        let s = scan_first_not_in(&self.text, &seps, self.cursor_position);
        let e = scan_first_in(&self.text, &seps, s);
        e - self.cursor_position
    }

    /// Like [`Self::find_end_of_current_word`], with the characters of
    /// `sep` as the separator set; an empty `sep` means the plain space.
    pub fn find_end_of_current_word_until_separator(&self, sep: &str) -> (r: usize)
        requires
            self.wf(),
        ensures
            r as int == first_index_in(
                self.spec_text(),
                effective_seps(sep@),
                self.spec_cursor(),
            ) - self.spec_cursor(),
            self.spec_cursor() + r <= self.spec_text().len(),
    {
        let seps = separator_vec(sep);
        let e = scan_first_in(&self.text, &seps, self.cursor_position);
        e - self.cursor_position
    }

    /// Separators adjacent to the cursor are skipped, then the next
    /// boundary from `sep` is searched; an empty `sep` means the plain
    /// space.
    pub fn find_end_of_current_word_until_separator_ignore_next_to_cursor(
        &self,
        sep: &str,
    ) -> (r: usize)
        requires
            self.wf(),
        ensures
            r as int == first_index_in(
                self.spec_text(),
                effective_seps(sep@),
                first_index_not_in(self.spec_text(), effective_seps(sep@), self.spec_cursor()),
            ) - self.spec_cursor(),
            self.spec_cursor() + r <= self.spec_text().len(),
    {
        let seps = separator_vec(sep);
        let s = scan_first_not_in(&self.text, &seps, self.cursor_position);
        let e = scan_first_in(&self.text, &seps, s);
        e - self.cursor_position
    }

    /// The word between the last space before the cursor and the cursor;
    /// empty when a space sits just before the cursor.
    pub fn get_word_before_cursor(&self) -> (r: String)
        requires
            self.wf(),
        ensures
            r@ == self.spec_text().subrange(
                last_index_in(self.spec_text(), seq![' '], self.spec_cursor()) + 1,
                self.spec_cursor(),
            ),
    {
        let b = self.find_start_of_previous_word();
        chars_string(&self.text, b, self.cursor_position)
    }

    /// The word between the cursor and the next space; empty when a space
    /// sits just after the cursor.
    pub fn get_word_after_cursor(&self) -> (r: String)
        requires
            self.wf(),
        ensures
            r@ == self.spec_text().subrange(
                self.spec_cursor(),
                first_index_in(self.spec_text(), seq![' '], self.spec_cursor()),
            ),
    {
        let e = self.find_end_of_current_word();
        chars_string(&self.text, self.cursor_position, self.cursor_position + e)
    }

    /// The word before the cursor, together with any spaces between it and
    /// the cursor.
    pub fn get_word_before_cursor_with_space(&self) -> (r: String)
        requires
            self.wf(),
        ensures
            r@ == self.spec_text().subrange(
                last_index_in(
                    self.spec_text(),
                    seq![' '],
                    last_index_not_in(self.spec_text(), seq![' '], self.spec_cursor()),
                ) + 1,
                self.spec_cursor(),
            ),
    {
        let b = self.find_start_of_previous_word_with_space();
        chars_string(&self.text, b, self.cursor_position)
    }

    /// The word after the cursor, together with any spaces between the
    /// cursor and it.
    pub fn get_word_after_cursor_with_space(&self) -> (r: String)
        requires
            self.wf(),
        ensures
            r@ == self.spec_text().subrange(
                self.spec_cursor(),
                first_index_in(
                    self.spec_text(),
                    seq![' '],
                    first_index_not_in(self.spec_text(), seq![' '], self.spec_cursor()),
                ),
            ),
    {
        let e = self.find_end_of_current_word_with_space();
        chars_string(&self.text, self.cursor_position, self.cursor_position + e)
    }

    /// The text between the last separator before the cursor and the
    /// cursor; an empty `sep` means the plain space.
    pub fn get_word_before_cursor_until_separator(&self, sep: &str) -> (r: String)
        requires
            self.wf(),
        ensures
            r@ == self.spec_text().subrange(
                last_index_in(self.spec_text(), effective_seps(sep@), self.spec_cursor()) + 1,
                self.spec_cursor(),
            ),
    {
        let b = self.find_start_of_previous_word_until_separator(sep);
        chars_string(&self.text, b, self.cursor_position)
    }

    /// The text between the cursor and the next separator; an empty `sep`
    /// means the plain space.
    pub fn get_word_after_cursor_until_separator(&self, sep: &str) -> (r: String)
        requires
            self.wf(),
        ensures
            r@ == self.spec_text().subrange(
                self.spec_cursor(),
                first_index_in(self.spec_text(), effective_seps(sep@), self.spec_cursor()),
            ),
    {
        let e = self.find_end_of_current_word_until_separator(sep);
        chars_string(&self.text, self.cursor_position, self.cursor_position + e)
    }

    /// The word before the cursor, separators adjacent to the cursor
    /// included; an empty `sep` means the plain space.
    pub fn get_word_before_cursor_until_separator_ignore_next_to_cursor(
        &self,
        sep: &str,
    ) -> (r: String)
        requires
            self.wf(),
        ensures
            r@ == self.spec_text().subrange(
                last_index_in(
                    self.spec_text(),
                    effective_seps(sep@),
                    last_index_not_in(self.spec_text(), effective_seps(sep@), self.spec_cursor()),
                ) + 1,
                self.spec_cursor(),
            ),
    {
        let b = self.find_start_of_previous_word_until_separator_ignore_next_to_cursor(sep);
        chars_string(&self.text, b, self.cursor_position)
    }

    /// The word after the cursor, separators adjacent to the cursor
    /// included; an empty `sep` means the plain space.
    pub fn get_word_after_cursor_until_separator_ignore_next_to_cursor(
        &self,
        sep: &str,
    ) -> (r: String)
        requires
            self.wf(),
        ensures
            r@ == self.spec_text().subrange(
                self.spec_cursor(),
                first_index_in(
                    self.spec_text(),
                    effective_seps(sep@),
                    first_index_not_in(self.spec_text(), effective_seps(sep@), self.spec_cursor()),
                ),
            ),
    {
        let e = self.find_end_of_current_word_until_separator_ignore_next_to_cursor(sep);
        chars_string(&self.text, self.cursor_position, self.cursor_position + e)
    }

    /// The current line's text from its start up to the cursor.
    pub fn current_line_before_cursor(&self) -> (r: String)
        requires
            self.wf(),
        ensures
            r@ == self.spec_text().subrange(
                last_index_in(self.spec_text(), seq!['\n'], self.spec_cursor()) + 1,
                self.spec_cursor(),
            ),
    {
        let nl: Vec<char> = single_char_vec('\n');
        let s = scan_last_in(&self.text, &nl, self.cursor_position);
        chars_string(&self.text, s, self.cursor_position)
    }

    /// The current line's text from the cursor to its end.
    pub fn current_line_after_cursor(&self) -> (r: String)
        requires
            self.wf(),
        ensures
            r@ == self.spec_text().subrange(
                self.spec_cursor(),
                first_index_in(self.spec_text(), seq!['\n'], self.spec_cursor()),
            ),
    {
        let nl: Vec<char> = single_char_vec('\n');
        let e = scan_first_in(&self.text, &nl, self.cursor_position);
        chars_string(&self.text, self.cursor_position, e)
    }

    /// The whole line the cursor is on, without its line feed: the line
    /// that [`Self::lines`] holds at the cursor's row.
    pub fn current_line(&self) -> (r: String)
        requires
            self.wf(),
        ensures
            r@ == self.spec_text().subrange(
                last_index_in(self.spec_text(), seq!['\n'], self.spec_cursor()) + 1,
                first_index_in(self.spec_text(), seq!['\n'], self.spec_cursor()),
            ),
            r@ == spec_line(self.spec_text(), spec_row_of(self.spec_text(), self.spec_cursor())),
    {
        proof {
            lemma_line_bounds_at(self.spec_text(), self.spec_cursor());
        }
        let nl: Vec<char> = single_char_vec('\n');
        let s = scan_last_in(&self.text, &nl, self.cursor_position);
        let e = scan_first_in(&self.text, &nl, self.cursor_position);
        chars_string(&self.text, s, e)
    }

    /// The whitespace prefix of the current line.
    pub fn leading_whitespace_in_current_line(&self) -> (r: String)
        requires
            self.wf(),
        ensures
            ({
                let t = self.spec_text();
                let ls = last_index_in(t, seq!['\n'], self.spec_cursor()) + 1;
                let le = first_index_in(t, seq!['\n'], self.spec_cursor());
                r@ == t.subrange(ls, first_index_not_ws(t, ls, le))
            }),
    {
        let nl: Vec<char> = single_char_vec('\n');
        let s = scan_last_in(&self.text, &nl, self.cursor_position);
        let e = scan_first_in(&self.text, &nl, self.cursor_position);
        let i = scan_first_not_ws(&self.text, s, e);
        chars_string(&self.text, s, i)
    }

    /// All the lines of the buffer, in order, without their line feeds; a
    /// trailing line feed contributes a final empty line.
    pub fn lines(&self) -> (r: Vec<String>)
        requires
            self.wf(),
        ensures
            r@.len() == spec_line_count(self.spec_text()),
            forall|k: int| 0 <= k < r@.len() ==> r@[k]@ == spec_line(self.spec_text(), k),
    {
        let n = self.text.len();
        let mut out: Vec<String> = Vec::new();
        let mut line_start: usize = 0;
        let mut i: usize = 0;
        while i < n
            invariant
                i <= n == self.text@.len(),
                line_start <= i,
                ({
                    let s = line_starts_upto(self.text@, i as int);
                    &&& out@.len() + 1 == s.len()
                    &&& line_start as int == s.last()
                    &&& forall|k: int|
                        0 <= k < out@.len() ==> out@[k]@ == self.text@.subrange(
                            s[k],
                            s[k + 1] - 1,
                        )
                }),
            decreases n - i,
        {
            if self.text[i] == '\n' {
                out.push(chars_string(&self.text, line_start, i));
                line_start = i + 1;
            }
            i += 1;
        }
        out.push(chars_string(&self.text, line_start, n));
        proof {
            let t = self.text@;
            let s = line_starts(t);
            assert forall|k: int| 0 <= k < out@.len() implies out@[k]@ == spec_line(t, k) by {
                if k < out@.len() - 1 {
                    assert(out@[k]@ == t.subrange(s[k], s[k + 1] - 1));
                } else {
                    assert(out@[k]@ == t.subrange(s.last(), t.len() as int));
                }
            }
        }
        out
    }

    /// Number of lines; a buffer ending in a line feed counts the empty
    /// line after it.
    pub fn line_count(&self) -> (r: usize)
        requires
            self.wf(),
        ensures
            r as int == spec_line_count(self.spec_text()),
            r >= 1,
    {
        let n = self.text.len();
        let mut cnt: usize = 0;
        let mut i: usize = 0;
        while i < n
            invariant
                i <= n == self.text@.len(),
                cnt <= i,
                cnt as int + 1 == line_starts_upto(self.text@, i as int).len(),
            decreases n - i,
        {
            if self.text[i] == '\n' {
                cnt += 1;
            }
            i += 1;
        }
        cnt + 1
    }

    /// The line-start lookup table: the offset of the first character of
    /// each line, with a synthetic one-past-end entry when the buffer is a
    /// single line.
    pub fn line_start_indexes(&self) -> (r: Vec<usize>)
        requires
            self.wf(),
        ensures
            r@.len() == line_table(self.spec_text()).len(),
            forall|i: int| 0 <= i < r@.len() ==> r@[i] as int == line_table(self.spec_text())[i],
    {
        let n = self.text.len();
        let mut starts: Vec<usize> = Vec::new();
        starts.push(0);
        let mut i: usize = 0;
        while i < n
            invariant
                i <= n == self.text@.len() <= i32::MAX as int,
                starts@.len() == line_starts_upto(self.text@, i as int).len(),
                forall|k: int|
                    0 <= k < starts@.len() ==> starts@[k] as int == line_starts_upto(
                        self.text@,
                        i as int,
                    )[k],
            decreases n - i,
        {
            if self.text[i] == '\n' {
                starts.push(i + 1);
            }
            i += 1;
        }
        if starts.len() == 1 {
            starts.push(n + 1);
        }
        starts
    }

    /// The row containing `index` and the offset that row starts at: the
    /// rightmost table entry not beyond `index`.
    pub fn find_line_start_index(&self, index: usize) -> (r: (usize, usize))
        requires
            self.wf(),
        ensures
            ({
                let t = self.spec_text();
                let table = line_table(t);
                &&& r.0 as int == spec_row_of(t, index as int)
                &&& r.0 < table.len()
                &&& r.1 as int == table[r.0 as int]
                &&& r.1 <= index
                &&& (r.0 as int + 1 < table.len() ==> index < table[r.0 as int + 1])
            }),
    {
        let indexes = self.line_start_indexes();
        proof {
            lemma_line_table(self.spec_text());
            let table = line_table(self.spec_text());
            assert forall|i: int, j: int| 0 <= i <= j < indexes@.len() implies indexes@[i]
                <= indexes@[j] by {
                if i < j {
                    assert(table[i] < table[j]);
                }
            }
        }
        let pos = crate::bisect::right(indexes.as_slice(), index);
        proof {
            let t = self.spec_text();
            let table = line_table(t);
            assert forall|i: int| 0 <= i < pos implies table[i] <= index as int by {
                assert(indexes@[i] <= index);
            }
            assert forall|i: int| pos <= i < table.len() implies table[i] > index as int by {
                assert(indexes@[i] > index);
            }
            assert(indexes@[0] as int == table[0]);
            if pos == 0 {
                assert(indexes@[0] > index);
                assert(false);
            }
            lemma_partition_point_unique(table, index as int, pos as int);
        }
        (pos - 1, indexes[pos - 1])
    }

    /// Row of the cursor, 0-based.
    pub fn cursor_position_row(&self) -> (r: usize)
        requires
            self.wf(),
        ensures
            r as int == spec_row_of(self.spec_text(), self.spec_cursor()),
            (r as int) < spec_line_count(self.spec_text()),
    {
        proof {
            lemma_row_of_valid(self.spec_text(), self.spec_cursor());
        }
        self.find_line_start_index(self.cursor_position).0
    }

    /// Column of the cursor within its row, 0-based.
    pub fn cursor_position_col(&self) -> (r: usize)
        requires
            self.wf(),
        ensures
            r as int == spec_col_at(self.spec_text(), self.spec_cursor()),
            r as int <= line_len_of(self.spec_text(), spec_row_of(self.spec_text(), self.spec_cursor())),
    {
        proof {
            lemma_row_of_valid(self.spec_text(), self.spec_cursor());
        }
        let (_, start) = self.find_line_start_index(self.cursor_position);
        self.cursor_position - start
    }

    /// Relative offset for moving the cursor up to `count` characters left,
    /// stopping at the start of the current line; a negative `count` moves
    /// right instead.
    pub fn get_cursor_left_position(&self, count: i32) -> (r: i32)
        requires
            self.wf(),
            count > i32::MIN,
        ensures
            r as int == spec_cursor_left(self.spec_text(), self.spec_cursor(), count as int),
        decreases (if count < 0 { 1int } else { 0int }),
    {
        if count < 0 {
            return self.get_cursor_right_position(-count);
        }
        proof {
            lemma_row_of_valid(self.spec_text(), self.spec_cursor());
        }
        let col = self.cursor_position_col();
        if col > count as usize {
            -count
        } else {
            -(col as i32)
        }
    }

    /// Relative offset for moving the cursor up to `count` characters
    /// right, stopping at the end of the current line; a negative `count`
    /// moves left instead.
    pub fn get_cursor_right_position(&self, count: i32) -> (r: i32)
        requires
            self.wf(),
            count > i32::MIN,
        ensures
            r as int == spec_cursor_right(self.spec_text(), self.spec_cursor(), count as int),
        decreases (if count < 0 { 1int } else { 0int }),
    {
        if count < 0 {
            return self.get_cursor_left_position(-count);
        }
        let nl: Vec<char> = single_char_vec('\n');
        let e = scan_first_in(&self.text, &nl, self.cursor_position);
        let after_len = e - self.cursor_position;
        if after_len > count as usize {
            count
        } else {
            after_len as i32
        }
    }

    /// Relative offset for moving `count` rows up, into `preferred_column`
    /// (or the current column), clamped to the rows and columns that exist.
    pub fn get_cursor_up_position(&self, count: i32, preferred_column: Option<usize>) -> (r: i32)
        requires
            self.wf(),
        ensures
            r as int == spec_cursor_vertical(
                self.spec_text(),
                self.spec_cursor(),
                -(count as int),
                preferred_column,
            ),
    {
        let col = match preferred_column {
            Some(n) => n,
            None => self.cursor_position_col(),
        };
        let row = self.cursor_position_row();
        let lc = self.line_count();
        proof {
            lemma_line_starts_upto(self.spec_text(), self.spec_text().len() as int);
        }
        let target = row as i64 - count as i64;
        let clamped: usize = if target < 0 {
            0
        } else if target >= lc as i64 {
            lc - 1
        } else {
            target as usize
        };
        let idx = self.translate_row_col_to_index(clamped, col);
        idx as i32 - self.cursor_position as i32
    }

    /// Relative offset for moving `count` rows down, into
    /// `preferred_column` (or the current column), clamped to the rows and
    /// columns that exist.
    pub fn get_cursor_down_position(&self, count: i32, preferred_column: Option<usize>) -> (r: i32)
        requires
            self.wf(),
        ensures
            r as int == spec_cursor_vertical(
                self.spec_text(),
                self.spec_cursor(),
                count as int,
                preferred_column,
            ),
    {
        let col = match preferred_column {
            Some(n) => n,
            None => self.cursor_position_col(),
        };
        let row = self.cursor_position_row();
        let lc = self.line_count();
        proof {
            lemma_line_starts_upto(self.spec_text(), self.spec_text().len() as int);
        }
        let target = row as i64 + count as i64;
        let clamped: usize = if target < 0 {
            0
        } else if target >= lc as i64 {
            lc - 1
        } else {
            target as usize
        };
        let idx = self.translate_row_col_to_index(clamped, col);
        idx as i32 - self.cursor_position as i32
    }

    /// Offset of the position at `row` and `column`, both clamped to the
    /// rows and columns that exist.
    pub fn translate_row_col_to_index(&self, row: usize, column: usize) -> (r: usize)
        requires
            self.wf(),
        ensures
            r as int == spec_translate_row_col(self.spec_text(), row as int, column as int),
            r as int <= self.spec_text().len(),
    {
        proof {
            lemma_line_table(self.spec_text());
            lemma_line_starts_upto(self.spec_text(), self.spec_text().len() as int);
        }
        let table = self.line_start_indexes();
        let lc = self.line_count();
        let r = if row >= lc {
            lc - 1
        } else {
            row
        };
        let start = table[r];
        let end = if r == lc - 1 {
            self.text.len()
        } else {
            table[r + 1] - 1
        };
        let ll = end - start;
        let c = if column > ll {
            ll
        } else {
            column
        };
        start + c
    }

    /// The row and column of offset `index`.
    pub fn translate_index_to_position(&self, index: usize) -> (r: (usize, usize))
        requires
            self.wf(),
        ensures
            r.0 as int == spec_translate_index(self.spec_text(), index as int).0,
            r.1 as int == spec_translate_index(self.spec_text(), index as int).1,
    {
        let (row, row_start) = self.find_line_start_index(index);
        (row, index - row_start)
    }

    /// Whether the cursor sits on the last line.
    pub fn on_last_line(&self) -> (r: bool)
        requires
            self.wf(),
        ensures
            r == (spec_row_of(self.spec_text(), self.spec_cursor()) == spec_line_count(
                self.spec_text(),
            ) - 1),
    {
        let row = self.cursor_position_row();
        let lc = self.line_count();
        row == lc - 1
    }

    /// Characters between the cursor and the end of its line.
    pub fn get_end_of_line_position(&self) -> (r: usize)
        requires
            self.wf(),
        ensures
            r as int == spec_after_line_len(self.spec_text(), self.spec_cursor()),
    {
        let nl: Vec<char> = single_char_vec('\n');
        let e = scan_first_in(&self.text, &nl, self.cursor_position);
        e - self.cursor_position
    }
}

/// First index in `text[from..to]` holding a non-whitespace character, or
/// `to` when the whole range is whitespace.
fn scan_first_not_ws(text: &Vec<char>, from: usize, to: usize) -> (r: usize)
    requires
        from <= to <= text@.len(),
    ensures
        r as int == first_index_not_ws(text@, from as int, to as int),
        from <= r <= to,
{
    let mut i: usize = from;
    while i < to
        invariant
            from <= i <= to <= text@.len(),
            first_index_not_ws(text@, from as int, to as int) == first_index_not_ws(
                text@,
                i as int,
                to as int,
            ),
        decreases to - i,
    {
        if !is_whitespace_char(text[i]) {
            return i;
        }
        i += 1;
    }
    to
}

/// The characters of `sep`, or the single plain space when `sep` is empty.
fn separator_vec(sep: &str) -> (v: Vec<char>)
    ensures
        v@ == effective_seps(sep@),
{
    let v = str_chars(sep);
    if v.len() == 0 {
        let d: Vec<char> = single_char_vec(' ');
        d
    } else {
        v
    }
}

} // verus!
