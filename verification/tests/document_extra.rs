use crossterm::event::KeyCode;
use prompt_core::document::Document;

#[test]
fn test_new_document_is_empty() {
    let d = Document::new();
    assert_eq!(0, d.cursor_position());
    assert_eq!("", d.text());
    assert_eq!(None, d.last_key_stroke());
    assert_eq!(1, d.line_count());
}

#[test]
fn test_last_key_stroke_round_trip() {
    let mut d = Document::new();
    assert_eq!(None, d.last_key_stroke());
    d.set_last_key_stroke(Some(KeyCode::Enter));
    assert_eq!(Some(KeyCode::Enter), d.last_key_stroke());
    d.set_last_key_stroke(Some(KeyCode::Char('x')));
    assert_eq!(Some(KeyCode::Char('x')), d.last_key_stroke());
}

#[test]
fn test_lines_and_line_count() {
    let d = Document::with_text("line 1\nline 2\nline 3\nline 4\n", 0);
    assert_eq!(5, d.line_count());
    assert_eq!(
        vec!["line 1", "line 2", "line 3", "line 4", ""],
        d.lines()
    );
    let single = Document::with_text("just one", 0);
    assert_eq!(1, single.line_count());
    assert_eq!(vec!["just one"], single.lines());
}

#[test]
fn test_line_start_indexes() {
    let d = Document::with_text("ab\ncd\nef", 0);
    assert_eq!(vec![0, 3, 6], d.line_start_indexes());
    // a single line keeps the synthetic one-past-end entry
    let single = Document::with_text("abc", 0);
    assert_eq!(vec![0, 4], single.line_start_indexes());
}

#[test]
fn test_find_line_start_index_at_exact_line_starts() {
    let d = Document::with_text("ab\ncd\nef", 0);
    // probing exactly at a line start must land on that line, not the one before
    assert_eq!((0, 0), d.find_line_start_index(0));
    assert_eq!((0, 0), d.find_line_start_index(2));
    assert_eq!((1, 3), d.find_line_start_index(3));
    assert_eq!((1, 3), d.find_line_start_index(5));
    assert_eq!((2, 6), d.find_line_start_index(6));
    assert_eq!((2, 6), d.find_line_start_index(8));
}

#[test]
fn test_translate_round_trip_non_ascii() {
    let d = Document::with_text("あいう\nかきくけ\nさ", 0);
    for row in 0..3 {
        let line_len = [3, 4, 1][row];
        for col in 0..=line_len {
            let idx = d.translate_row_col_to_index(row, col);
            assert_eq!((row, col), d.translate_index_to_position(idx));
        }
    }
}

#[test]
fn test_translate_row_col_clamps() {
    let d = Document::with_text("ab\ncd", 0);
    // column beyond the line clamps to its end, row beyond the text to the last row
    assert_eq!(2, d.translate_row_col_to_index(0, 99));
    assert_eq!(5, d.translate_row_col_to_index(99, 99));
}

#[test]
fn test_leading_whitespace_in_current_line() {
    let d = Document::with_text("  indented", "  ind".len());
    assert_eq!("  ", d.leading_whitespace_in_current_line());
    let d = Document::with_text("none", 2);
    assert_eq!("", d.leading_whitespace_in_current_line());
    let d = Document::with_text("first\n\tsecond", "first\n\tsec".len());
    assert_eq!("\t", d.leading_whitespace_in_current_line());
}

#[test]
fn test_display_cursor_position_zero_width() {
    // the combining acute accent occupies no column of its own
    let d = Document::with_text("e\u{0301}x", 2);
    assert_eq!(1, d.display_cursor_position());
}

#[test]
fn test_get_char_relative_to_cursor_out_of_range() {
    let d = Document::with_text("abc", 1);
    assert_eq!(Some('b'), d.get_char_relative_to_cursor(1));
    assert_eq!(Some('a'), d.get_char_relative_to_cursor(0));
    assert_eq!(None, d.get_char_relative_to_cursor(-1));
    assert_eq!(Some('c'), d.get_char_relative_to_cursor(2));
    assert_eq!(None, d.get_char_relative_to_cursor(3));
}

#[test]
fn test_get_word_before_cursor() {
    assert_eq!(
        "bana",
        Document::with_text("apple bana", "apple bana".len()).get_word_before_cursor()
    );
    assert_eq!(
        "bana ",
        Document::with_text("apple bana ", "apple bana ".len())
            .get_word_before_cursor_with_space()
    );
    assert_eq!(
        "foo.json",
        Document::with_text("apply -f ./file/foo.json", "apply -f ./file/foo.json".len())
            .get_word_before_cursor_until_separator(" /")
    );
    assert_eq!(
        "foo/",
        Document::with_text("apply -f /file/foo/", "apply -f /file/foo/".len())
            .get_word_before_cursor_until_separator_ignore_next_to_cursor(" /")
    );
    assert_eq!(
        "かきくけこ",
        Document::with_text("あいうえお かきくけこ", 11)
            .get_word_before_cursor_until_separator_ignore_next_to_cursor("")
    );
}

#[test]
fn test_get_word_after_cursor_with_space() {
    assert_eq!(
        " bana",
        Document::with_text("apple bana", "apple".len()).get_word_after_cursor_with_space()
    );
}
