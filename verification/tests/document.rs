use prompt_core::bisect::right;
use prompt_core::document::Document;

#[test]
fn test_bisect_right() {
    let input: Vec<usize> = vec![1, 2, 3, 3, 3, 6, 7];

    let r = right(&input, 0);
    assert_eq!(0, r, "number 0 should inserted at 0 position, but got {}", r);
    let r = right(&input, 4);
    assert_eq!(5, r, "number 4 should inserted at 5 position, but got {}", r);
    let r = right(&input, 8);
    assert_eq!(7, r, "number 8 should inserted at 7 position, but got {}", r);
}

#[test]
fn extra_scenario() {
    let input: Vec<usize> = vec![0, 1];
    let r = right(&input, 0);
    assert_eq!(1, r, "number 0 should inserted at 1 position, but got {}", r);
}

#[test]
fn test_display_cursor_position() {
    assert_eq!(2, Document::with_text("hello", 2).display_cursor_position());
    assert_eq!(4, Document::with_text("こんにちは", 2).display_cursor_position());
    assert_eq!(3, Document::with_text("Добрый день", 3).display_cursor_position());
}

#[test]
fn test_get_char_relative_to_cursor() {
    assert_eq!(
        Some('e'),
        Document::with_text(
            "line 1\nline 2\nline 3\nline 4\n",
            "line 1\nlin".chars().count()
        )
        .get_char_relative_to_cursor(1)
    );
    assert_eq!(
        Some('く'),
        Document::with_text("あいうえお\nかきくけこ\nさしすせそ\nたちつてと\n", 8)
            .get_char_relative_to_cursor(1)
    );
    assert_eq!(
        Some('н'),
        Document::with_text("Добрый\nдень\nДобрый день", 9).get_char_relative_to_cursor(1)
    );
}

#[test]
fn test_text_before_cursor() {
    assert_eq!(
        "line 1\nlin",
        Document::with_text(
            "line 1\nline 2\nline 3\nline 4\n",
            "line 1\nlin".chars().count()
        )
        .text_before_cursor()
    );
    assert_eq!(
        "あいうえお\nかき",
        Document::with_text("あいうえお\nかきくけこ\nさしすせそ\nたちつてと\n", 8)
            .text_before_cursor()
    );
    assert_eq!(
        "Добрый\nде",
        Document::with_text("Добрый\nдень\nДобрый день", 9).text_before_cursor()
    );
}

#[test]
fn test_text_after_cursor() {
    assert_eq!(
        "e 2\nline 3\nline 4\n",
        Document::with_text(
            "line 1\nline 2\nline 3\nline 4\n",
            "line 1\nlin".chars().count()
        )
        .text_after_cursor()
    );
    assert_eq!(
        "くけこ\nさしすせそ\nたちつてと\n",
        Document::with_text("あいうえお\nかきくけこ\nさしすせそ\nたちつてと\n", 8)
            .text_after_cursor()
    );
    assert_eq!(
        "нь\nДобрый день",
        Document::with_text("Добрый\nдень\nДобрый день", 9).text_after_cursor()
    );
}

#[test]
fn test_find_start_of_previous_word() {
    assert_eq!(
        "apple ".len(),
        Document::with_text("apple bana", "apple bana".len()).find_start_of_previous_word()
    );
    assert_eq!(
        "apple ".len(),
        Document::with_text("apple bana", "apple bana".len())
            .find_start_of_previous_word_until_separator("")
    );

    assert_eq!(
        "apply -f ./file/".len(),
        Document::with_text("apply -f ./file/foo.json", "apply -f ./file/foo.json".len())
            .find_start_of_previous_word_until_separator(" /")
    );

    assert_eq!(
        "apple ".len(),
        Document::with_text("apple ", "apple ".len()).find_start_of_previous_word()
    );
    assert_eq!(
        "apple ".len(),
        Document::with_text("apple ", "apple ".len())
            .find_start_of_previous_word_until_separator("")
    );

    assert_eq!(
        "apply -f ./".len(),
        Document::with_text("apply -f ./file/foo.json", "apply -f ./".len())
            .find_start_of_previous_word_until_separator(" /")
    );

    // offsets count characters, not bytes
    assert_eq!(
        "あいうえお ".chars().count(),
        Document::with_text("あいうえお かきくけこ さしすせそ", 8).find_start_of_previous_word()
    );
    assert_eq!(
        "あいうえお ".chars().count(),
        Document::with_text("あいうえお かきくけこ さしすせそ", 8)
            .find_start_of_previous_word_until_separator("")
    );

    assert_eq!(
        "Добрый ".chars().count(),
        Document::with_text("Добрый день Добрый день", 9).find_start_of_previous_word()
    );
    assert_eq!(
        "Добрый ".chars().count(),
        Document::with_text("Добрый день Добрый день", 9)
            .find_start_of_previous_word_until_separator("")
    );
}

#[test]
fn test_find_start_of_previous_word_with_space() {
    assert_eq!(
        "apple ".len(),
        Document::with_text("apple bana ", "apple bana ".len())
            .find_start_of_previous_word_with_space()
    );
    assert_eq!(
        "apple ".len(),
        Document::with_text("apple bana ", "apple bana ".len())
            .find_start_of_previous_word_until_separator_ignore_next_to_cursor("")
    );

    assert_eq!(
        "apply -f /file/".len(),
        Document::with_text("apply -f /file/foo/", "apply -f /file/foo/".len())
            .find_start_of_previous_word_until_separator_ignore_next_to_cursor(" /")
    );

    assert_eq!(
        "".len(),
        Document::with_text("apple ", "apple ".len()).find_start_of_previous_word_with_space()
    );
    assert_eq!(
        "".len(),
        Document::with_text("apple ", "apple ".len())
            .find_start_of_previous_word_until_separator_ignore_next_to_cursor("")
    );

    assert_eq!(
        "".len(),
        Document::with_text("file/", "file/".len())
            .find_start_of_previous_word_until_separator_ignore_next_to_cursor(" /")
    );

    assert_eq!(
        "あいうえお ".chars().count(),
        Document::with_text("あいうえお かきくけこ ", 12).find_start_of_previous_word_with_space()
    );
    assert_eq!(
        "あいうえお ".chars().count(),
        Document::with_text("あいうえお かきくけこ ", 12)
            .find_start_of_previous_word_until_separator_ignore_next_to_cursor("")
    );

    assert_eq!(
        "Добрый ".chars().count(),
        Document::with_text("Добрый день ", 12).find_start_of_previous_word_with_space()
    );
    assert_eq!(
        "Добрый ".chars().count(),
        Document::with_text("Добрый день ", 12)
            .find_start_of_previous_word_until_separator_ignore_next_to_cursor("")
    );
}

#[test]
fn test_find_end_of_current_word() {
    assert_eq!(
        "".len(),
        Document::with_text("apple bana", "apple bana".len()).find_end_of_current_word()
    );
    assert_eq!(
        "".len(),
        Document::with_text("apple bana", "apple bana".len())
            .find_end_of_current_word_until_separator("")
    );

    assert_eq!(
        "bana".len(),
        Document::with_text("apple bana", "apple ".len()).find_end_of_current_word()
    );
    assert_eq!(
        "bana".len(),
        Document::with_text("apple bana", "apple ".len())
            .find_end_of_current_word_until_separator("")
    );

    assert_eq!(
        "file".len(),
        Document::with_text("apply -f ./file/foo.json", "apply -f ./".len())
            .find_end_of_current_word_until_separator(" /")
    );

    assert_eq!(
        "".len(),
        Document::with_text("apple bana", "apple".len()).find_end_of_current_word()
    );
    assert_eq!(
        "".len(),
        Document::with_text("apple bana", "apple".len())
            .find_end_of_current_word_until_separator("")
    );

    assert_eq!(
        "".len(),
        Document::with_text("apply -f ./file/foo.json", "apply -f .".len())
            .find_end_of_current_word_until_separator(" /")
    );

    assert_eq!(
        "ple".len(),
        Document::with_text("apple bana", "ap".len()).find_end_of_current_word()
    );
    assert_eq!(
        "ple".len(),
        Document::with_text("apple bana", "ap".len()).find_end_of_current_word_until_separator("")
    );

    // りん(cursor)ご ばなな
    assert_eq!(
        "ご".chars().count(),
        Document::with_text("りんご ばなな", 2).find_end_of_current_word()
    );
    assert_eq!(
        "ご".chars().count(),
        Document::with_text("りんご ばなな", 2).find_end_of_current_word_until_separator("")
    );

    assert_eq!(
        0,
        Document::with_text("りんご ばなな", 3).find_end_of_current_word()
    );
    assert_eq!(
        0,
        Document::with_text("りんご ばなな", 3).find_end_of_current_word_until_separator("")
    );

    // Доб(cursor)рый день
    assert_eq!(
        "рый".chars().count(),
        Document::with_text("Добрый день", 3).find_end_of_current_word()
    );
    assert_eq!(
        "рый".chars().count(),
        Document::with_text("Добрый день", 3).find_end_of_current_word_until_separator("")
    );
}

#[test]
fn test_find_end_of_current_word_with_space() {
    assert_eq!(
        "".len(),
        Document::with_text("apple bana", "apple bana".len())
            .find_end_of_current_word_with_space()
    );
    assert_eq!(
        "".len(),
        Document::with_text("apple bana", "apple bana".len())
            .find_end_of_current_word_until_separator_ignore_next_to_cursor("")
    );

    assert_eq!(
        "bana".len(),
        Document::with_text("apple bana", "apple ".len()).find_end_of_current_word_with_space()
    );
    assert_eq!(
        "bana".len(),
        Document::with_text("apple bana", "apple ".len())
            .find_end_of_current_word_until_separator_ignore_next_to_cursor("")
    );

    assert_eq!(
        "file".len(),
        Document::with_text("apply -f /file/foo.json", "apply -f /".len())
            .find_end_of_current_word_until_separator_ignore_next_to_cursor(" /")
    );

    assert_eq!(
        " bana".len(),
        Document::with_text("apple bana", "apple".len()).find_end_of_current_word_with_space()
    );
    assert_eq!(
        " bana".len(),
        Document::with_text("apple bana", "apple".len())
            .find_end_of_current_word_until_separator_ignore_next_to_cursor("")
    );

    assert_eq!(
        "/to".len(),
        Document::with_text("apply -f /path/to", "apply -f /path".len())
            .find_end_of_current_word_until_separator_ignore_next_to_cursor(" /")
    );

    assert_eq!(
        "ple".len(),
        Document::with_text("apple bana", "ap".len()).find_end_of_current_word_with_space()
    );
    assert_eq!(
        "ple".len(),
        Document::with_text("apple bana", "ap".len())
            .find_end_of_current_word_until_separator_ignore_next_to_cursor("")
    );

    assert_eq!(
        "かきくけこ".chars().count(),
        Document::with_text("あいうえお かきくけこ", 6).find_end_of_current_word_with_space()
    );
    assert_eq!(
        "かきくけこ".chars().count(),
        Document::with_text("あいうえお かきくけこ", 6)
            .find_end_of_current_word_until_separator_ignore_next_to_cursor("")
    );

    assert_eq!(
        " かきくけこ".chars().count(),
        Document::with_text("あいうえお かきくけこ", 5).find_end_of_current_word_with_space()
    );
    assert_eq!(
        " かきくけこ".chars().count(),
        Document::with_text("あいうえお かきくけこ", 5)
            .find_end_of_current_word_until_separator_ignore_next_to_cursor("")
    );

    assert_eq!(
        " день".chars().count(),
        Document::with_text("Добрый день", 6).find_end_of_current_word_with_space()
    );
    assert_eq!(
        " день".chars().count(),
        Document::with_text("Добрый день", 6)
            .find_end_of_current_word_until_separator_ignore_next_to_cursor("")
    );
}

#[test]
fn test_get_word_after_cursor() {
    assert_eq!(
        "",
        Document::with_text("apple bana", "apple bana".len()).get_word_after_cursor()
    );
    assert_eq!(
        "",
        Document::with_text("apple bana", "apple bana".len())
            .get_word_after_cursor_until_separator("")
    );

    assert_eq!(
        "le",
        Document::with_text("apply -f ./file/foo.json", "apply -f ./fi".len())
            .get_word_after_cursor_until_separator("/")
    );

    assert_eq!(
        "bana",
        Document::with_text("apple bana", "apple ".len()).get_word_after_cursor()
    );
    assert_eq!(
        "bana",
        Document::with_text("apple bana", "apple ".len()).get_word_after_cursor_until_separator("")
    );

    assert_eq!(
        "",
        Document::with_text("apple bana", "apple".len()).get_word_after_cursor()
    );
    assert_eq!(
        "",
        Document::with_text("apple bana", "apple".len()).get_word_after_cursor_until_separator("")
    );

    assert_eq!(
        "",
        Document::with_text("apply -f ./file/foo.json", "apply -f .".len())
            .get_word_after_cursor_until_separator(" /")
    );

    assert_eq!(
        "ple",
        Document::with_text("apple bana", "ap".len()).get_word_after_cursor()
    );
    assert_eq!(
        "ple",
        Document::with_text("apple bana", "ap".len()).get_word_after_cursor_until_separator("")
    );

    assert_eq!(
        "くけこ",
        Document::with_text("あいうえお かきくけこ さしすせそ", 8).get_word_after_cursor()
    );
    assert_eq!(
        "くけこ",
        Document::with_text("あいうえお かきくけこ さしすせそ", 8)
            .get_word_after_cursor_until_separator("")
    );

    assert_eq!(
        "нь",
        Document::with_text("Добрый день Добрый день", 9).get_word_after_cursor()
    );
    assert_eq!(
        "нь",
        Document::with_text("Добрый день Добрый день", 9)
            .get_word_after_cursor_until_separator("")
    );
}

#[test]
fn test_current_line_before_cursor() {
    assert_eq!(
        "lin",
        Document::with_text("line 1\nline 2\nline 3\nline 4\n", "line 1\nlin".len())
            .current_line_before_cursor()
    );
}

#[test]
fn test_current_line_after_cursor() {
    assert_eq!(
        "e 2",
        Document::with_text("line 1\nline 2\nline 3\nline 4\n", "line 1\nlin".len())
            .current_line_after_cursor()
    );
}

#[test]
fn test_current_line() {
    assert_eq!(
        "line 2",
        Document::with_text("line 1\nline 2\nline 3\nline 4\n", "line 1\nlin".len())
            .current_line()
    );
}

#[test]
fn test_cursor_position_row_and_col() {
    assert_eq!(
        1,
        Document::with_text("line 1\nline 2\nline 3\n", "line 1\nlin".len())
            .cursor_position_row()
    );
    assert_eq!(
        3,
        Document::with_text("line 1\nline 2\nline 3\n", "line 1\nlin".len())
            .cursor_position_col()
    );

    assert_eq!(0, Document::with_text("", 0).cursor_position_row());
    assert_eq!(0, Document::with_text("", 0).cursor_position_col());
}

#[test]
fn test_get_cursor_left_position() {
    let d = Document::with_text("line 1\nline 2\nline 3\nline 4\n", "line 1\nline 2\nlin".len());
    assert_eq!(-2, d.get_cursor_left_position(2));
    assert_eq!(-3, d.get_cursor_left_position(10));
}

#[test]
fn test_get_cursor_right_position() {
    let d = Document::with_text("line 1\nline 2\nline 3\nline 4\n", "line 1\nline 2\nlin".len());
    assert_eq!(2, d.get_cursor_right_position(2));
    assert_eq!(3, d.get_cursor_right_position(10));
}

#[test]
fn test_get_cursor_up_position() {
    let d = Document::with_text("line 1\nline 2\nline 3\nline 4\n", "line 1\nline 2\nlin".len());
    assert_eq!(
        "lin".len() as i32 - "line 1\nline 2\nlin".len() as i32,
        d.get_cursor_up_position(2, None)
    );
    assert_eq!(
        "lin".len() as i32 - "line 1\nline 2\nlin".len() as i32,
        d.get_cursor_up_position(100, None)
    );
}

#[test]
fn test_get_cursor_down_position() {
    let d = Document::with_text("line 1\nline 2\nline 3\nline 4\n", "lin".len());
    assert_eq!(
        "line 1\nline 2\nlin".len() as i32 - "lin".len() as i32,
        d.get_cursor_down_position(2, None)
    );
    assert_eq!(
        "line 1\nline 2\nline 3\nline 4\n".len() as i32 - "lin".len() as i32,
        d.get_cursor_down_position(100, None)
    );
}

#[test]
fn test_translate_row_col_to_index() {
    let d = Document::with_text("line 1\nline 2\nline 3\nline 4\n", "line 1\nlin".len());
    assert_eq!(
        "line 1\nline 2\nlin".len(),
        d.translate_row_col_to_index(2, 3)
    );
    assert_eq!(0, d.translate_row_col_to_index(0, 0));
}

#[test]
fn test_translate_index_to_position() {
    let d = Document::with_text("line 1\nline 2\nline 3\nline 4\n", "line 1\nlin".len());
    assert_eq!(
        (2, 3),
        d.translate_index_to_position("line 1\nline 2\nlin".len())
    );
    assert_eq!((0, 0), d.translate_index_to_position(0));
}

#[test]
fn test_on_last_line() {
    let d = Document::with_text("line 1\nline 2\nline 3", "line 1\nline".len());
    assert!(!d.on_last_line());
    let d = Document::with_text("line 1\nline 2\nline 3", "line 1\nline 2\nline".len());
    assert!(d.on_last_line());
}

#[test]
fn test_get_end_of_line_position() {
    let d = Document::with_text("line 1\nline 2\nline 3", "line 1\nli".len());
    assert_eq!("ne 2".len(), d.get_end_of_line_position());
}
