use sevi::file::{File, OpenedFile};
use sevi::settings::Settings;
use sevi::text_pane::{Copied, Deleted, TextBuffer};

fn pane_with(text: &str) -> TextBuffer {
    let settings = Settings::default();
    TextBuffer::new(File::opened(OpenedFile::open("a.txt".to_string(), "txt", text, &settings)))
}

#[test]
fn insert_char_puts_the_character_at_the_cursor_and_moves_right() {
    let mut p = pane_with("ab\ncd\n");
    assert_eq!(p.get_current_byte_position(), 0);
    p.insert_char(0, 'x');
    assert_eq!(p.file.contents(), "xab\ncd\n");
    assert_eq!(p.get_cursor(), (1, 0));
    assert!(!p.can_close());
}

#[test]
fn newline_splits_the_row_and_goes_to_the_start_of_the_next() {
    let mut p = pane_with("xab\ncd\n");
    p.cursor.set_cursor(1, 0);
    p.newline();
    assert_eq!(p.file.contents(), "x\nab\ncd\n");
    assert_eq!(p.get_cursor(), (0, 1));
}

#[test]
fn backspace_after_a_line_feed_joins_the_rows() {
    let mut p = pane_with("x\nab\ncd\n");
    p.cursor.set_cursor(0, 1);
    p.backspace();
    assert_eq!(p.file.contents(), "xab\ncd\n");
    assert_eq!(p.get_cursor(), (1, 0));
}

#[test]
fn backspace_inside_a_row_deletes_the_byte_before_the_cursor() {
    let mut p = pane_with("abc\nd\n");
    p.cursor.set_cursor(2, 0);
    p.backspace();
    assert_eq!(p.file.contents(), "ac\nd\n");
    assert_eq!(p.get_cursor(), (1, 0));
}

#[test]
fn delete_removes_the_byte_at_the_cursor() {
    let mut p = pane_with("xab\ncd\n");
    p.cursor.set_cursor(1, 0);
    p.delete();
    assert_eq!(p.file.contents(), "xb\ncd\n");
    assert_eq!(p.get_cursor(), (1, 0));
}

#[test]
fn tab_puts_spaces_or_a_tab_character() {
    let mut p = pane_with("xb\ncd\n");
    p.cursor.set_cursor(1, 0);
    p.tab(4, true);
    assert_eq!(p.file.contents(), "x    b\ncd\n");
    assert_eq!(p.get_cursor(), (5, 0));
    let mut p = pane_with("xb\ncd\n");
    p.cursor.set_cursor(1, 0);
    p.tab(4, false);
    assert_eq!(p.file.contents(), "x\tb\ncd\n");
    assert_eq!(p.get_cursor(), (2, 0));
}

#[test]
fn set_cursor_to_byte_position_finds_the_row_and_column() {
    let mut p = pane_with("xab\ncd\n");
    p.set_cursor_to_byte_position(5);
    assert_eq!(p.get_cursor(), (1, 1));
    assert_eq!(p.get_byte_at(5), b'd');
}

#[test]
fn change_file_hands_back_the_file_shown_before() {
    let mut p = pane_with("one\n");
    let settings = Settings::default();
    let old = p.change_file(File::opened(OpenedFile::open("b.txt".to_string(), "txt", "two\n", &settings)));
    assert_eq!(old.contents(), "one\n");
    assert_eq!(p.file.contents(), "two\n");
    assert!(p.can_close());
}

#[test]
fn insert_str_before_puts_text_two_bytes_back() {
    let mut p = pane_with("abcd\n");
    p.insert_str_before(3, "X");
    assert_eq!(p.file.contents(), "aXbcd\n");
    p.insert_str_after(0, "Y");
    assert_eq!(p.file.contents(), "YaXbcd\n");
    assert_eq!(p.get_cursor(), (0, 0));
}

fn copied(p: &TextBuffer, verb: &str) -> Option<String> {
    match p.copied_text(verb) {
        Copied::Text(t) => Some(t),
        _ => None,
    }
}

#[test]
fn copy_verbs_take_text_around_the_cursor() {
    let mut p = pane_with("ab cd\nxyz\n");
    p.set_cursor_to_byte_position(4);
    assert_eq!(p.get_cursor(), (4, 0));
    assert_eq!(copied(&p, "char"), Some("d".to_string()));
    assert_eq!(copied(&p, "line"), Some("ab cd\n".to_string()));
    // The word is taken from the character before it on, as the buffer finds it.
    assert_eq!(copied(&p, "word"), Some(" cd".to_string()));
    assert_eq!(copied(&p, "to_end_line"), Some("cd\n".to_string()));
    assert_eq!(copied(&p, "to_start_line"), Some("ab c".to_string()));
    assert!(matches!(p.copied_text("selection"), Copied::Nothing));
    assert!(matches!(p.copied_text("nonsense"), Copied::Invalid));
}

#[test]
fn copying_a_word_off_a_word_finds_none() {
    let mut p = pane_with("ab cd\n");
    p.set_cursor_to_byte_position(2);
    assert!(matches!(p.copied_text("word"), Copied::NoWord));
}

#[test]
fn copying_to_the_end_of_the_line_in_the_first_column_is_refused() {
    let p = pane_with("ab\n");
    assert!(matches!(p.copied_text("to_end_line"), Copied::Invalid));
    assert_eq!(copied(&p, "to_start_line"), Some(String::new()));
}

#[test]
fn delete_verbs_take_text_around_the_cursor_away() {
    let mut p = pane_with("ab cd\nxyz\n");
    p.set_cursor_to_byte_position(4);
    assert!(matches!(p.delete_text("char"), Deleted::Done));
    assert_eq!(p.file.contents(), "ab c\nxyz\n");
    assert_eq!(p.get_cursor(), (4, 0));

    let mut p = pane_with("ab cd\nxyz\n");
    p.set_cursor_to_byte_position(4);
    assert!(matches!(p.delete_text("to_start_line"), Deleted::Done));
    assert_eq!(p.file.contents(), "d\nxyz\n");
    assert_eq!(p.get_cursor(), (0, 0));

    let mut p = pane_with("ab cd\nxyz\n");
    p.set_cursor_to_byte_position(7);
    assert!(matches!(p.delete_text("line"), Deleted::Done));
    assert_eq!(p.file.contents(), "ab cd\n");
    assert_eq!(p.get_cursor().0, 0);
}

#[test]
fn deleting_with_an_unknown_verb_changes_nothing() {
    let mut p = pane_with("ab\n");
    assert!(matches!(p.delete_text("everything"), Deleted::Unknown));
    assert_eq!(p.file.contents(), "ab\n");
}
