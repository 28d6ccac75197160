use sevi::cursor::{Cursor, CursorMovement};
use sevi::file::{
    finish_open, language_for_extension, open_check, recovery_path, File, FileError, OpenedFile, UnopenedFile,
};
use sevi::rect::Rect;
use sevi::settings::Settings;
use sevi::style::Color;

fn unopened_with(text: &str) -> UnopenedFile {
    let settings = Settings::default();
    let mut f = UnopenedFile::new(&settings);
    f.insert_after(0, text);
    f
}

#[test]
fn unopened_file_has_no_name() {
    let f = unopened_with("x");
    assert_eq!(f.get_name(), "");
}

#[test]
fn display_shows_finished_lines() {
    let f = unopened_with("hello\nworld\nrest");
    let t = f.display();
    assert_eq!(t.lines.len(), 2);
    assert_eq!(t.lines[0].spans.len(), 1);
    assert_eq!(t.lines[0].spans[0].text, "hello");
    assert_eq!(t.lines[1].spans[0].text, "world");
}

#[test]
fn unopened_display_closes_a_highlight_after_it() {
    let mut f = unopened_with("hello\n");
    f.add_highlight(1, 2);
    let t = f.display();
    assert_eq!(t.lines.len(), 1);
    let spans = &t.lines[0].spans;
    assert_eq!(spans.len(), 2);
    assert_eq!(spans[0].text, "hel");
    assert_eq!(spans[0].style.bg, Some(Color::Magenta));
    assert_eq!(spans[1].text, "lo");
    assert_eq!(spans[1].style.bg, None);
}

#[test]
fn unopened_find_matches_at_the_column_offset() {
    let mut f = unopened_with("ab\nxab\n");
    assert_eq!(f.find_occurrences(0, 0, "ab", true), vec![(0, 0)]);
    assert_eq!(f.find_occurrences(0, 2, "ab", false), vec![(0, 0)]);
    assert_eq!(f.find_occurrences(0, 0, "zz", true), vec![]);
}

#[test]
fn select_row_highlights_the_row() {
    let mut f = unopened_with("ab\ncd\n");
    f.select_row(0);
    let t = f.display();
    let spans = &t.lines[0].spans;
    assert_eq!(spans[0].text, "ab");
    assert_eq!(spans[0].style.bg, Some(Color::Magenta));
}

#[test]
fn insert_before_goes_one_byte_back() {
    let mut f = unopened_with("abc");
    f.insert_before(2, "X");
    f.insert_before_current(0, "Y");
    f.insert_after_current(5, "\n");
    let d = f.display();
    assert_eq!(d.lines[0].spans[0].text, "YaXbc");
}

#[test]
fn opened_file_takes_its_name_and_language() {
    let settings = Settings::default();
    let f = OpenedFile::open("dir/main.rs".to_string(), "rs", "fn main() {}\n", &settings);
    assert_eq!(f.get_name(), "main.rs");
    assert_eq!(f.file_name(), Some("main.rs".to_string()));
    assert_eq!(f.get_path(), "dir/main.rs");
    assert_eq!(language_for_extension("rs"), Some("rust".to_string()));
    assert_eq!(language_for_extension("h"), Some("c".to_string()));
    assert_eq!(language_for_extension("txt"), None);
}

#[test]
fn opened_find_highlights_the_match() {
    let settings = Settings::default();
    let mut f = OpenedFile::open("a.txt".to_string(), "txt", "ab\nxab\n", &settings);
    assert_eq!(f.find_occurrences(0, 0, "ab", true), vec![(0, 0), (1, 1)]);
    let t = f.display();
    let spans = &t.lines[0].spans;
    assert_eq!(spans.len(), 3);
    assert_eq!(spans[0].text, "");
    assert_eq!(spans[1].text, "ab");
    assert_eq!(spans[1].style.bg, Some(Color::Magenta));
    assert_eq!(spans[2].text, "");
}

#[test]
fn saving_an_unopened_file_opens_it() {
    let settings = Settings::default();
    let mut f = File::unopened(&settings);
    assert!(f.has_saved());
    assert_eq!(f.get_path(), None);
    f.insert_after(0, "text");
    assert!(!f.has_saved());
    assert_eq!(f.contents(), "text");
    f.finish_save(Some("notes.txt".to_string()));
    assert!(f.has_saved());
    assert_eq!(f.get_path(), Some("notes.txt".to_string()));
    assert_eq!(f.get_name(), "notes.txt");
}

#[test]
fn file_rows_and_bytes() {
    let settings = Settings::default();
    let mut f = File::unopened(&settings);
    f.insert_after(0, "abc\nde\n");
    assert_eq!(f.get_line_count(), 2);
    assert_eq!(f.get_row_len(0), Some(3));
    assert_eq!(f.get_row_len(5), None);
    assert_eq!(f.get_byte(4), b'd');
    assert_eq!(f.get_byte_offset(1, 1), Some(7));
    f.add_highlight(0, 1);
    f.clear_highlights();
    assert_eq!(f.display().lines[0].spans.len(), 1);
}

fn file_with(text: &str) -> File {
    let settings = Settings::default();
    let mut f = File::unopened(&settings);
    f.insert_after(0, text);
    f
}

#[test]
fn cursor_moves_down_and_stops_at_the_last_row() {
    let f = file_with("abc\nde\n");
    let mut c = Cursor::new();
    c.move_cursor(CursorMovement::Down, 1, &f);
    assert_eq!(c.get_cursor(), (0, 1));
    c.move_cursor(CursorMovement::Down, 1, &f);
    assert_eq!(c.get_cursor(), (0, 1));
    c.move_cursor(CursorMovement::Up, 5, &f);
    assert_eq!(c.get_cursor(), (0, 0));
}

#[test]
fn cursor_moves_along_a_row() {
    let f = file_with("abc\nde\n");
    let mut c = Cursor::new();
    c.move_cursor(CursorMovement::Down, 1, &f);
    c.move_cursor(CursorMovement::Right, 5, &f);
    assert_eq!(c.get_cursor(), (2, 1));
    c.move_cursor(CursorMovement::Left, 1, &f);
    assert_eq!(c.get_cursor(), (1, 1));
    c.move_cursor(CursorMovement::LineEnd, 1, &f);
    assert_eq!(c.get_cursor(), (2, 1));
    c.move_cursor(CursorMovement::LineStart, 1, &f);
    assert_eq!(c.get_cursor(), (0, 1));
    c.move_cursor(CursorMovement::FileStart, 1, &f);
    assert_eq!(c.get_cursor(), (0, 0));
}

#[test]
fn cursor_file_end_is_the_second_to_last_row() {
    let f = file_with("abc\nde\n");
    let mut c = Cursor::new();
    c.move_cursor(CursorMovement::FileEnd, 1, &f);
    assert_eq!(c.get_cursor(), (3, 0));
}

#[test]
fn cursor_scrolls_to_keep_in_view() {
    let f = file_with("abcdefghijkl\n");
    let mut c = Cursor::new();
    c.move_cursor(CursorMovement::Right, 10, &f);
    assert_eq!(c.get_cursor(), (10, 0));
    c.scroll(Rect::new(0, 0, 5, 5));
    assert_eq!(c.get_scroll_amount(), (6, 0));
    assert_eq!(c.get_relative_cursor(), (4, 0));
    c.set_number_line_width(3);
    c.set_gutter_width(1);
    assert_eq!(c.get_relative_cursor(), (8, 0));
    c.set_cursor(7, 0);
    assert_eq!(c.get_cursor(), (7, 0));
}

#[test]
fn file_cursor_starts_at_zero() {
    let c = sevi::file_cursor::Cursor::new();
    assert_eq!(c.get_cursor(), (0, 0));
    assert_eq!(c.get_relative_cursor(), (0, 0));
}

#[test]
fn open_check_refuses_directories_and_missing_files() {
    assert!(matches!(open_check(true, false), Err(FileError::Directory)));
    assert!(matches!(open_check(true, true), Err(FileError::Directory)));
    assert!(matches!(open_check(false, false), Err(FileError::FileDoesNotExist)));
    assert!(open_check(false, true).is_ok());
}

#[test]
fn recovery_path_puts_two_number_signs_before_the_name() {
    assert_eq!(recovery_path(Some("/home/me"), "notes.md"), "/home/me##notes.md");
    assert_eq!(recovery_path(None, "notes.md"), "##notes.md");
}

#[test]
fn finish_open_hands_the_file_back_when_a_recovery_copy_exists() {
    let settings = Settings::default();
    let f = File::opened(OpenedFile::open("a.txt".to_string(), "txt", "x\n", &settings));
    match finish_open(f, true) {
        Err(FileError::RecoverFileFound(f)) => assert_eq!(f.contents(), "x\n"),
        _ => panic!("expected the recovery note"),
    }
    let f = File::opened(OpenedFile::open("a.txt".to_string(), "txt", "x\n", &settings));
    assert!(matches!(finish_open(f, false), Ok(_)));
}

#[test]
fn file_word_and_line_operations_reach_the_buffer() {
    let settings = Settings::default();
    let mut f = File::opened(OpenedFile::open("a.txt".to_string(), "txt", "say hello\nnext line\n", &settings));
    assert_eq!(f.get_char_at(4), Some('h'));
    assert_eq!(f.get_word(6), Some(" hello".to_string()));
    assert_eq!(f.get_line(1), Some("next line\n".to_string()));
    assert_eq!(f.get_line(2), None);
    assert_eq!(f.get_until_next_word(0), Some("say ".to_string()));
    f.delete_line(1);
    assert_eq!(f.contents(), "say hello\n");
    assert!(!f.has_saved());
    f.undo();
    assert_eq!(f.contents(), "say hello\nnext line\n");
    f.redo();
    assert_eq!(f.contents(), "say hello\n");
}
