use sevi::colors::NumberBarColor;
use sevi::editor_settings::NumberLineStyle;
use sevi::file::{File, OpenedFile};
use sevi::settings::Settings;
use sevi::style::{Color, Style};
use sevi::styled::{StyledLine, StyledSpan, StyledText};
use sevi::text_buffer::BufferText;
use sevi::text_pane::{Copied, Deleted, TextBuffer};

fn file_with(text: &str) -> File {
    let settings = Settings::default();
    File::opened(OpenedFile::open("a.txt".to_string(), "txt", text, &settings))
}

/// "ab cd ef\n" with "ab", "cd" and the lone "e" highlighted.
fn three_runs() -> File {
    let mut f = file_with("ab cd ef\n");
    f.add_highlight(0, 1);
    f.add_highlight(3, 4);
    f.add_highlight(6, 6);
    f
}

#[test]
fn highlighted_runs_are_copied_but_a_lone_last_byte() {
    let f = three_runs();
    assert_eq!(f.get_highlighted(), Some(vec!["ab".to_string(), "cd".to_string()]));
    assert_eq!(file_with("ab\n").get_highlighted(), None);
    assert_eq!(f.highlighted_bytes(), vec![0, 1, 3, 4, 6]);
}

#[test]
fn deleting_the_highlights_removes_every_run_and_gives_the_first_byte() {
    let mut f = three_runs();
    assert_eq!(f.delete_highlighted(), 0);
    assert_eq!(f.contents(), "  f\n");
}

#[test]
fn replacing_selections_puts_the_text_in_place_of_each_run() {
    let mut f = three_runs();
    f.replace_selections("X");
    assert_eq!(f.contents(), "X X ef\n");
    let mut f = three_runs();
    f.replace_selections_with(vec!["1".to_string(), "22".to_string()]);
    assert_eq!(f.contents(), "1 22 ef\n");
}

#[test]
fn inserting_pairs_wraps_each_run() {
    let mut f = three_runs();
    f.insert_pairs("(", ")");
    assert_eq!(f.contents(), "(ab) (cd) ef\n");
}

#[test]
fn deleting_a_word_at_the_start_of_the_text_deletes_from_byte_zero() {
    let mut f = file_with("abc def\n");
    assert_eq!(f.delete_word(1), 0);
    assert_eq!(f.contents(), " def\n");
}

#[test]
fn the_pane_copies_and_deletes_the_selection() {
    let mut p = TextBuffer::new(file_with("ab cd\n"));
    p.file.add_highlight(0, 1);
    assert!(matches!(p.copied_text("selection"), Copied::Text(t) if t == "ab"));
    p.file.add_highlight(3, 4);
    assert!(matches!(p.copied_text("selection"), Copied::Multi(v) if v == vec!["ab".to_string(), "cd".to_string()]));
    assert!(matches!(p.delete_text("selection"), Deleted::Done));
    assert_eq!(p.file.contents(), " \n");
    assert_eq!(p.get_cursor(), (0, 0));
    p.file.clear_highlights();
    assert!(matches!(p.copied_text("selection"), Copied::Nothing));
}

#[test]
fn search_matches_turn_into_bytes() {
    let mut p = TextBuffer::new(file_with("ab\ncd ab\nx\n"));
    let found = p.file.find(0, 0, "ab", true);
    assert_eq!(found, vec![(0, 0), (3, 1)]);
    assert_eq!(p.found_starts(&found), Some(vec![0, 6]));
}

fn lines(texts: &[&str]) -> StyledText {
    StyledText {
        lines: texts.iter().map(|t| StyledLine { spans: vec![StyledSpan::raw(t.to_string())] }).collect(),
    }
}

fn runs(t: &StyledText) -> Vec<Vec<(String, Style)>> {
    t.lines.iter().map(|l| l.spans.iter().map(|s| (s.text.clone(), s.style)).collect()).collect()
}

fn bar() -> NumberBarColor {
    NumberBarColor { current_line: Style::new().fg(Color::Red), other_lines: Style::new().fg(Color::Blue) }
}

#[test]
fn absolute_numbers_count_rows_from_one() {
    let b = bar();
    let out = BufferText::new().add_number_line_style(NumberLineStyle::Absolute).add_current_row(1).draw(lines(&["a", "b", "c"]), &b);
    let plain = Style::new();
    assert_eq!(
        runs(&out),
        vec![
            vec![("1".to_string(), b.other_lines), ("a".to_string(), plain)],
            vec![("2".to_string(), b.current_line), ("b".to_string(), plain)],
            vec![("3".to_string(), b.other_lines), ("c".to_string(), plain)],
        ]
    );
}

#[test]
fn relative_numbers_give_distances_from_the_cursor_row() {
    let b = bar();
    let out = BufferText::new().add_number_line_style(NumberLineStyle::Relative).add_current_row(1).draw(lines(&["a", "b", "c"]), &b);
    let plain = Style::new();
    assert_eq!(
        runs(&out),
        vec![
            vec![("   1".to_string(), b.other_lines), ("a".to_string(), plain)],
            vec![("2   ".to_string(), b.current_line), ("b".to_string(), plain)],
            vec![("   1".to_string(), b.other_lines), ("c".to_string(), plain)],
        ]
    );
}

#[test]
fn scrolled_columns_are_dropped() {
    let out = BufferText::new().set_scroll_cols(1).draw(lines(&["ab", ""]), &bar());
    let plain = Style::new();
    assert_eq!(runs(&out), vec![vec![("b".to_string(), plain)], vec![("".to_string(), plain)]]);
}

#[test]
fn deleting_is_allowed_where_the_ranges_fit() {
    let mut p = TextBuffer::new(file_with("ab cd\nxyz\n"));
    p.set_cursor_to_byte_position(4);
    assert!(p.delete_allowed("char"));
    assert!(p.delete_allowed("word"));
    assert!(p.delete_allowed("to_start_line"));
    assert!(p.delete_allowed("line"));
    assert!(!p.delete_allowed("selection"));
    p.file.add_highlight(0, 1);
    assert!(p.delete_allowed("selection"));
    // A character of two bytes: its second byte is no boundary.
    let mut q = TextBuffer::new(file_with("é\n"));
    q.set_cursor_to_byte_position(0);
    assert!(!q.delete_allowed("char"));
}
