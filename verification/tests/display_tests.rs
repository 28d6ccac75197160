use sevi::colors::EditorColors;
use sevi::display::display_text;
use sevi::editor_settings::EditorSettings;
use sevi::style::{Color, Style};
use sevi::styled::StyledText;

fn runs(t: &StyledText) -> Vec<Vec<(String, Style)>> {
    t.lines
        .iter()
        .map(|l| l.spans.iter().map(|s| (s.text.clone(), s.style)).collect())
        .collect()
}

fn run(text: &str, style: Style) -> (String, Style) {
    (text.to_string(), style)
}

#[test]
fn plain_text_is_drawn_line_by_line() {
    let out = display_text("ab\ncd", 0, 0, &vec![], &vec![], &EditorSettings::default(), &EditorColors::default());
    let plain = Style::new();
    assert_eq!(runs(&out), vec![vec![run("ab", plain), run(" ", plain)], vec![run("cd", plain)]]);
}

#[test]
fn tabs_and_carriage_returns_are_drawn_as_spaces() {
    let out = display_text("\tb\r", 0, 0, &vec![], &vec![], &EditorSettings::default(), &EditorColors::default());
    assert_eq!(runs(&out), vec![vec![run("    b ", Style::new())]]);
}

#[test]
fn selected_bytes_take_the_selection_style() {
    let colors = EditorColors::default();
    let out = display_text("ab", 0, 0, &vec![0], &vec![], &EditorSettings::default(), &colors);
    let plain = Style::new();
    assert_eq!(runs(&out), vec![vec![run("", plain), run("a", colors.selected), run("b", plain)]]);
    // The offset places the text in the file: byte 1 of the file is the text's first byte.
    let out = display_text("ab", 1, 0, &vec![1], &vec![], &EditorSettings::default(), &colors);
    assert_eq!(runs(&out), vec![vec![run("", plain), run("a", colors.selected), run("b", plain)]]);
}

#[test]
fn delimiters_take_rainbow_styles_by_depth() {
    let colors = EditorColors::default();
    let mut editor = EditorSettings::default();
    editor.rainbow_delimiters = true;
    let out = display_text("([a])b", 0, 0, &vec![], &vec![], &editor, &colors);
    let plain = Style::new();
    let outer = colors.rainbow_delimiters[0];
    let inner = colors.rainbow_delimiters[1];
    assert_eq!(
        runs(&out),
        vec![vec![
            run("", plain),
            run("(", outer),
            run("", plain),
            run("[", inner),
            run("a", plain),
            run("]", inner),
            run("", plain),
            run(")", outer),
            run("b", plain),
        ]]
    );
}

#[test]
fn a_last_line_without_pending_text_is_left_out() {
    let mut editor = EditorSettings::default();
    editor.rainbow_delimiters = true;
    let out = display_text("(a)", 0, 0, &vec![], &vec![], &editor, &EditorColors::default());
    assert!(out.lines.is_empty());
}

#[test]
fn syntax_styles_apply_at_their_column_and_row() {
    let red = Style::new().fg(Color::Red);
    let out = display_text("xy", 0, 0, &vec![], &vec![(1, 0, red)], &EditorSettings::default(), &EditorColors::default());
    let plain = Style::new();
    assert_eq!(runs(&out), vec![vec![run("", plain), run("x", red), run("y", plain)]]);
    // On another row the entry does not apply.
    let out = display_text("xy", 0, 3, &vec![], &vec![(1, 0, red)], &EditorSettings::default(), &EditorColors::default());
    assert_eq!(runs(&out), vec![vec![run("xy", plain)]]);
}

#[test]
fn multibyte_characters_move_the_byte_position_by_their_length() {
    let colors = EditorColors::default();
    // 'é' takes two bytes, so 'b' stands at byte 2.
    let out = display_text("éb", 0, 0, &vec![2], &vec![], &EditorSettings::default(), &colors);
    let plain = Style::new();
    assert_eq!(runs(&out), vec![vec![run("é", plain), run("b", colors.selected)]]);
}

#[test]
fn plain_display_shows_every_character() {
    let out = display_text("a\tb\r\nc\n", 0, 0, &vec![], &vec![], &EditorSettings::default(), &EditorColors::default());
    let shown: String = out.lines.iter().flat_map(|l| l.spans.iter().map(|s| s.text.clone())).collect();
    assert_eq!(shown, "a    b  c ");
    assert!(out.lines.iter().all(|l| l.spans.iter().all(|s| s.style == Style::new())));
}
