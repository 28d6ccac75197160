use sevi::delimiters::{is_delimiter, is_pair};
use sevi::colors::{EditorColors, NumberBarColor, StatusBarColor};
use sevi::commands::{editor_command, AfterSave, EditorAction};
use sevi::editor_settings::{EditorSettings, NumberLineStyle};
use sevi::events::{AppEvent, Args, InputLayer, Message};
use sevi::key::{Key, KeyEvent, KeyModifiers, MediaKey};
use sevi::keybindings::ModeKeybindings;
use sevi::rect::Rect;
use sevi::status::Status;
use sevi::style::{Color, Modifier, Style};
use sevi::styled::{StyledLine, StyledSpan, StyledText};
use sevi::text_buffer::BufferText;

#[test]
fn rect_edges_and_area() {
    let r = Rect::new(1, 2, 3, 4);
    assert_eq!(r.area(), 12);
    assert_eq!(r.left(), 1);
    assert_eq!(r.right(), 4);
    assert_eq!(r.top(), 2);
    assert_eq!(r.bottom(), 6);
}

#[test]
fn rect_union_and_intersection() {
    let a = Rect::new(0, 0, 4, 4);
    let b = Rect::new(2, 2, 4, 4);
    assert_eq!(a.union(b), Rect::new(0, 0, 6, 6));
    assert_eq!(b.union(a), a.union(b));
    assert_eq!(a.intersection(b), Rect::new(2, 2, 2, 2));
    assert!(a.insersects(b));
    assert!(b.insersects(a));
    assert!(!a.insersects(Rect::new(10, 10, 1, 1)));
}

#[test]
fn key_event_text() {
    let e = KeyEvent::new(Key::Char('x'), KeyModifiers { bits: 7 });
    assert_eq!(e.to_string(), "C-M-S-x");
    assert_eq!(KeyEvent::from_key(Key::F(12)).to_string(), "F12");
    assert_eq!(Key::Media(MediaKey::PlayPause).to_string(), "Media(Play/Pause)");
    assert_eq!(KeyEvent::new(Key::Esc, KeyModifiers::ctrl()).to_string(), "C-Esc");
}

#[test]
fn terminal_shift_is_dropped_on_uppercase() {
    assert_eq!(KeyEvent::from_terminal(Key::Char('A'), true, false, false).modifiers.bits, 0);
    assert_eq!(KeyEvent::from_terminal(Key::Char('a'), true, false, false).modifiers.bits, 1);
    assert_eq!(KeyEvent::from_terminal(Key::Enter, true, true, false).modifiers.bits, 3);
    assert_eq!(KeyEvent::from_terminal(Key::Char('b'), false, true, true).modifiers.bits, 6);
}

fn keys(evs: &[(Key, u8)]) -> Vec<KeyEvent> {
    evs.iter().map(|(k, m)| KeyEvent::new(*k, KeyModifiers { bits: *m })).collect()
}

#[test]
fn default_bindings_of_a_mode_and_of_all() {
    let mut kb = ModeKeybindings::default();
    let normal = "Normal".to_string();
    let insert = "Insert".to_string();
    assert_eq!(kb.get(&normal, &keys(&[(Key::Char('i'), 0)])).cloned(), Some("insert_before".to_string()));
    assert_eq!(kb.get(&insert, &keys(&[(Key::Right, 0)])).cloned(), Some("right".to_string()));
    assert_eq!(kb.get_ignore_universal(&insert, &keys(&[(Key::Right, 0)])), None);
    assert_eq!(
        kb.get(&normal, &keys(&[(Key::Char('x'), 0), (Key::Char('l'), 0)])).cloned(),
        Some("cut_line".to_string())
    );
    assert_eq!(kb.get(&normal, &keys(&[(Key::Char('Q'), 0)])), None);
}

#[test]
fn a_set_binding_is_found() {
    let mut kb = ModeKeybindings::default();
    let normal = "Normal".to_string();
    let k = keys(&[(Key::Char('Q'), 2)]);
    kb.set("Normal", k.clone(), "undo");
    assert_eq!(kb.get(&normal, &k).cloned(), Some("undo".to_string()));
    kb.set("Normal", k.clone(), "redo");
    assert_eq!(kb.get(&normal, &k).cloned(), Some("redo".to_string()));
    kb.set("Custom", k.clone(), "tab");
    assert_eq!(kb.get_ignore_universal(&"Custom".to_string(), &k).cloned(), Some("tab".to_string()));
    kb.set_universal(keys(&[(Key::F(1), 0)]), "help");
    assert_eq!(kb.get(&"Custom".to_string(), &keys(&[(Key::F(1), 0)])).cloned(), Some("help".to_string()));
    assert_eq!(kb.get(&normal, &keys(&[(Key::Char('i'), 0)])).cloned(), Some("insert_before".to_string()));
}

#[test]
fn patch_lays_a_style_over_another() {
    let a = Style::new().fg(Color::Red).add_modifier(Modifier::bold());
    let b = Style::new().bg(Color::Blue).sub_modifier(Modifier::bold());
    let p = a.patch(b);
    assert_eq!(p.fg, Some(Color::Red));
    assert_eq!(p.bg, Some(Color::Blue));
    assert_eq!(p.add_modifier.bits, 0);
    assert_eq!(p.sub_modifier.bits, 1);
    assert_eq!(a.patch(Style::new()), a);
    assert_eq!(Style::new().patch(a), a);
    let c = Style::new().underline_color(Color::Green).add_modifier(Modifier::italic());
    assert_eq!(a.patch(b).patch(c), a.patch(b.patch(c)));
}

#[test]
fn style_config_lines() {
    let s = Style::new().fg(Color::Rgb(1, 2, 3)).add_modifier(Modifier::bold());
    assert_eq!(s.config_file(), "fg = [1, 2, 3]\nmodifiers = [\"bold\"]\n");
    assert_eq!(s.inline_text(), "fg = [1, 2, 3], modifiers = [\"bold\"]");
    assert_eq!(Color::Indexed(200).config_file(), "200");
    assert_eq!(Color::DarkGray.config_file(), "\"dark-gray\"");
    assert_eq!(Modifier { bits: 1 | 4 | 256 }.config_file(), "[\"bold\", \"italic\", \"crossed_out\"]");
    assert_eq!(Modifier::empty().config_file(), "[]");
    assert_eq!(Style::new().config_file(), "");
}

#[test]
fn modifier_sets() {
    let mut m = Modifier::bold().union(Modifier::dim());
    assert!(m.contains(Modifier::dim()));
    assert!(!m.contains(Modifier::hidden()));
    m.remove(Modifier::bold());
    assert_eq!(m.bits(), 2);
    m.insert(Modifier::reversed());
    assert_eq!(m.bits(), 66);
    assert_eq!(m.difference(Modifier::dim()).bits, 64);
    assert!(Modifier::empty().is_empty());
}

#[test]
fn raw_text_splits_lines() {
    let t = StyledText::raw("a\r\nb\n");
    assert_eq!(t.rows(), 2);
    assert_eq!(t.lines[0].spans[0].text, "a");
    assert_eq!(t.lines[1].spans[0].text, "b");
    let e = StyledText::raw("");
    assert_eq!(e.rows(), 1);
    assert_eq!(e.lines[0].spans[0].text, "");
    let g = StyledText::raw("x\n\ny");
    assert_eq!(g.rows(), 3);
    assert_eq!(g.lines[1].spans[0].text, "");
    let r = StyledText::raw("a\r");
    assert_eq!(r.lines[0].spans[0].text, "a\r");
    assert_eq!(g.len(), 2);
}

#[test]
fn styled_lines_and_spans() {
    let mut line = StyledLine::new();
    line.push(StyledSpan::raw("ab".to_string()));
    line.extend(vec![StyledSpan::raw("cde".to_string())]);
    line.insert(0, StyledSpan::styled("\u{e9}".to_string(), Style::new().fg(Color::Red)));
    assert_eq!(line.len(), 7);
    assert_eq!(line.spans[0].len(), 2);
    let mut s = StyledSpan::styled("x".to_string(), Style::new().fg(Color::Red));
    s.patch_style(Style::new().bg(Color::Blue));
    assert_eq!(s.style.fg, Some(Color::Red));
    assert_eq!(s.style.bg, Some(Color::Blue));
    s.reset_style();
    assert_eq!(s.style, Style::new());
    let mut t = StyledText::new();
    assert!(t.is_empty());
    t.lines.push(line);
    assert!(!t.is_empty());
    t.clear();
    assert!(t.is_empty());
}

#[test]
fn status_bar_fills_the_width() {
    let bar = Status::new(Rect::new(0, 0, 20, 1)).create_bar(
        StyledText::raw("NORMAL"),
        StyledText::raw("1:1"),
        StyledText::raw("x"),
    );
    assert_eq!(bar.rows(), 1);
    let texts: Vec<String> = bar.lines[0].spans.iter().map(|s| s.text.clone()).collect();
    assert_eq!(texts, vec!["NORMAL", " ", "1:1", "         ", "x"]);
    let narrow = Status::new(Rect::new(0, 0, 3, 1)).create_bar(
        StyledText::raw("NORMAL"),
        StyledText::raw("1:1"),
        StyledText::raw("x"),
    );
    assert_eq!(narrow.lines[0].spans[3].text, "");
}

#[test]
fn buffer_text_builders() {
    let b = BufferText::new()
        .add_number_line_style(NumberLineStyle::Relative)
        .add_current_row(3)
        .set_start_row(2)
        .set_scroll_cols(1);
    let _ = b;
}

#[test]
fn colors_config() {
    assert_eq!(
        NumberBarColor::default().config_file(),
        "[number_bar.current_line]\nbg = \"dark-gray\"\n\n[number_bar.other_lines]\nfg = \"dark-gray\"\n"
    );
    let status = StatusBarColor::default().config_file();
    assert!(status.starts_with("[StatusBar]\n[StatusBar.message]\nbg = \"dark-gray\"\n\n"));
    assert!(status.ends_with("[StatusBar.mode.Replace]\nfg = \"black\"\nbg = \"light-red\"\n\n"));
    let editor = EditorColors::default().config_file();
    assert!(editor.starts_with("[EditorColors]\nrainbow_delimiters = [{ fg = \"light-magenta\" }, { fg = \"light-blue\" }"));
}

#[test]
fn colors_merge_takes_rainbow_and_modes() {
    let mut a = EditorColors::default();
    let mut b = EditorColors::default();
    b.rainbow_delimiters = vec![Style::new()];
    b.status_bar.mode = vec![("Normal".to_string(), Style::new()), ("Extra".to_string(), Style::new())];
    b.buffer_color = Style::new().fg(Color::Red);
    a.merge(b);
    assert_eq!(a.rainbow_delimiters, vec![Style::new()]);
    assert_eq!(a.buffer_color, Style::new());
    assert_eq!(a.status_bar.mode.len(), 7);
    assert_eq!(a.status_bar.mode[0].1, Style::new());
    assert_eq!(a.status_bar.mode[6].0, "Extra");
}

#[test]
fn editor_settings_text_and_merge() {
    let d = EditorSettings::default();
    assert_eq!(
        d.config_text(),
        "[EditorSettings]\nnumber_line = \"None\"\ntab_size = 4\nuse_spaces = true\nrainbow_delimiters = false\ndefault_mode = \"Normal\""
    );
    let mut s = EditorSettings::default();
    let mut u = EditorSettings::default();
    u.tab_size = 8;
    u.number_line = NumberLineStyle::Absolute;
    u.default_mode = "Insert".to_string();
    u.use_spaces = false;
    s.merge_settings(u);
    assert_eq!(s.tab_size, 8);
    assert_eq!(s.number_line, NumberLineStyle::Absolute);
    assert_eq!(s.default_mode, "Insert");
    assert!(s.use_spaces);
}

#[test]
fn input_layer_messages() {
    let l = InputLayer::new();
    assert_eq!(l.on_app_event(AppEvent::ForceQuit), Some(Message::AppClose));
    assert_eq!(l.on_app_event(AppEvent::Close), Some(Message::Close));
    assert_eq!(l.on_app_event(AppEvent::OpenFile("f".to_string())), Some(Message::OpenFile("f".to_string())));
    assert_eq!(l.on_app_event(AppEvent::Edit), None);
    assert_eq!(l.on_resize(), Message::Redraw);
    let k = sevi::key::KeyEvent::from_key(sevi::key::Key::Char('a'));
    assert_eq!(l.on_key(k), Message::Key(sevi::key::KeyEvent::from_key(sevi::key::Key::Char('a'))));
    let a = Args { file: Some("x.rs".to_string()), generate_default_settings: false, ignore_user_settings: false };
    assert_eq!(a.get_path(), Some("x.rs".to_string()));
}

#[test]
fn editor_commands_decide() {
    assert_eq!(editor_command("q"), EditorAction::Send(AppEvent::Close));
    assert_eq!(editor_command("qa!"), EditorAction::Send(AppEvent::ForceQuit));
    assert_eq!(editor_command("e"), EditorAction::Nothing);
    assert_eq!(editor_command(" e  notes.md "), EditorAction::Send(AppEvent::OpenFile("notes.md".to_string())));
    assert_eq!(
        editor_command("wq out.txt"),
        EditorAction::Save { path: Some("out.txt".to_string()), force: false, then: AfterSave::Stay }
    );
    assert_eq!(editor_command("wq"), EditorAction::Save { path: None, force: false, then: AfterSave::CloseIfSaved });
    assert_eq!(editor_command("w!q!"), EditorAction::Save { path: None, force: true, then: AfterSave::ForceClose });
    assert_eq!(editor_command("xyz"), EditorAction::Nothing);
}

#[test]
fn delimiters_and_their_pairs() {
    for c in ['(', ')', '[', '}', '「', '»', '\'', '"', '⸩'] {
        assert!(is_delimiter(c), "{:?}", c);
    }
    for c in ['a', ' ', '<', '>', '0'] {
        assert!(!is_delimiter(c), "{:?}", c);
    }
    assert!(is_pair('(', ')'));
    assert!(is_pair('⎱', '⎰'));
    assert!(is_pair('"', '"'));
    assert!(!is_pair(')', '('));
    assert!(!is_pair('(', ']'));
}
