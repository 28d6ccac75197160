use sevi::color_names::color_from_str;
use sevi::colors::EditorColors;
use sevi::colors_config::{
    parse_editor_colors, parse_mode, parse_number_bar_color, parse_rainbow_delimiters, parse_status_bar_color,
    try_parse_editor_colors, try_parse_mode, try_parse_number_bar_color, try_parse_rainbow_delimiters,
    try_parse_status_bar_color,
};
use sevi::text_buffer::number_line_width;
use sevi::config::{check_settings_table, load_user_settings, parse_settings, ConfigValue};
use sevi::editor_settings::{EditorSettings, NumberLineStyle};
use sevi::key::{Key, KeyEvent, KeyModifiers};
use sevi::keybinding_config::{parse_custom, parse_key, parse_keybindings, parse_keys};
use sevi::keybindings::ModeKeybindings;
use sevi::style::{Color, Modifier, Style};
use sevi::style_config::{
    parse_color, parse_modifier, parse_style, try_parse_color, try_parse_modifier, try_parse_style,
};

fn text(s: &str) -> ConfigValue {
    ConfigValue::String(s.to_string())
}

fn table(entries: Vec<(&str, ConfigValue)>) -> ConfigValue {
    ConfigValue::Table(entries.into_iter().map(|(k, v)| (k.to_string(), v)).collect())
}

fn plain(key: Key) -> KeyEvent {
    KeyEvent { key, modifiers: KeyModifiers { bits: 0 } }
}

#[test]
fn settings_text_is_read() {
    let config = "[EditorSettings]\nnumber_line = \"Relative\"\ntab_size = 8\nuse_spaces = false\nrainbow_delimiters = true\ndefault_mode = \"Insert\"\n";
    let s = load_user_settings(config).expect("settings");
    assert!(s.number_line == NumberLineStyle::Relative);
    assert_eq!(s.tab_size, 8);
    assert!(!s.use_spaces);
    assert!(s.rainbow_delimiters);
    assert!(s.font_settings.is_none());
    assert_eq!(s.default_mode, "Insert");
}

#[test]
fn missing_settings_table_gives_defaults() {
    let s = load_user_settings("[Other]\nx = 1\n").expect("settings");
    assert!(s.number_line == NumberLineStyle::Hidden);
    assert_eq!(s.tab_size, 4);
    assert!(s.use_spaces);
    assert!(!s.rainbow_delimiters);
    assert_eq!(s.default_mode, "Normal");
}

#[test]
fn font_settings_take_defaults_where_left_out() {
    let s = load_user_settings("[EditorSettings.font_settings]\nsize = 14\n").expect("settings");
    let f = s.font_settings.expect("font");
    assert_eq!(f.size, 14);
    assert_eq!(f.family, "monospace");
}

#[test]
fn bad_toml_gives_no_settings() {
    assert!(load_user_settings("[EditorSettings\n").is_none());
}

#[test]
fn unknown_number_line_style_gives_no_settings() {
    assert!(load_user_settings("[EditorSettings]\nnumber_line = \"Sideways\"\n").is_none());
    assert!(load_user_settings("[EditorSettings]\ntab_size = \"wide\"\n").is_none());
}

#[test]
fn tab_size_is_taken_modulo_256() {
    let t = table(vec![("tab_size", ConfigValue::Integer(260))]);
    assert!(check_settings_table(&t));
    let s = parse_settings(&t);
    assert_eq!(s.tab_size, 4);
}

#[test]
fn merging_user_settings_keeps_defaults_left_at_their_value() {
    let mut s = EditorSettings::default();
    let user = load_user_settings("[EditorSettings]\ntab_size = 2\n").expect("settings");
    s.merge_settings(user);
    assert_eq!(s.tab_size, 2);
    assert!(s.use_spaces);
    assert_eq!(s.default_mode, "Normal");
}

#[test]
fn colors_are_read_by_name_list_and_index() {
    assert!(parse_color(&text("light-blue")) == Ok(Color::LightBlue));
    assert!(parse_color(&text("grey")) == Ok(Color::Gray));
    assert!(parse_color(&text("dark-grey")) == Ok(Color::DarkGray));
    let rgb = ConfigValue::Array(vec![
        ConfigValue::Integer(1),
        ConfigValue::Integer(2),
        ConfigValue::Integer(300),
    ]);
    assert!(parse_color(&rgb) == Ok(Color::Rgb(1, 2, 44)));
    assert!(parse_color(&ConfigValue::Integer(17)) == Ok(Color::Indexed(17)));
}

#[test]
fn color_errors() {
    let two = ConfigValue::Array(vec![ConfigValue::Integer(1), ConfigValue::Integer(2)]);
    assert_eq!(parse_color(&two), Err("color array was not of length 3".to_string()));
    assert_eq!(
        parse_color(&ConfigValue::Boolean(true)),
        Err("color was not a string or array".to_string())
    );
    assert!(try_parse_color(&text("purple")).is_none());
    let mixed = ConfigValue::Array(vec![ConfigValue::Integer(1), text("x"), ConfigValue::Integer(2)]);
    assert!(try_parse_color(&mixed).is_none());
}

#[test]
fn modifiers_are_read() {
    let list = ConfigValue::Array(vec![text("bold"), text("italic")]);
    assert_eq!(parse_modifier(&list).map(|m| m.bits), Ok(5));
    assert_eq!(
        parse_modifier(&text("bold")).map(|m| m.bits),
        Err("modifier was not an array".to_string())
    );
    let bad = ConfigValue::Array(vec![text("bold"), ConfigValue::Integer(1)]);
    assert_eq!(parse_modifier(&bad).map(|m| m.bits), Err("modifier was not a string".to_string()));
    assert!(try_parse_modifier(&ConfigValue::Array(vec![text("blinking")])).is_none());
}

#[test]
fn styles_are_read() {
    let t = table(vec![
        ("fg", text("red")),
        ("bg", ConfigValue::Integer(3)),
        ("modifiers", ConfigValue::Array(vec![text("underline")])),
    ]);
    let s = parse_style(&t).expect("style");
    assert!(s == Style::new().fg(Color::Red).bg(Color::Indexed(3)).add_modifier(Modifier::underline()));
    assert_eq!(parse_style(&text("red")), Err("style was not a table".to_string()));
    let bad = table(vec![("fg", ConfigValue::Boolean(false))]);
    assert_eq!(parse_style(&bad), Err("color was not a string or array".to_string()));
    assert!(try_parse_style(&table(vec![("bg", text("mauve"))])).is_none());
}

#[test]
fn keys_are_read() {
    assert_eq!(parse_key(&text("a")), Some(vec![plain(Key::Char('a'))]));
    assert_eq!(parse_key(&text("Space")), Some(vec![plain(Key::Char(' '))]));
    assert_eq!(parse_key(&text("F12")), Some(vec![plain(Key::F(12))]));
    assert_eq!(parse_key(&text("Nothing")), None);
    assert_eq!(parse_key(&text("é")), None);
    let with_mods = table(vec![
        ("key", text("x")),
        ("mod", ConfigValue::Array(vec![text("Ctrl"), text("Shift")])),
    ]);
    assert_eq!(
        parse_key(&with_mods),
        Some(vec![KeyEvent { key: Key::Char('x'), modifiers: KeyModifiers { bits: 3 } }])
    );
    let seq = table(vec![("keys", ConfigValue::Array(vec![text("g"), text("g")]))]);
    assert_eq!(parse_key(&seq), Some(vec![plain(Key::Char('g')), plain(Key::Char('g'))]));
    assert_eq!(parse_key(&table(vec![("key", text("x"))])), None);
}

#[test]
fn key_lists_are_read() {
    let list = ConfigValue::Array(vec![text("h"), text("Left")]);
    assert_eq!(
        parse_keys(&list),
        Some(vec![vec![plain(Key::Char('h'))], vec![plain(Key::Left)]])
    );
    assert_eq!(parse_keys(&text("j")), Some(vec![vec![plain(Key::Char('j'))]]));
    assert_eq!(parse_keys(&ConfigValue::Integer(1)), None);
}

#[test]
fn custom_bindings_are_read() {
    let custom = ConfigValue::Array(vec![table(vec![
        ("binding", text("q")),
        ("command", text("quit")),
    ])]);
    assert_eq!(
        parse_custom(&custom),
        Some(vec![(vec![plain(Key::Char('q'))], "quit".to_string())])
    );
    let no_command = ConfigValue::Array(vec![table(vec![("binding", text("q"))])]);
    assert_eq!(parse_custom(&no_command), None);
}

#[test]
fn mode_table_binds_commands_and_custom_bindings() {
    let t = table(vec![
        ("left", ConfigValue::Array(vec![text("h"), text("Left")])),
        ("custom", ConfigValue::Array(vec![table(vec![("binding", text("h")), ("command", text("back"))])])),
    ]);
    let commands = vec!["right", "left"];
    let b = parse_keybindings(&t, &commands).expect("bindings");
    assert_eq!(b.get(&vec![plain(Key::Char('h'))]), Some(&"back".to_string()));
    assert_eq!(b.get(&vec![plain(Key::Left)]), Some(&"left".to_string()));
    assert_eq!(b.get(&vec![plain(Key::Right)]), None);
}

#[test]
fn user_bindings_file_is_read() {
    let file = "[Normal]\nup = \"k\"\n[Universal]\ncancel = \"Esc\"\n";
    let mut k = ModeKeybindings::load_user_bindings(file).expect("bindings");
    let normal = "Normal".to_string();
    let insert = "Insert".to_string();
    assert_eq!(k.get(&normal, &vec![plain(Key::Char('k'))]), Some(&"up".to_string()));
    assert_eq!(k.get(&insert, &vec![plain(Key::Esc)]), Some(&"cancel".to_string()));
    assert_eq!(k.get_ignore_universal(&insert, &vec![plain(Key::Esc)]), None);
    assert!(ModeKeybindings::load_user_bindings("[Normal]\nup = \"NoSuchKey\"\n").is_none());
    assert!(ModeKeybindings::load_user_bindings("not toml [").is_none());
}

#[test]
fn user_bindings_are_laid_over_the_defaults() {
    let mut k = ModeKeybindings::default();
    let normal = "Normal".to_string();
    let before = k.get(&normal, &vec![plain(Key::Char('j'))]).cloned();
    assert!(before.is_some());
    let user = ModeKeybindings::load_user_bindings("[Normal]\nup = \"j\"\n").expect("bindings");
    k.merge_bindings(user);
    assert_eq!(k.get(&normal, &vec![plain(Key::Char('j'))]), Some(&"up".to_string()));
    let replace = "Replace".to_string();
    assert_eq!(k.get_ignore_universal(&replace, &vec![plain(Key::Char('j'))]), None);
}

#[test]
fn color_texts_are_read() {
    assert!(color_from_str("Bright Red") == Ok(Color::LightRed));
    assert!(color_from_str("grey") == Ok(Color::Gray));
    assert!(color_from_str("light_black") == Ok(Color::DarkGray));
    assert!(color_from_str("silver") == Ok(Color::Gray));
    assert!(color_from_str("LightWhite") == Ok(Color::White));
    assert!(color_from_str("42") == Ok(Color::Indexed(42)));
    assert!(color_from_str("#ff0080") == Ok(Color::Rgb(255, 0, 128)));
    assert!(color_from_str("#+f+f+f") == Ok(Color::Rgb(15, 15, 15)));
    assert!(color_from_str("#ff00") == Err(()));
    assert!(color_from_str("mauve") == Err(()));
    assert!(color_from_str("300") == Err(()));
}

#[test]
fn number_line_widths_count_digits() {
    assert_eq!(number_line_width(NumberLineStyle::Hidden, 120), 0);
    assert_eq!(number_line_width(NumberLineStyle::Absolute, 0), 0);
    assert_eq!(number_line_width(NumberLineStyle::Absolute, 9), 1);
    assert_eq!(number_line_width(NumberLineStyle::Absolute, 10), 2);
    assert_eq!(number_line_width(NumberLineStyle::Relative, 120), 6);
}

fn red() -> Style {
    Style::new().fg(Color::Red)
}

#[test]
fn number_bar_colors_take_the_styles_given() {
    let t = table(vec![("current_line", table(vec![("fg", text("red"))]))]);
    let n = try_parse_number_bar_color(&t).expect("read").expect("colors");
    assert!(n.current_line == red());
    assert!(n.other_lines == Style::new().fg(Color::DarkGray));
    let n = parse_number_bar_color(&text("x")).expect("colors");
    assert!(n.current_line == Style::new().bg(Color::DarkGray));
}

#[test]
fn mode_colors_must_be_tables() {
    let m = try_parse_mode(&table(vec![("Normal", table(vec![("fg", text("red"))]))])).expect("read").expect("modes");
    assert_eq!(m.len(), 1);
    assert_eq!(m[0].0, "Normal");
    assert!(m[0].1 == red());
    assert_eq!(try_parse_mode(&text("x")).expect("read").err(), Some("mode was not a table".to_string()));
    assert_eq!(
        parse_mode(&table(vec![("Normal", text("red"))])).err(),
        Some("mode was not a table".to_string())
    );
}

#[test]
fn rainbow_delimiters_must_be_a_list_of_tables() {
    let l = ConfigValue::Array(vec![table(vec![("fg", text("red"))]), table(vec![])]);
    let r = parse_rainbow_delimiters(&l).expect("styles");
    assert_eq!(r.len(), 2);
    assert!(r[0] == red());
    assert!(r[1] == Style::new());
    assert_eq!(
        try_parse_rainbow_delimiters(&text("x")).expect("read").err(),
        Some("rainbow_delimiters was not an array".to_string())
    );
    assert_eq!(
        try_parse_rainbow_delimiters(&ConfigValue::Array(vec![text("x")])).expect("read").err(),
        Some("rainbow_delimiters was not a table".to_string())
    );
}

#[test]
fn status_bar_colors_replace_the_mode_styles() {
    let t = table(vec![
        ("message", table(vec![("fg", text("red"))])),
        ("mode", table(vec![("Insert", table(vec![("fg", text("red"))]))])),
    ]);
    let b = try_parse_status_bar_color(&t).expect("read").expect("colors");
    assert!(b.message == red());
    assert_eq!(b.mode.len(), 1);
    assert_eq!(b.mode[0].0, "Insert");
    assert!(b.first == Style::new());
    let b = parse_status_bar_color(&table(vec![])).expect("colors");
    assert_eq!(b.mode.len(), 6);
}

#[test]
fn editor_colors_are_read_from_the_configuration_text() {
    let c = EditorColors::load_user_settings("[EditorColors.buffer_color]\nfg = \"red\"\n").expect("read").expect("colors");
    assert!(c.buffer_color == red());
    assert!(c.selected == Style::new().fg(Color::Black).bg(Color::LightBlue));
    assert_eq!(c.rainbow_delimiters.len(), 6);
    let c = EditorColors::load_user_settings("x = 1\n").expect("read").expect("colors");
    assert!(c.buffer_color == Style::new());
    assert!(EditorColors::load_user_settings("[[[").is_none());
    let e = try_parse_editor_colors(&table(vec![("rainbow_delimiters", text("x"))])).expect("read").err();
    assert_eq!(e, Some("rainbow_delimiters was not an array".to_string()));
    let c = parse_editor_colors(&table(vec![("selected", table(vec![("bg", text("red"))]))])).expect("colors");
    assert!(c.selected == Style::new().bg(Color::Red));
}

#[test]
fn written_colors_are_read_back() {
    assert_eq!(Color::LightCyan.config_file(), "\"light-cyan\"");
    assert!(parse_color(&text("light-cyan")) == Ok(Color::LightCyan));
    assert_eq!(Color::Rgb(1, 2, 3).config_file(), "[1, 2, 3]");
    let rgb = ConfigValue::Array(vec![ConfigValue::Integer(1), ConfigValue::Integer(2), ConfigValue::Integer(3)]);
    assert!(parse_color(&rgb) == Ok(Color::Rgb(1, 2, 3)));
    assert_eq!(Color::Indexed(7).config_file(), "7");
    assert!(parse_color(&ConfigValue::Integer(7)) == Ok(Color::Indexed(7)));
}

#[test]
fn the_grays_are_written_with_names_the_reader_does_not_know() {
    assert_eq!(Color::Gray.config_file(), "\"gray\"");
    assert!(try_parse_color(&text("gray")).is_none());
    assert_eq!(Color::DarkGray.config_file(), "\"dark-gray\"");
    assert!(try_parse_color(&text("dark-gray")).is_none());
}

#[test]
fn written_modifiers_are_read_back() {
    let m = Modifier::bold().union(Modifier::italic());
    assert_eq!(m.config_file(), "[\"bold\", \"italic\"]");
    let v = ConfigValue::Array(vec![text("bold"), text("italic")]);
    assert!(parse_modifier(&v) == Ok(m));
    assert_eq!(Modifier::empty().config_file(), "[]");
    assert!(parse_modifier(&ConfigValue::Array(vec![])) == Ok(Modifier::empty()));
}

#[test]
fn merged_mode_styles_name_each_mode_once() {
    let mut base = EditorColors::default();
    let mut user = EditorColors::default();
    user.status_bar.mode = vec![
        ("Insert".to_string(), Style::new().fg(Color::Red)),
        ("Visual".to_string(), Style::new().fg(Color::Blue)),
        ("Insert".to_string(), Style::new().fg(Color::Green)),
    ];
    base.merge(user);
    let names: Vec<&str> = base.status_bar.mode.iter().map(|(n, _)| n.as_str()).collect();
    assert_eq!(names, vec!["Normal", "Insert", "Selection", "Command", "Search", "Replace", "Visual"]);
    assert_eq!(base.status_bar.mode[1].1, Style::new().fg(Color::Green));
}

#[test]
fn read_mode_styles_name_each_mode_once() {
    let style = |c: &str| ConfigValue::Table(vec![("fg".to_string(), ConfigValue::String(c.to_string()))]);
    let table = ConfigValue::Table(vec![("Normal".to_string(), style("red")), ("Insert".to_string(), style("blue"))]);
    let modes = try_parse_mode(&table).expect("read").expect("modes");
    let names: Vec<&str> = modes.iter().map(|(n, _)| n.as_str()).collect();
    assert_eq!(names, vec!["Normal", "Insert"]);
    assert_eq!(modes[0].1, Style::new().fg(Color::Red));
    assert_eq!(modes[1].1, Style::new().fg(Color::Blue));
}
