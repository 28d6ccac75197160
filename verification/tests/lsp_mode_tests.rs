use sevi::lsp_message::{process_json, JsonNumber, JsonValue, LspPayload};
use std::collections::HashMap;
use sevi::lsp::{
    CompletionItem, CompletionList, Diagnostic, Diagnostics, InsertReplaceEdit, LspRange, Position,
    SemanticTokensLegendRaw, SemanticTokensRaw, TextEdit, TextEditType,
};
use sevi::key::{Key, KeyEvent, KeyModifiers};
use sevi::keybindings::ModeKeybindings;
use sevi::modes::{
    CommandMode, InsertMode, NormalMode, PairMode, PaneAction, SearchMode, SearchType, SelectionMode, SelectionType,
    split_command,
};
use sevi::settings::Settings;

fn range(l1: usize, c1: usize, l2: usize, c2: usize) -> LspRange {
    LspRange { start: Position { line: l1, character: c1 }, end: Position { line: l2, character: c2 } }
}

fn diag(msg: &str, r: LspRange) -> Diagnostic {
    Diagnostic {
        code: None,
        code_description: None,
        data: None,
        message: msg.to_string(),
        range: r,
        severity: 1,
        source: None,
    }
}

#[test]
fn positions_of_a_range() {
    assert_eq!(range(1, 2, 3, 4).get_positions(), ((2, 1), (4, 3)));
    let e = TextEdit { range: range(5, 6, 7, 8), newText: "x".to_string() };
    assert_eq!(e.get_range(), ((6, 5), (8, 7)));
}

#[test]
fn diagnostics_by_line_and_place() {
    let mut d = Diagnostics::new();
    assert_eq!(d.version, Some(0));
    d.diagnostics.push(diag("a", range(0, 0, 2, 5)));
    d.diagnostics.push(diag("b", range(1, 3, 1, 4)));
    d.diagnostics.push(diag("c", range(5, 0, 5, 9)));
    let on1: Vec<&str> = d.diagnostics_on_line(1).iter().map(|x| x.message.as_str()).collect();
    assert_eq!(on1, vec!["a", "b"]);
    assert_eq!(d.get_diagnostic(1, 4).unwrap().message, "a");
    assert_eq!(d.get_diagnostic(1, 7), None);
    assert_eq!(d.get_diagnostic(5, 9).unwrap().message, "c");
    let mut other = Diagnostics::new();
    other.diagnostics.push(diag("d", range(9, 0, 9, 0)));
    d.merge(other);
    assert_eq!(d.diagnostics.len(), 4);
    assert_eq!(d.diagnostics[3].message, "d");
}

#[test]
fn semantic_tokens_from_groups_of_five() {
    let raw = SemanticTokensRaw { resultId: Some("r".to_string()), data: vec![1, 2, 3, 0, 5, 4, 5, 6, 1, 0, 9] };
    let mut types = HashMap::new();
    types.insert(0u32, "keyword".to_string());
    types.insert(1u32, "variable".to_string());
    let mods = vec![(1u32, "declaration".to_string()), (4u32, "static".to_string())];
    let t = raw.to_semantic_tokens(&types, &mods);
    assert_eq!(t.result_id, Some("r".to_string()));
    assert_eq!(t.data.len(), 2);
    assert_eq!(t.data[0].line, 1);
    assert_eq!(t.data[0].start_character, 2);
    assert_eq!(t.data[0].length, 3);
    assert_eq!(t.data[0].token_type, "keyword");
    assert_eq!(t.data[0].token_modifiers, vec!["declaration".to_string(), "static".to_string()]);
    assert_eq!(t.data[1].token_type, "variable");
    assert!(t.data[1].token_modifiers.is_empty());
    let (r, line) = t.data[0].generate_range();
    assert_eq!(r, 2..=5);
    assert_eq!(line, 1);
    assert!(!t.is_empty());
}

fn item(kind: usize, label: &str) -> CompletionItem {
    CompletionItem {
        label: label.to_string(),
        labelDetails: None,
        kind,
        detail: None,
        documentation: None,
        deprecated: None,
        preselect: None,
        sortText: None,
        filterText: None,
        insertText: None,
        insertTextFormat: None,
        insertTextMode: None,
        textEdit: None,
        textEditText: None,
        additionalTextEdits: None,
        commitCharacters: None,
    }
}

#[test]
fn completion_texts() {
    let mut a = item(3, "foo");
    a.insertText = Some("foo()".to_string());
    assert_eq!(a.generate_text(), ("foo()".to_string(), "(Function) foo".to_string()));
    let mut b = item(99, "x");
    b.insertText = Some("no".to_string());
    b.textEdit = Some(TextEditType::TextEdit(TextEdit { range: range(0, 0, 0, 0), newText: "bar".to_string() }));
    assert_eq!(b.generate_text(), ("bar".to_string(), "(Unknown) x".to_string()));
    let mut c = item(25, "T");
    c.textEditText = Some("tt".to_string());
    c.textEdit = None;
    assert_eq!(c.generate_text().0, "tt");
    let mut d = item(14, "if");
    d.textEdit = Some(TextEditType::InsertReplaceEdit(InsertReplaceEdit {
        insert: range(0, 0, 0, 1),
        replace: range(0, 0, 0, 2),
        new_text: "if x".to_string(),
    }));
    assert_eq!(d.generate_text(), ("if x".to_string(), "(Keyword) if".to_string()));
    assert_eq!(item(1, "e").generate_text().0, "");
    let list = CompletionList { isIncomplete: false, items: vec![a, d] };
    let texts = list.generate_text();
    assert_eq!(texts[1].1, "(Keyword) if");
    assert_eq!(list.get_completion(1).unwrap().label, "if");
    assert!(list.get_completion(2).is_none());
}

fn commands(actions: &[PaneAction]) -> Vec<String> {
    actions
        .iter()
        .map(|a| match a {
            PaneAction::Command(s) => s.clone(),
            PaneAction::Tab => "<tab>".to_string(),
            PaneAction::Backspace => "<backspace>".to_string(),
            PaneAction::Delete => "<delete>".to_string(),
            PaneAction::Newline => "<newline>".to_string(),
            PaneAction::InsertChar(c) => format!("<insert {}>", c),
            PaneAction::Reselect => "<reselect>".to_string(),
            PaneAction::Search => "<search>".to_string(),
            PaneAction::NextMatch => "<next match>".to_string(),
            PaneAction::PreviousMatch => "<previous match>".to_string(),
            PaneAction::InsertPairs(o, c) => format!("<pairs {} {}>", o, c),
            PaneAction::Message(m) => format!("<message {}>", m),
        })
        .collect()
}

#[test]
fn normal_mode_commands() {
    let mut m = NormalMode::new();
    assert_eq!(commands(&m.execute_command("left")), vec!["move left "]);
    assert_eq!(commands(&m.execute_command("  selection_mode extra")), vec!["change_mode selection_normal"]);
    assert_eq!(commands(&m.execute_command("goto_line")), Vec::<String>::new());
    assert_eq!(commands(&m.execute_command("cut_line")), vec!["copy line ", "delete line"]);
    assert_eq!(commands(&m.execute_command("undo")), vec!["undo"]);
    assert_eq!(commands(&m.execute_command("nothing")), Vec::<String>::new());
}

#[test]
fn insert_mode_commands() {
    let mut settings = Settings::default();
    let mut m = InsertMode::new();
    m.add_settings(&settings);
    assert_eq!(commands(&m.execute_command("cancel")), vec!["change_mode Normal", "move right 1"]);
    assert_eq!(commands(&m.execute_command("tab")), vec!["<tab>"]);
    assert_eq!(commands(&m.execute_command("newline")), vec!["<newline>"]);
    assert_eq!(commands(&m.execute_command("page_up")), vec!["move page_up 1"]);
    settings.editor_settings.default_mode = "Insert".to_string();
    m.add_settings(&settings);
    assert_eq!(commands(&m.execute_command("cancel")), Vec::<String>::new());
}

#[test]
fn selection_commands() {
    let mut m = SelectionMode::new();
    m.set_start((1, 1));
    m.set_selection_type(SelectionType::Line);
    assert_eq!(
        m.add_selection((3, 3)),
        vec!["clear_selection", "select row 1", "select row 2", "select row 3"]
    );
    m.set_selection_type(SelectionType::Normal);
    assert_eq!(m.add_selection((0, 1)), vec!["clear_selection", "select 0,1 1,1"]);
    assert_eq!(m.add_selection((4, 0)), vec!["clear_selection", "select 4,0 1,1"]);
    m.set_start((5, 0));
    m.set_selection_type(SelectionType::Block);
    assert_eq!(m.add_selection((2, 1)), vec!["clear_selection", "select 2,0 5,0", "select 2,1 5,1"]);
}

#[test]
fn command_words() {
    assert_eq!(split_command("  w  file.txt more"), ("w".to_string(), Some("file.txt".to_string())));
    assert_eq!(split_command("q"), ("q".to_string(), None));
    assert_eq!(split_command(""), ("".to_string(), None));
}

fn key(c: char) -> KeyEvent {
    KeyEvent { key: Key::Char(c), modifiers: KeyModifiers { bits: 0 } }
}

#[test]
fn normal_mode_keys_collect_a_count_and_run_bindings() {
    let mut m = NormalMode::new();
    let mut b = ModeKeybindings::default();
    assert!(commands(&m.process_keypress(key('3'), &mut b)).is_empty());
    let out = commands(&m.process_keypress(key('j'), &mut b));
    assert_eq!(out, vec!["move down 3"]);
    let (name, first, second) = m.update_status((0, 0));
    assert_eq!(name, "Normal");
    assert_eq!(first, "1:1");
    assert_eq!(second, "");
}

#[test]
fn normal_mode_escape_forgets_the_count() {
    let mut m = NormalMode::new();
    let mut b = ModeKeybindings::default();
    m.process_keypress(key('4'), &mut b);
    let (_, first, _) = m.update_status((2, 5));
    assert_eq!(first, "6:3 4");
    m.process_keypress(KeyEvent { key: Key::Esc, modifiers: KeyModifiers { bits: 0 } }, &mut b);
    let (_, first, _) = m.update_status((2, 5));
    assert_eq!(first, "6:3");
}

#[test]
fn insert_mode_types_characters_and_escapes() {
    let mut settings = Settings::default();
    let mut m = InsertMode::new();
    m.add_settings(&settings);
    let out = commands(&m.process_keypress(key('x'), &mut settings.mode_keybindings));
    assert_eq!(out, vec!["<insert x>"]);
    let out = commands(&m.process_keypress(
        KeyEvent { key: Key::Esc, modifiers: KeyModifiers { bits: 0 } },
        &mut settings.mode_keybindings,
    ));
    assert_eq!(out, vec!["change_mode Normal", "move right 1"]);
}

#[test]
fn selection_mode_moves_then_selects_again() {
    let settings = Settings::default();
    let mut m = SelectionMode::new();
    m.add_settings(&settings);
    assert_eq!(commands(&m.execute_command("left")), vec!["move left ", "<reselect>"]);
    assert_eq!(
        commands(&m.execute_command("copy")),
        vec!["copy selection", "change_mode Normal", "clear_selection"]
    );
    assert_eq!(commands(&m.execute_command("pair_mode")), vec!["change_mode pair selection_normal_pair"]);
    let (name, first, second) = m.update_status((4, 2));
    assert_eq!((name.as_str(), first.as_str(), second.as_str()), ("Selection", "2:4", "Normal"));
}

#[test]
fn command_mode_edits_and_executes_the_typed_command() {
    let mut settings = Settings::default();
    let mut m = CommandMode::new();
    m.add_settings(&settings);
    for c in "wq".chars() {
        m.process_keypress(key(c), &mut settings.mode_keybindings);
    }
    assert_eq!(m.update_status().1, ":wq");
    m.execute_command("backspace");
    assert_eq!(m.update_status().1, ":w");
    m.execute_command("left");
    m.execute_command("delete");
    assert_eq!(m.update_status().1, ":");
    m.process_keypress(key('e'), &mut settings.mode_keybindings);
    assert_eq!(commands(&m.execute_command("execute")), vec!["e", "change_mode Normal"]);
    assert_eq!(m.update_status().1, ":");
}

#[test]
fn search_mode_edits_the_query_and_searches_again() {
    let mut settings = Settings::default();
    let mut m = SearchMode::new();
    m.add_settings(&settings);
    let out = commands(&m.process_keypress(key('a'), &mut settings.mode_keybindings));
    assert_eq!(out, vec!["clear_selection", "<search>"]);
    let out = commands(&m.execute_command("backspace"));
    assert_eq!(out, vec!["clear_selection"]);
    let out = commands(&m.execute_command("backspace"));
    assert_eq!(out, vec!["change_mode Normal", "clear_selection", "clear_selection"]);
    assert_eq!(commands(&m.execute_command("next_match")), vec!["<next match>"]);
    m.set_search_type(SearchType::Backward);
    assert_eq!(m.update_status().1, "? ");
}

#[test]
fn search_query_reads_escapes() {
    let mut settings = Settings::default();
    let mut m = SearchMode::new();
    m.add_settings(&settings);
    for c in "a\\nb\\\\".chars() {
        m.process_keypress(key(c), &mut settings.mode_keybindings);
    }
    assert_eq!(m.get_search_query(), "a\nb\\");
}

#[test]
fn pair_mode_edits_its_text_and_goes_back() {
    let mut b = ModeKeybindings::default();
    let mut m = PairMode::new();
    m.process_keypress(key('('), &mut b);
    m.execute_command("left");
    m.process_keypress(key('['), &mut b);
    assert_eq!(commands(&m.execute_command("cancel")), vec!["change_mode Selection"]);
}

fn text(s: &str) -> JsonValue {
    JsonValue::String(s.to_string())
}

fn object(members: Vec<(&str, JsonValue)>) -> JsonValue {
    JsonValue::Object(members.into_iter().map(|(k, v)| (k.to_string(), v)).collect())
}

fn number(n: u64) -> JsonValue {
    JsonValue::Number(JsonNumber::PosInt(n))
}

#[test]
fn process_json_reads_published_diagnostics() {
    let message = object(vec![
        ("jsonrpc", text("2.0")),
        ("method", text("textDocument/publishDiagnostics")),
        ("params", object(vec![("uri", text("file:///a.rs"))])),
    ]);
    assert_eq!(
        process_json(message),
        LspPayload::Diagnostics(object(vec![("uri", text("file:///a.rs"))]))
    );
}

#[test]
fn process_json_ignores_other_methods() {
    let message = object(vec![("method", text("window/logMessage")), ("id", number(2))]);
    assert_eq!(process_json(message), LspPayload::Nothing);
}

#[test]
fn process_json_reads_capabilities_of_the_first_answer() {
    let message = object(vec![
        ("id", number(1)),
        ("result", object(vec![("capabilities", object(vec![("hoverProvider", JsonValue::Bool(true))]))])),
    ]);
    assert_eq!(
        process_json(message),
        LspPayload::Capabilities(object(vec![("hoverProvider", JsonValue::Bool(true))]))
    );
    let message = object(vec![("id", number(1)), ("result", JsonValue::Null)]);
    assert_eq!(process_json(message), LspPayload::Capabilities(JsonValue::Null));
}

#[test]
fn process_json_reads_completions_and_semantic_tokens() {
    let message = object(vec![("id", number(2)), ("result", object(vec![("isIncomplete", JsonValue::Bool(false))]))]);
    assert_eq!(
        process_json(message),
        LspPayload::Completions(object(vec![("isIncomplete", JsonValue::Bool(false))]))
    );
    let message = object(vec![("id", number(7)), ("result", object(vec![("data", JsonValue::Array(vec![number(0)]))]))]);
    assert_eq!(
        process_json(message),
        LspPayload::SemanticTokens(object(vec![("data", JsonValue::Array(vec![number(0)]))]))
    );
}

#[test]
fn process_json_sorts_location_answers_by_their_shape() {
    let message = object(vec![("id", number(3)), ("result", JsonValue::Array(vec![]))]);
    assert_eq!(process_json(message), LspPayload::Locations(JsonValue::Array(vec![])));
    let message = object(vec![
        ("id", number(4)),
        ("uri", text("file:///a.rs")),
        ("result", object(vec![("uri", text("file:///b.rs"))])),
    ]);
    assert_eq!(process_json(message), LspPayload::Location(object(vec![("uri", text("file:///b.rs"))])));
    let message = object(vec![
        ("id", number(5)),
        ("targetUri", text("file:///a.rs")),
        ("result", object(vec![])),
    ]);
    assert_eq!(process_json(message), LspPayload::LocationLink(object(vec![])));
    let message = object(vec![("id", number(6)), ("result", object(vec![("uri", text("x"))]))]);
    assert_eq!(process_json(message), LspPayload::NullLocation);
    let message = object(vec![("id", number(6)), ("result", text("x"))]);
    assert_eq!(process_json(message), LspPayload::Nothing);
}

#[test]
fn process_json_answers_nothing_for_other_numbers_and_shapes() {
    assert_eq!(process_json(object(vec![("id", number(9)), ("result", JsonValue::Null)])), LspPayload::Nothing);
    assert_eq!(process_json(object(vec![("id", text("1")), ("result", JsonValue::Null)])), LspPayload::Nothing);
    assert_eq!(
        process_json(object(vec![("id", JsonValue::Number(JsonNumber::Float("1.0".to_string())))])),
        LspPayload::Nothing
    );
    assert_eq!(process_json(object(vec![("id", JsonValue::Number(JsonNumber::NegInt(-1)))])), LspPayload::Nothing);
    assert_eq!(process_json(object(vec![("id", JsonValue::Null)])), LspPayload::Nothing);
    assert_eq!(process_json(JsonValue::Array(vec![])), LspPayload::Nothing);
}

#[test]
fn next_match_passes_the_run_at_the_cursor() {
    let mut m = SearchMode::new();
    m.set_found_positions(&vec![12, 5, 3, 4, 5]);
    assert_eq!(m.next_match(0, &vec![]), Some(3));
    assert_eq!(m.next_match(3, &vec![]), Some(12));
    assert_eq!(m.next_match(4, &vec![]), Some(12));
    assert_eq!(m.next_match(7, &vec![]), Some(12));
}

#[test]
fn next_match_adds_the_rest_of_the_file_past_the_last_place() {
    let mut settings = Settings::default();
    let mut m = SearchMode::new();
    m.add_settings(&settings);
    m.process_keypress(key('a'), &mut settings.mode_keybindings);
    m.set_found_positions(&vec![8, 9]);
    assert_eq!(m.next_match(8, &vec![2, 20]), Some(2));
    assert_eq!(m.next_match(9, &vec![]), Some(20));
}

#[test]
fn next_match_finds_nothing_where_nothing_was_found() {
    let mut m = SearchMode::new();
    assert_eq!(m.next_match(0, &vec![1, 2]), None);
    assert_eq!(m.previous_match(0, &vec![1, 2]), None);
}

#[test]
fn previous_match_passes_the_run_that_ends_at_the_cursor() {
    let mut m = SearchMode::new();
    m.set_found_positions(&vec![2, 8, 9, 10]);
    assert_eq!(m.previous_match(10, &vec![]), Some(2));
    assert_eq!(m.previous_match(7, &vec![]), Some(2));
    assert_eq!(m.previous_match(20, &vec![]), Some(10));
}

#[test]
fn previous_match_walks_again_after_adding_the_rest_of_the_file() {
    let mut settings = Settings::default();
    let mut m = SearchMode::new();
    m.add_settings(&settings);
    m.process_keypress(key('a'), &mut settings.mode_keybindings);
    m.set_found_positions(&vec![5, 6]);
    assert_eq!(m.previous_match(6, &vec![1, 30]), Some(1));
    m.set_found_positions(&vec![5, 6]);
    assert_eq!(m.previous_match(6, &vec![40]), Some(40));
}

#[test]
fn influence_cursor_places_the_cursor_after_the_mode_name() {
    let mut settings = Settings::default();
    let mut m = SearchMode::new();
    m.add_settings(&settings);
    assert_eq!(m.influence_cursor(), Some(8));
    m.process_keypress(key('a'), &mut settings.mode_keybindings);
    assert_eq!(m.influence_cursor(), Some(9));
    let c = CommandMode::new();
    assert_eq!(c.influence_cursor(), Some(9));
    let p = PairMode::new();
    assert_eq!(p.influence_cursor(), Some(6));
}

#[test]
fn legend_numbers_types_and_gives_modifiers_their_bits() {
    let raw = SemanticTokensLegendRaw {
        tokenTypes: vec!["keyword".to_string(), "function".to_string()],
        tokenModifiers: vec!["static".to_string(), "async".to_string(), "deprecated".to_string()],
    };
    let legend = raw.into_legend();
    assert_eq!(legend.token_types.get(&0), Some(&"keyword".to_string()));
    assert_eq!(legend.token_types.get(&1), Some(&"function".to_string()));
    assert_eq!(legend.token_types.len(), 2);
    assert_eq!(
        legend.token_modifiers,
        vec![(1, "static".to_string()), (2, "async".to_string()), (4, "deprecated".to_string())]
    );
}

#[test]
fn commands_split_at_the_white_space_that_std_knows() {
    for u in 0u32..0x3100 {
        if let Some(c) = char::from_u32(u) {
            let command = format!("x{}y", c);
            let (first, second) = split_command(&command);
            if c.is_whitespace() {
                assert_eq!((first.as_str(), second.as_deref()), ("x", Some("y")), "{:?}", c);
            } else {
                assert_eq!(first, command, "{:?}", c);
                assert_eq!(second, None, "{:?}", c);
            }
        }
    }
}

#[test]
fn pair_mode_execute_wraps_the_selection_and_goes_to_the_default_mode() {
    let mut b = ModeKeybindings::default();
    let settings = Settings::default();
    let mut m = PairMode::new();
    m.add_settings(&settings);
    m.set_pairs(vec![("(".to_string(), ")".to_string())]);
    m.process_keypress(key('('), &mut b);
    assert_eq!(
        commands(&m.execute_command("execute")),
        vec!["<pairs ( )>".to_string(), "clear_selection".to_string(), format!("change_mode {}", settings.editor_settings.default_mode)]
    );
}

#[test]
fn pair_mode_execute_without_a_pair_says_so() {
    let mut b = ModeKeybindings::default();
    let settings = Settings::default();
    let mut m = PairMode::new();
    m.add_settings(&settings);
    m.process_keypress(key('<'), &mut b);
    assert_eq!(
        commands(&m.execute_command("execute")),
        vec!["<message No pair found for <>".to_string(), "clear_selection".to_string(), format!("change_mode {}", settings.editor_settings.default_mode)]
    );
}
