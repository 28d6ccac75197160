use sevi::commands::EditorAction;
use sevi::cursor::CursorMovement;
use sevi::events::AppEvent;
use sevi::pane_commands::{
    parse_pane_command, parse_place, parse_usize, split_words, ModeChange, PaneCommand, PasteDirection,
    RegisterChoice,
};
use sevi::registers::{RegisterMessage, Registers};

#[test]
fn words_are_split_on_white_space() {
    assert_eq!(split_words("  move  left 3 "), vec!["move", "left", "3"]);
    assert!(split_words("   ").is_empty());
}

#[test]
fn numbers_are_read_as_str_parse_reads_them() {
    assert_eq!(parse_usize("42"), Some(42));
    assert_eq!(parse_usize("+7"), Some(7));
    assert_eq!(parse_usize("+"), None);
    assert_eq!(parse_usize(""), None);
    assert_eq!(parse_usize("-1"), None);
    assert_eq!(parse_usize("4x"), None);
    assert_eq!(parse_usize("99999999999999999999999"), None);
}

#[test]
fn places_are_read() {
    assert_eq!(parse_place("3,4"), Some((3, 4)));
    assert_eq!(parse_place("3,4,5"), Some((3, 4)));
    assert_eq!(parse_place("3"), None);
    assert_eq!(parse_place("3,x"), None);
}

#[test]
fn pane_commands_are_read() {
    assert_eq!(parse_pane_command("move down 3", "Normal"), PaneCommand::Move(CursorMovement::Down, 3));
    assert_eq!(parse_pane_command("move left", "Normal"), PaneCommand::Move(CursorMovement::Left, 1));
    assert_eq!(parse_pane_command("move sideways", "Normal"), PaneCommand::Invalid);
    assert_eq!(parse_pane_command("move to 2,7", "Normal"), PaneCommand::MoveTo(2, 7));
    assert_eq!(parse_pane_command("move to_byte 12", "Normal"), PaneCommand::MoveToByte(12));
    assert_eq!(parse_pane_command("goto_line 9", "Normal"), PaneCommand::GotoLine(9));
    assert_eq!(parse_pane_command("change_mode", "Insert"), PaneCommand::ChangeMode(ModeChange::Insert));
    assert_eq!(
        parse_pane_command("change_mode selection_line", "Normal"),
        PaneCommand::ChangeMode(ModeChange::SelectionLine)
    );
    assert_eq!(parse_pane_command("change_mode Pair", "Normal"), PaneCommand::Invalid);
    assert_eq!(parse_pane_command("select row", "Normal"), PaneCommand::SelectRow(0));
    assert_eq!(
        parse_pane_command("select 1,2 3,4", "Normal"),
        PaneCommand::Select { start: (1, 2), end: (3, 4) }
    );
    assert_eq!(parse_pane_command("select 1,2 3", "Normal"), PaneCommand::Invalid);
    assert_eq!(parse_pane_command("clear_selection", "Normal"), PaneCommand::ClearSelection);
    assert_eq!(parse_pane_command("undo", "Normal"), PaneCommand::Undo);
    assert_eq!(parse_pane_command("frobnicate", "Normal"), PaneCommand::Nothing);
    assert_eq!(parse_pane_command("q", "Normal"), PaneCommand::Editor(EditorAction::Send(AppEvent::Close)));
}

#[test]
fn edit_commands_choose_registers() {
    assert_eq!(
        parse_pane_command("paste after 3", "Normal"),
        PaneCommand::Paste { direction: PasteDirection::After, register: RegisterChoice::Numbered(3) }
    );
    assert_eq!(
        parse_pane_command("paste sideways", "Normal"),
        PaneCommand::Paste { direction: PasteDirection::Unknown, register: RegisterChoice::Clipboard }
    );
    assert_eq!(
        parse_pane_command("copy line a", "Normal"),
        PaneCommand::Copy { verb: "line".to_string(), register: RegisterChoice::Named("a".to_string()) }
    );
    assert_eq!(parse_pane_command("copy nothing", "Normal"), PaneCommand::Invalid);
    assert_eq!(parse_pane_command("delete word", "Normal"), PaneCommand::DeleteText { verb: "word".to_string() });
    assert_eq!(parse_pane_command("delete", "Normal"), PaneCommand::Nothing);
}

#[test]
fn registers_give_back_what_was_stored() {
    let mut r = Registers::new();
    let stored = RegisterChoice::Named("a".to_string()).store("hello".to_string());
    assert!(r.handle_message(stored).is_none());
    match r.handle_message(RegisterChoice::Named("a".to_string()).request()) {
        Some(RegisterMessage::RegisterResult(Some(t), None)) => assert_eq!(t, "hello"),
        _ => panic!("no reply"),
    }
    r.handle_message(RegisterMessage::AddNumbered(2, "two".to_string()));
    r.handle_message(RegisterMessage::AddNumbered(2, "deux".to_string()));
    assert_eq!(r.get_numbered(2).cloned(), Some("deux".to_string()));
    assert!(r.get_numbered(3).is_none());
    match r.handle_message(RegisterMessage::GetNamed("b".to_string())) {
        Some(RegisterMessage::RegisterResult(None, None)) => {},
        _ => panic!("unexpected reply"),
    }
    assert!(r.handle_message(RegisterMessage::Quit).is_none());
    assert!(r.has_quit());
}

#[test]
fn multi_copies_are_handed_back_once() {
    let mut r = Registers::new();
    r.handle_message(RegisterMessage::SetMulti(vec!["a".to_string(), "b".to_string()]));
    match r.handle_message(RegisterMessage::GetClipboard) {
        Some(RegisterMessage::RegisterResult(_, Some(m))) => assert_eq!(m, vec!["a".to_string(), "b".to_string()]),
        _ => panic!("no texts kept apart"),
    }
    match r.handle_message(RegisterMessage::GetClipboard) {
        Some(RegisterMessage::RegisterResult(_, None)) => {},
        _ => panic!("texts kept apart twice"),
    }
}
