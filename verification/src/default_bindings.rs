use vstd::prelude::*;
use vstd::string::StringExecFns;
use crate::key::{Key, KeyEvent, KeyModifiers};
use crate::keybindings::Bindings;

verus! {

/// The sequence of the one key event `a`.
fn one_key(a: KeyEvent) -> (v: Vec<KeyEvent>)
    ensures
        v@ == seq![a],
{
    let mut v = Vec::new();
    v.push(a);
    assert(v@ =~= seq![a]);
    v
}

/// The sequence of the key events `a` and then `b`.
fn two_keys(a: KeyEvent, b: KeyEvent) -> (v: Vec<KeyEvent>)
    ensures
        v@ == seq![a, b],
{
    let mut v = Vec::new();
    v.push(a);
    v.push(b);
    assert(v@ =~= seq![a, b]);
    v
}

/// The sequence of the key events `a`, `b` and then `c`.
fn three_keys(a: KeyEvent, b: KeyEvent, c: KeyEvent) -> (v: Vec<KeyEvent>)
    ensures
        v@ == seq![a, b, c],
{
    let mut v = Vec::new();
    v.push(a);
    v.push(b);
    v.push(c);
    assert(v@ =~= seq![a, b, c]);
    v
}

/// The default bindings of the universal table, in the order they are made.
pub open spec fn universal_table() -> Map<Seq<KeyEvent>, Seq<char>> {
    Map::empty()
        .insert(seq![KeyEvent { key: Key::Right, modifiers: KeyModifiers { bits: 0 } }], "right"@)
        .insert(seq![KeyEvent { key: Key::Left, modifiers: KeyModifiers { bits: 0 } }], "left"@)
        .insert(seq![KeyEvent { key: Key::Down, modifiers: KeyModifiers { bits: 0 } }], "down"@)
        .insert(seq![KeyEvent { key: Key::Up, modifiers: KeyModifiers { bits: 0 } }], "up"@)
        .insert(seq![KeyEvent { key: Key::Home, modifiers: KeyModifiers { bits: 0 } }], "start_of_file"@)
        .insert(seq![KeyEvent { key: Key::End, modifiers: KeyModifiers { bits: 0 } }], "end_of_file"@)
        .insert(seq![KeyEvent { key: Key::PageUp, modifiers: KeyModifiers { bits: 0 } }], "page_up"@)
        .insert(seq![KeyEvent { key: Key::Char('b'), modifiers: KeyModifiers { bits: 2 } }], "page_up"@)
        .insert(seq![KeyEvent { key: Key::PageDown, modifiers: KeyModifiers { bits: 0 } }], "page_down"@)
        .insert(seq![KeyEvent { key: Key::Char('f'), modifiers: KeyModifiers { bits: 2 } }], "page_down"@)
        .insert(seq![KeyEvent { key: Key::Char('u'), modifiers: KeyModifiers { bits: 2 } }], "half_page_up"@)
        .insert(seq![KeyEvent { key: Key::Char('d'), modifiers: KeyModifiers { bits: 2 } }], "half_page_down"@)
        .insert(seq![KeyEvent { key: Key::Char('w'), modifiers: KeyModifiers { bits: 2 } }, KeyEvent { key: Key::Char('s'), modifiers: KeyModifiers { bits: 0 } }], "split_horizontal"@)
        .insert(seq![KeyEvent { key: Key::Char('w'), modifiers: KeyModifiers { bits: 2 } }, KeyEvent { key: Key::Char('v'), modifiers: KeyModifiers { bits: 0 } }], "split_vertical"@)
        .insert(seq![KeyEvent { key: Key::Char('w'), modifiers: KeyModifiers { bits: 2 } }, KeyEvent { key: Key::Char('h'), modifiers: KeyModifiers { bits: 0 } }], "pane_left"@)
        .insert(seq![KeyEvent { key: Key::Char('w'), modifiers: KeyModifiers { bits: 2 } }, KeyEvent { key: Key::Left, modifiers: KeyModifiers { bits: 0 } }], "pane_left"@)
        .insert(seq![KeyEvent { key: Key::Char('w'), modifiers: KeyModifiers { bits: 2 } }, KeyEvent { key: Key::Char('l'), modifiers: KeyModifiers { bits: 0 } }], "pane_right"@)
        .insert(seq![KeyEvent { key: Key::Char('w'), modifiers: KeyModifiers { bits: 2 } }, KeyEvent { key: Key::Right, modifiers: KeyModifiers { bits: 0 } }], "pane_right"@)
        .insert(seq![KeyEvent { key: Key::Char('w'), modifiers: KeyModifiers { bits: 2 } }, KeyEvent { key: Key::Char('k'), modifiers: KeyModifiers { bits: 0 } }], "pane_up"@)
        .insert(seq![KeyEvent { key: Key::Char('w'), modifiers: KeyModifiers { bits: 2 } }, KeyEvent { key: Key::Up, modifiers: KeyModifiers { bits: 0 } }], "pane_up"@)
        .insert(seq![KeyEvent { key: Key::Char('w'), modifiers: KeyModifiers { bits: 2 } }, KeyEvent { key: Key::Char('j'), modifiers: KeyModifiers { bits: 0 } }], "pane_down"@)
        .insert(seq![KeyEvent { key: Key::Char('w'), modifiers: KeyModifiers { bits: 2 } }, KeyEvent { key: Key::Down, modifiers: KeyModifiers { bits: 0 } }], "pane_down"@)
        .insert(seq![KeyEvent { key: Key::Char('t'), modifiers: KeyModifiers { bits: 2 } }, KeyEvent { key: Key::Char('t'), modifiers: KeyModifiers { bits: 0 } }], "new_tab"@)
        .insert(seq![KeyEvent { key: Key::Char('t'), modifiers: KeyModifiers { bits: 2 } }, KeyEvent { key: Key::Char('T'), modifiers: KeyModifiers { bits: 0 } }], "new_tab_current_pane"@)
        .insert(seq![KeyEvent { key: Key::Char('t'), modifiers: KeyModifiers { bits: 2 } }, KeyEvent { key: Key::Char('h'), modifiers: KeyModifiers { bits: 0 } }], "tab_left"@)
        .insert(seq![KeyEvent { key: Key::Char('t'), modifiers: KeyModifiers { bits: 2 } }, KeyEvent { key: Key::Left, modifiers: KeyModifiers { bits: 0 } }], "tab_left"@)
        .insert(seq![KeyEvent { key: Key::Char('t'), modifiers: KeyModifiers { bits: 2 } }, KeyEvent { key: Key::Char('l'), modifiers: KeyModifiers { bits: 0 } }], "tab_right"@)
        .insert(seq![KeyEvent { key: Key::Char('t'), modifiers: KeyModifiers { bits: 2 } }, KeyEvent { key: Key::Right, modifiers: KeyModifiers { bits: 0 } }], "tab_right"@)
        .insert(seq![KeyEvent { key: Key::Char('i'), modifiers: KeyModifiers { bits: 2 } }], "jump_forwards"@)
        .insert(seq![KeyEvent { key: Key::Char('o'), modifiers: KeyModifiers { bits: 2 } }], "jump_backwards"@)
        .insert(seq![KeyEvent { key: Key::Esc, modifiers: KeyModifiers { bits: 0 } }], "cancel"@)
}

/// The default bindings of the normal table, in the order they are made.
pub open spec fn normal_table() -> Map<Seq<KeyEvent>, Seq<char>> {
    Map::empty()
        .insert(seq![KeyEvent { key: Key::Char('l'), modifiers: KeyModifiers { bits: 0 } }], "right"@)
        .insert(seq![KeyEvent { key: Key::Char(' '), modifiers: KeyModifiers { bits: 0 } }], "right"@)
        .insert(seq![KeyEvent { key: Key::Char('h'), modifiers: KeyModifiers { bits: 0 } }], "left"@)
        .insert(seq![KeyEvent { key: Key::Backspace, modifiers: KeyModifiers { bits: 0 } }], "left"@)
        .insert(seq![KeyEvent { key: Key::Char('j'), modifiers: KeyModifiers { bits: 0 } }], "down"@)
        .insert(seq![KeyEvent { key: Key::Enter, modifiers: KeyModifiers { bits: 0 } }], "down"@)
        .insert(seq![KeyEvent { key: Key::Char('k'), modifiers: KeyModifiers { bits: 0 } }], "up"@)
        .insert(seq![KeyEvent { key: Key::Char('0'), modifiers: KeyModifiers { bits: 0 } }], "start_of_line"@)
        .insert(seq![KeyEvent { key: Key::Char('$'), modifiers: KeyModifiers { bits: 0 } }], "end_of_line"@)
        .insert(seq![KeyEvent { key: Key::Char('-'), modifiers: KeyModifiers { bits: 0 } }], "up_line_start"@)
        .insert(seq![KeyEvent { key: Key::Char('+'), modifiers: KeyModifiers { bits: 0 } }], "down_line_start"@)
        .insert(seq![KeyEvent { key: Key::Char('g'), modifiers: KeyModifiers { bits: 0 } }, KeyEvent { key: Key::Char('g'), modifiers: KeyModifiers { bits: 0 } }], "start_of_file"@)
        .insert(seq![KeyEvent { key: Key::Char('G'), modifiers: KeyModifiers { bits: 0 } }, KeyEvent { key: Key::Char('G'), modifiers: KeyModifiers { bits: 0 } }], "end_of_file"@)
        .insert(seq![KeyEvent { key: Key::Char('G'), modifiers: KeyModifiers { bits: 0 } }], "goto_line"@)
        .insert(seq![KeyEvent { key: Key::Char('b'), modifiers: KeyModifiers { bits: 2 } }], "page_up"@)
        .insert(seq![KeyEvent { key: Key::Char('f'), modifiers: KeyModifiers { bits: 2 } }], "page_down"@)
        .insert(seq![KeyEvent { key: Key::Char('u'), modifiers: KeyModifiers { bits: 2 } }], "half_page_up"@)
        .insert(seq![KeyEvent { key: Key::Char('d'), modifiers: KeyModifiers { bits: 2 } }], "half_page_down"@)
        .insert(seq![KeyEvent { key: Key::Char('w'), modifiers: KeyModifiers { bits: 0 } }], "next_word_front"@)
        .insert(seq![KeyEvent { key: Key::Char('B'), modifiers: KeyModifiers { bits: 0 } }], "next_word_back"@)
        .insert(seq![KeyEvent { key: Key::Char('W'), modifiers: KeyModifiers { bits: 0 } }], "previous_word_front"@)
        .insert(seq![KeyEvent { key: Key::Char('b'), modifiers: KeyModifiers { bits: 0 } }], "previous_word_back"@)
        .insert(seq![KeyEvent { key: Key::Char('%'), modifiers: KeyModifiers { bits: 0 } }], "goto_pair"@)
        .insert(seq![KeyEvent { key: Key::Char('}'), modifiers: KeyModifiers { bits: 0 } }], "jump_paragraph"@)
        .insert(seq![KeyEvent { key: Key::Char('{'), modifiers: KeyModifiers { bits: 0 } }], "jump_paragraph_back"@)
        .insert(seq![KeyEvent { key: Key::Char('i'), modifiers: KeyModifiers { bits: 0 } }], "insert_before"@)
        .insert(seq![KeyEvent { key: Key::Char('a'), modifiers: KeyModifiers { bits: 0 } }], "insert_after"@)
        .insert(seq![KeyEvent { key: Key::Char('I'), modifiers: KeyModifiers { bits: 0 } }], "insert_start"@)
        .insert(seq![KeyEvent { key: Key::Char('A'), modifiers: KeyModifiers { bits: 0 } }], "insert_end"@)
        .insert(seq![KeyEvent { key: Key::Char('o'), modifiers: KeyModifiers { bits: 0 } }], "insert_below"@)
        .insert(seq![KeyEvent { key: Key::Char('O'), modifiers: KeyModifiers { bits: 0 } }], "insert_above"@)
        .insert(seq![KeyEvent { key: Key::Char(':'), modifiers: KeyModifiers { bits: 0 } }], "command_mode"@)
        .insert(seq![KeyEvent { key: Key::Char('v'), modifiers: KeyModifiers { bits: 0 } }], "selection_mode"@)
        .insert(seq![KeyEvent { key: Key::Char('V'), modifiers: KeyModifiers { bits: 0 } }], "selection_mode_line"@)
        .insert(seq![KeyEvent { key: Key::Char('v'), modifiers: KeyModifiers { bits: 2 } }], "selection_mode_block"@)
        .insert(seq![KeyEvent { key: Key::Char('/'), modifiers: KeyModifiers { bits: 0 } }], "search_mode_down"@)
        .insert(seq![KeyEvent { key: Key::Char('?'), modifiers: KeyModifiers { bits: 0 } }], "search_mode_up"@)
        .insert(seq![KeyEvent { key: Key::Char('R'), modifiers: KeyModifiers { bits: 0 } }], "replace_mode"@)
        .insert(seq![KeyEvent { key: Key::Char('P'), modifiers: KeyModifiers { bits: 0 } }], "paste_before"@)
        .insert(seq![KeyEvent { key: Key::Char('p'), modifiers: KeyModifiers { bits: 0 } }], "paste_after"@)
        .insert(seq![KeyEvent { key: Key::Char('y'), modifiers: KeyModifiers { bits: 0 } }, KeyEvent { key: Key::Char('y'), modifiers: KeyModifiers { bits: 0 } }], "copy_char"@)
        .insert(seq![KeyEvent { key: Key::Char('Y'), modifiers: KeyModifiers { bits: 0 } }], "copy_char"@)
        .insert(seq![KeyEvent { key: Key::Char('y'), modifiers: KeyModifiers { bits: 0 } }, KeyEvent { key: Key::Char('l'), modifiers: KeyModifiers { bits: 0 } }], "copy_line"@)
        .insert(seq![KeyEvent { key: Key::Char('y'), modifiers: KeyModifiers { bits: 0 } }, KeyEvent { key: Key::Char('w'), modifiers: KeyModifiers { bits: 0 } }], "copy_word"@)
        .insert(seq![KeyEvent { key: Key::Char('y'), modifiers: KeyModifiers { bits: 0 } }, KeyEvent { key: Key::Char('n'), modifiers: KeyModifiers { bits: 0 } }, KeyEvent { key: Key::Char('w'), modifiers: KeyModifiers { bits: 0 } }], "copy_to_next_word"@)
        .insert(seq![KeyEvent { key: Key::Char('y'), modifiers: KeyModifiers { bits: 0 } }, KeyEvent { key: Key::Char('p'), modifiers: KeyModifiers { bits: 0 } }, KeyEvent { key: Key::Char('w'), modifiers: KeyModifiers { bits: 0 } }], "copy_to_prev_word"@)
        .insert(seq![KeyEvent { key: Key::Char('y'), modifiers: KeyModifiers { bits: 0 } }, KeyEvent { key: Key::Char('$'), modifiers: KeyModifiers { bits: 0 } }], "copy_to_end_line"@)
        .insert(seq![KeyEvent { key: Key::Char('y'), modifiers: KeyModifiers { bits: 0 } }, KeyEvent { key: Key::Char('e'), modifiers: KeyModifiers { bits: 0 } }], "copy_to_end_line"@)
        .insert(seq![KeyEvent { key: Key::Char('y'), modifiers: KeyModifiers { bits: 0 } }, KeyEvent { key: Key::Char('s'), modifiers: KeyModifiers { bits: 0 } }], "copy_to_start_line"@)
        .insert(seq![KeyEvent { key: Key::Char('x'), modifiers: KeyModifiers { bits: 0 } }, KeyEvent { key: Key::Char('x'), modifiers: KeyModifiers { bits: 0 } }], "cut_char"@)
        .insert(seq![KeyEvent { key: Key::Char('X'), modifiers: KeyModifiers { bits: 0 } }], "cut_char"@)
        .insert(seq![KeyEvent { key: Key::Char('x'), modifiers: KeyModifiers { bits: 0 } }, KeyEvent { key: Key::Char('l'), modifiers: KeyModifiers { bits: 0 } }], "cut_line"@)
        .insert(seq![KeyEvent { key: Key::Char('x'), modifiers: KeyModifiers { bits: 0 } }, KeyEvent { key: Key::Char('w'), modifiers: KeyModifiers { bits: 0 } }], "cut_word"@)
        .insert(seq![KeyEvent { key: Key::Char('x'), modifiers: KeyModifiers { bits: 0 } }, KeyEvent { key: Key::Char('n'), modifiers: KeyModifiers { bits: 0 } }, KeyEvent { key: Key::Char('w'), modifiers: KeyModifiers { bits: 0 } }], "cut_to_next_word"@)
        .insert(seq![KeyEvent { key: Key::Char('x'), modifiers: KeyModifiers { bits: 0 } }, KeyEvent { key: Key::Char('p'), modifiers: KeyModifiers { bits: 0 } }, KeyEvent { key: Key::Char('w'), modifiers: KeyModifiers { bits: 0 } }], "cut_to_prev_word"@)
        .insert(seq![KeyEvent { key: Key::Char('x'), modifiers: KeyModifiers { bits: 0 } }, KeyEvent { key: Key::Char('$'), modifiers: KeyModifiers { bits: 0 } }], "cut_to_end_line"@)
        .insert(seq![KeyEvent { key: Key::Char('d'), modifiers: KeyModifiers { bits: 0 } }, KeyEvent { key: Key::Char('e'), modifiers: KeyModifiers { bits: 0 } }], "cut_to_end"@)
        .insert(seq![KeyEvent { key: Key::Char('x'), modifiers: KeyModifiers { bits: 0 } }, KeyEvent { key: Key::Char('s'), modifiers: KeyModifiers { bits: 0 } }], "cut_to_end"@)
        .insert(seq![KeyEvent { key: Key::Char('d'), modifiers: KeyModifiers { bits: 0 } }, KeyEvent { key: Key::Char('d'), modifiers: KeyModifiers { bits: 0 } }], "delete_char"@)
        .insert(seq![KeyEvent { key: Key::Char('D'), modifiers: KeyModifiers { bits: 0 } }], "delete_char"@)
        .insert(seq![KeyEvent { key: Key::Char('d'), modifiers: KeyModifiers { bits: 0 } }, KeyEvent { key: Key::Char('l'), modifiers: KeyModifiers { bits: 0 } }], "delete_line"@)
        .insert(seq![KeyEvent { key: Key::Char('d'), modifiers: KeyModifiers { bits: 0 } }, KeyEvent { key: Key::Char('w'), modifiers: KeyModifiers { bits: 0 } }], "delete_word"@)
        .insert(seq![KeyEvent { key: Key::Char('d'), modifiers: KeyModifiers { bits: 0 } }, KeyEvent { key: Key::Char('n'), modifiers: KeyModifiers { bits: 0 } }, KeyEvent { key: Key::Char('w'), modifiers: KeyModifiers { bits: 0 } }], "delete_to_next_word"@)
        .insert(seq![KeyEvent { key: Key::Char('d'), modifiers: KeyModifiers { bits: 0 } }, KeyEvent { key: Key::Char('p'), modifiers: KeyModifiers { bits: 0 } }, KeyEvent { key: Key::Char('w'), modifiers: KeyModifiers { bits: 0 } }], "delete_to_prev_word"@)
        .insert(seq![KeyEvent { key: Key::Char('d'), modifiers: KeyModifiers { bits: 0 } }, KeyEvent { key: Key::Char('$'), modifiers: KeyModifiers { bits: 0 } }], "delete_to_end_line"@)
        .insert(seq![KeyEvent { key: Key::Char('d'), modifiers: KeyModifiers { bits: 0 } }, KeyEvent { key: Key::Char('e'), modifiers: KeyModifiers { bits: 0 } }], "delete_to_end"@)
        .insert(seq![KeyEvent { key: Key::Char('d'), modifiers: KeyModifiers { bits: 0 } }, KeyEvent { key: Key::Char('s'), modifiers: KeyModifiers { bits: 0 } }], "delete_to_start"@)
        .insert(seq![KeyEvent { key: Key::Char('n'), modifiers: KeyModifiers { bits: 2 } }], "open_completion"@)
        .insert(seq![KeyEvent { key: Key::Char('u'), modifiers: KeyModifiers { bits: 0 } }], "undo"@)
        .insert(seq![KeyEvent { key: Key::Char('r'), modifiers: KeyModifiers { bits: 2 } }], "redo"@)
        .insert(seq![KeyEvent { key: Key::Char('r'), modifiers: KeyModifiers { bits: 0 } }], "replace"@)
}

/// The default bindings of the insert table, in the order they are made.
pub open spec fn insert_table() -> Map<Seq<KeyEvent>, Seq<char>> {
    Map::empty()
        .insert(seq![KeyEvent { key: Key::Char('n'), modifiers: KeyModifiers { bits: 2 } }], "open_completion"@)
        .insert(seq![KeyEvent { key: Key::Backspace, modifiers: KeyModifiers { bits: 0 } }], "backspace"@)
        .insert(seq![KeyEvent { key: Key::Delete, modifiers: KeyModifiers { bits: 0 } }], "delete"@)
        .insert(seq![KeyEvent { key: Key::Esc, modifiers: KeyModifiers { bits: 0 } }], "cancel"@)
        .insert(seq![KeyEvent { key: Key::Enter, modifiers: KeyModifiers { bits: 0 } }], "newline"@)
        .insert(seq![KeyEvent { key: Key::Tab, modifiers: KeyModifiers { bits: 0 } }], "tab"@)
}

/// The default bindings of the command table, in the order they are made.
pub open spec fn command_table() -> Map<Seq<KeyEvent>, Seq<char>> {
    Map::empty()
        .insert(seq![KeyEvent { key: Key::Up, modifiers: KeyModifiers { bits: 0 } }], "start"@)
        .insert(seq![KeyEvent { key: Key::Down, modifiers: KeyModifiers { bits: 0 } }], "end"@)
        .insert(seq![KeyEvent { key: Key::Enter, modifiers: KeyModifiers { bits: 0 } }], "execute"@)
        .insert(seq![KeyEvent { key: Key::Backspace, modifiers: KeyModifiers { bits: 0 } }], "backspace"@)
        .insert(seq![KeyEvent { key: Key::Delete, modifiers: KeyModifiers { bits: 0 } }], "delete"@)
}

/// The default bindings of the selection table, in the order they are made.
pub open spec fn selection_table() -> Map<Seq<KeyEvent>, Seq<char>> {
    Map::empty()
        .insert(seq![KeyEvent { key: Key::Char('p'), modifiers: KeyModifiers { bits: 0 } }], "paste"@)
        .insert(seq![KeyEvent { key: Key::Char('y'), modifiers: KeyModifiers { bits: 0 } }], "copy"@)
        .insert(seq![KeyEvent { key: Key::Char('x'), modifiers: KeyModifiers { bits: 0 } }], "cut"@)
        .insert(seq![KeyEvent { key: Key::Char('d'), modifiers: KeyModifiers { bits: 0 } }], "delete"@)
        .insert(seq![KeyEvent { key: Key::Char('l'), modifiers: KeyModifiers { bits: 0 } }], "right"@)
        .insert(seq![KeyEvent { key: Key::Char(' '), modifiers: KeyModifiers { bits: 0 } }], "right"@)
        .insert(seq![KeyEvent { key: Key::Char('h'), modifiers: KeyModifiers { bits: 0 } }], "left"@)
        .insert(seq![KeyEvent { key: Key::Backspace, modifiers: KeyModifiers { bits: 0 } }], "left"@)
        .insert(seq![KeyEvent { key: Key::Char('j'), modifiers: KeyModifiers { bits: 0 } }], "down"@)
        .insert(seq![KeyEvent { key: Key::Enter, modifiers: KeyModifiers { bits: 0 } }], "down"@)
        .insert(seq![KeyEvent { key: Key::Char('k'), modifiers: KeyModifiers { bits: 0 } }], "up"@)
        .insert(seq![KeyEvent { key: Key::Char('0'), modifiers: KeyModifiers { bits: 0 } }], "start_of_line"@)
        .insert(seq![KeyEvent { key: Key::Char('$'), modifiers: KeyModifiers { bits: 0 } }], "end_of_line"@)
        .insert(seq![KeyEvent { key: Key::Char('+'), modifiers: KeyModifiers { bits: 0 } }], "up_line_start"@)
        .insert(seq![KeyEvent { key: Key::Char('-'), modifiers: KeyModifiers { bits: 0 } }], "down_line_start"@)
        .insert(seq![KeyEvent { key: Key::Char('g'), modifiers: KeyModifiers { bits: 0 } }, KeyEvent { key: Key::Char('g'), modifiers: KeyModifiers { bits: 0 } }], "start_of_file"@)
        .insert(seq![KeyEvent { key: Key::Char('G'), modifiers: KeyModifiers { bits: 0 } }, KeyEvent { key: Key::Char('G'), modifiers: KeyModifiers { bits: 0 } }], "end_of_file"@)
        .insert(seq![KeyEvent { key: Key::Char('G'), modifiers: KeyModifiers { bits: 0 } }], "goto_line"@)
        .insert(seq![KeyEvent { key: Key::Char('b'), modifiers: KeyModifiers { bits: 2 } }], "page_up"@)
        .insert(seq![KeyEvent { key: Key::Char('f'), modifiers: KeyModifiers { bits: 2 } }], "page_down"@)
        .insert(seq![KeyEvent { key: Key::Char('u'), modifiers: KeyModifiers { bits: 2 } }], "half_page_up"@)
        .insert(seq![KeyEvent { key: Key::Char('d'), modifiers: KeyModifiers { bits: 2 } }], "half_page_down"@)
        .insert(seq![KeyEvent { key: Key::Char('w'), modifiers: KeyModifiers { bits: 0 } }], "next_word_front"@)
        .insert(seq![KeyEvent { key: Key::Char('B'), modifiers: KeyModifiers { bits: 0 } }], "next_word_back"@)
        .insert(seq![KeyEvent { key: Key::Char('W'), modifiers: KeyModifiers { bits: 0 } }], "previous_word_front"@)
        .insert(seq![KeyEvent { key: Key::Char('b'), modifiers: KeyModifiers { bits: 0 } }], "previous_word_back"@)
        .insert(seq![KeyEvent { key: Key::Char('%'), modifiers: KeyModifiers { bits: 0 } }], "goto_pair"@)
        .insert(seq![KeyEvent { key: Key::Char('}'), modifiers: KeyModifiers { bits: 0 } }], "jump_paragraph"@)
        .insert(seq![KeyEvent { key: Key::Char('{'), modifiers: KeyModifiers { bits: 0 } }], "jump_paragraph_back"@)
}

/// The default bindings of the search table, in the order they are made.
pub open spec fn search_table() -> Map<Seq<KeyEvent>, Seq<char>> {
    Map::empty()
        .insert(seq![KeyEvent { key: Key::Char('n'), modifiers: KeyModifiers { bits: 2 } }], "next_match"@)
        .insert(seq![KeyEvent { key: Key::Enter, modifiers: KeyModifiers { bits: 0 } }], "next_match"@)
        .insert(seq![KeyEvent { key: Key::Char('l'), modifiers: KeyModifiers { bits: 2 } }], "next_match"@)
        .insert(seq![KeyEvent { key: Key::Char('j'), modifiers: KeyModifiers { bits: 2 } }], "next_match"@)
        .insert(seq![KeyEvent { key: Key::Char('N'), modifiers: KeyModifiers { bits: 2 } }], "previous_match"@)
        .insert(seq![KeyEvent { key: Key::Backspace, modifiers: KeyModifiers { bits: 0 } }], "previous_match"@)
        .insert(seq![KeyEvent { key: Key::Char('k'), modifiers: KeyModifiers { bits: 2 } }], "previous_match"@)
        .insert(seq![KeyEvent { key: Key::Char('h'), modifiers: KeyModifiers { bits: 2 } }], "previous_match"@)
        .insert(seq![KeyEvent { key: Key::Esc, modifiers: KeyModifiers { bits: 0 } }], "cancel"@)
        .insert(seq![KeyEvent { key: Key::Backspace, modifiers: KeyModifiers { bits: 0 } }], "backspace"@)
        .insert(seq![KeyEvent { key: Key::Delete, modifiers: KeyModifiers { bits: 0 } }], "delete"@)
        .insert(seq![KeyEvent { key: Key::Char('p'), modifiers: KeyModifiers { bits: 2 } }], "paste"@)
        .insert(seq![KeyEvent { key: Key::Char('y'), modifiers: KeyModifiers { bits: 2 } }], "copy"@)
        .insert(seq![KeyEvent { key: Key::Char('x'), modifiers: KeyModifiers { bits: 2 } }], "cut"@)
        .insert(seq![KeyEvent { key: Key::Char('d'), modifiers: KeyModifiers { bits: 2 } }], "delete_search"@)
}

/// The default bindings of the universal table.
pub fn generate_universal_keybindings() -> (b: Bindings)
    ensures
        b@ == universal_table(),
{
    let mut b = Bindings::new();
    b.insert(one_key(KeyEvent::new(Key::Right, KeyModifiers::none())), String::from_str("right"));
    b.insert(one_key(KeyEvent::new(Key::Left, KeyModifiers::none())), String::from_str("left"));
    b.insert(one_key(KeyEvent::new(Key::Down, KeyModifiers::none())), String::from_str("down"));
    b.insert(one_key(KeyEvent::new(Key::Up, KeyModifiers::none())), String::from_str("up"));
    b.insert(one_key(KeyEvent::new(Key::Home, KeyModifiers::none())), String::from_str("start_of_file"));
    b.insert(one_key(KeyEvent::new(Key::End, KeyModifiers::none())), String::from_str("end_of_file"));
    b.insert(one_key(KeyEvent::new(Key::PageUp, KeyModifiers::none())), String::from_str("page_up"));
    b.insert(one_key(KeyEvent::new(Key::Char('b'), KeyModifiers::ctrl())), String::from_str("page_up"));
    b.insert(one_key(KeyEvent::new(Key::PageDown, KeyModifiers::none())), String::from_str("page_down"));
    b.insert(one_key(KeyEvent::new(Key::Char('f'), KeyModifiers::ctrl())), String::from_str("page_down"));
    b.insert(one_key(KeyEvent::new(Key::Char('u'), KeyModifiers::ctrl())), String::from_str("half_page_up"));
    b.insert(one_key(KeyEvent::new(Key::Char('d'), KeyModifiers::ctrl())), String::from_str("half_page_down"));
    b.insert(two_keys(KeyEvent::new(Key::Char('w'), KeyModifiers::ctrl()), KeyEvent::new(Key::Char('s'), KeyModifiers::none())), String::from_str("split_horizontal"));
    b.insert(two_keys(KeyEvent::new(Key::Char('w'), KeyModifiers::ctrl()), KeyEvent::new(Key::Char('v'), KeyModifiers::none())), String::from_str("split_vertical"));
    b.insert(two_keys(KeyEvent::new(Key::Char('w'), KeyModifiers::ctrl()), KeyEvent::new(Key::Char('h'), KeyModifiers::none())), String::from_str("pane_left"));
    b.insert(two_keys(KeyEvent::new(Key::Char('w'), KeyModifiers::ctrl()), KeyEvent::new(Key::Left, KeyModifiers::none())), String::from_str("pane_left"));
    b.insert(two_keys(KeyEvent::new(Key::Char('w'), KeyModifiers::ctrl()), KeyEvent::new(Key::Char('l'), KeyModifiers::none())), String::from_str("pane_right"));
    b.insert(two_keys(KeyEvent::new(Key::Char('w'), KeyModifiers::ctrl()), KeyEvent::new(Key::Right, KeyModifiers::none())), String::from_str("pane_right"));
    b.insert(two_keys(KeyEvent::new(Key::Char('w'), KeyModifiers::ctrl()), KeyEvent::new(Key::Char('k'), KeyModifiers::none())), String::from_str("pane_up"));
    b.insert(two_keys(KeyEvent::new(Key::Char('w'), KeyModifiers::ctrl()), KeyEvent::new(Key::Up, KeyModifiers::none())), String::from_str("pane_up"));
    b.insert(two_keys(KeyEvent::new(Key::Char('w'), KeyModifiers::ctrl()), KeyEvent::new(Key::Char('j'), KeyModifiers::none())), String::from_str("pane_down"));
    b.insert(two_keys(KeyEvent::new(Key::Char('w'), KeyModifiers::ctrl()), KeyEvent::new(Key::Down, KeyModifiers::none())), String::from_str("pane_down"));
    b.insert(two_keys(KeyEvent::new(Key::Char('t'), KeyModifiers::ctrl()), KeyEvent::new(Key::Char('t'), KeyModifiers::none())), String::from_str("new_tab"));
    b.insert(two_keys(KeyEvent::new(Key::Char('t'), KeyModifiers::ctrl()), KeyEvent::new(Key::Char('T'), KeyModifiers::none())), String::from_str("new_tab_current_pane"));
    b.insert(two_keys(KeyEvent::new(Key::Char('t'), KeyModifiers::ctrl()), KeyEvent::new(Key::Char('h'), KeyModifiers::none())), String::from_str("tab_left"));
    b.insert(two_keys(KeyEvent::new(Key::Char('t'), KeyModifiers::ctrl()), KeyEvent::new(Key::Left, KeyModifiers::none())), String::from_str("tab_left"));
    b.insert(two_keys(KeyEvent::new(Key::Char('t'), KeyModifiers::ctrl()), KeyEvent::new(Key::Char('l'), KeyModifiers::none())), String::from_str("tab_right"));
    b.insert(two_keys(KeyEvent::new(Key::Char('t'), KeyModifiers::ctrl()), KeyEvent::new(Key::Right, KeyModifiers::none())), String::from_str("tab_right"));
    b.insert(one_key(KeyEvent::new(Key::Char('i'), KeyModifiers::ctrl())), String::from_str("jump_forwards"));
    b.insert(one_key(KeyEvent::new(Key::Char('o'), KeyModifiers::ctrl())), String::from_str("jump_backwards"));
    b.insert(one_key(KeyEvent::new(Key::Esc, KeyModifiers::none())), String::from_str("cancel"));
    b
}

/// The default bindings of the normal table.
pub fn generate_normal_keybindings() -> (b: Bindings)
    ensures
        b@ == normal_table(),
{
    let mut b = Bindings::new();
    b.insert(one_key(KeyEvent::new(Key::Char('l'), KeyModifiers::none())), String::from_str("right"));
    b.insert(one_key(KeyEvent::new(Key::Char(' '), KeyModifiers::none())), String::from_str("right"));
    b.insert(one_key(KeyEvent::new(Key::Char('h'), KeyModifiers::none())), String::from_str("left"));
    b.insert(one_key(KeyEvent::new(Key::Backspace, KeyModifiers::none())), String::from_str("left"));
    b.insert(one_key(KeyEvent::new(Key::Char('j'), KeyModifiers::none())), String::from_str("down"));
    b.insert(one_key(KeyEvent::new(Key::Enter, KeyModifiers::none())), String::from_str("down"));
    b.insert(one_key(KeyEvent::new(Key::Char('k'), KeyModifiers::none())), String::from_str("up"));
    b.insert(one_key(KeyEvent::new(Key::Char('0'), KeyModifiers::none())), String::from_str("start_of_line"));
    b.insert(one_key(KeyEvent::new(Key::Char('$'), KeyModifiers::none())), String::from_str("end_of_line"));
    b.insert(one_key(KeyEvent::new(Key::Char('-'), KeyModifiers::none())), String::from_str("up_line_start"));
    b.insert(one_key(KeyEvent::new(Key::Char('+'), KeyModifiers::none())), String::from_str("down_line_start"));
    b.insert(two_keys(KeyEvent::new(Key::Char('g'), KeyModifiers::none()), KeyEvent::new(Key::Char('g'), KeyModifiers::none())), String::from_str("start_of_file"));
    b.insert(two_keys(KeyEvent::new(Key::Char('G'), KeyModifiers::none()), KeyEvent::new(Key::Char('G'), KeyModifiers::none())), String::from_str("end_of_file"));
    b.insert(one_key(KeyEvent::new(Key::Char('G'), KeyModifiers::none())), String::from_str("goto_line"));
    b.insert(one_key(KeyEvent::new(Key::Char('b'), KeyModifiers::ctrl())), String::from_str("page_up"));
    b.insert(one_key(KeyEvent::new(Key::Char('f'), KeyModifiers::ctrl())), String::from_str("page_down"));
    b.insert(one_key(KeyEvent::new(Key::Char('u'), KeyModifiers::ctrl())), String::from_str("half_page_up"));
    b.insert(one_key(KeyEvent::new(Key::Char('d'), KeyModifiers::ctrl())), String::from_str("half_page_down"));
    b.insert(one_key(KeyEvent::new(Key::Char('w'), KeyModifiers::none())), String::from_str("next_word_front"));
    b.insert(one_key(KeyEvent::new(Key::Char('B'), KeyModifiers::none())), String::from_str("next_word_back"));
    b.insert(one_key(KeyEvent::new(Key::Char('W'), KeyModifiers::none())), String::from_str("previous_word_front"));
    b.insert(one_key(KeyEvent::new(Key::Char('b'), KeyModifiers::none())), String::from_str("previous_word_back"));
    b.insert(one_key(KeyEvent::new(Key::Char('%'), KeyModifiers::none())), String::from_str("goto_pair"));
    b.insert(one_key(KeyEvent::new(Key::Char('}'), KeyModifiers::none())), String::from_str("jump_paragraph"));
    b.insert(one_key(KeyEvent::new(Key::Char('{'), KeyModifiers::none())), String::from_str("jump_paragraph_back"));
    b.insert(one_key(KeyEvent::new(Key::Char('i'), KeyModifiers::none())), String::from_str("insert_before"));
    b.insert(one_key(KeyEvent::new(Key::Char('a'), KeyModifiers::none())), String::from_str("insert_after"));
    b.insert(one_key(KeyEvent::new(Key::Char('I'), KeyModifiers::none())), String::from_str("insert_start"));
    b.insert(one_key(KeyEvent::new(Key::Char('A'), KeyModifiers::none())), String::from_str("insert_end"));
    b.insert(one_key(KeyEvent::new(Key::Char('o'), KeyModifiers::none())), String::from_str("insert_below"));
    b.insert(one_key(KeyEvent::new(Key::Char('O'), KeyModifiers::none())), String::from_str("insert_above"));
    b.insert(one_key(KeyEvent::new(Key::Char(':'), KeyModifiers::none())), String::from_str("command_mode"));
    b.insert(one_key(KeyEvent::new(Key::Char('v'), KeyModifiers::none())), String::from_str("selection_mode"));
    b.insert(one_key(KeyEvent::new(Key::Char('V'), KeyModifiers::none())), String::from_str("selection_mode_line"));
    b.insert(one_key(KeyEvent::new(Key::Char('v'), KeyModifiers::ctrl())), String::from_str("selection_mode_block"));
    b.insert(one_key(KeyEvent::new(Key::Char('/'), KeyModifiers::none())), String::from_str("search_mode_down"));
    b.insert(one_key(KeyEvent::new(Key::Char('?'), KeyModifiers::none())), String::from_str("search_mode_up"));
    b.insert(one_key(KeyEvent::new(Key::Char('R'), KeyModifiers::none())), String::from_str("replace_mode"));
    b.insert(one_key(KeyEvent::new(Key::Char('P'), KeyModifiers::none())), String::from_str("paste_before"));
    b.insert(one_key(KeyEvent::new(Key::Char('p'), KeyModifiers::none())), String::from_str("paste_after"));
    b.insert(two_keys(KeyEvent::new(Key::Char('y'), KeyModifiers::none()), KeyEvent::new(Key::Char('y'), KeyModifiers::none())), String::from_str("copy_char"));
    b.insert(one_key(KeyEvent::new(Key::Char('Y'), KeyModifiers::none())), String::from_str("copy_char"));
    b.insert(two_keys(KeyEvent::new(Key::Char('y'), KeyModifiers::none()), KeyEvent::new(Key::Char('l'), KeyModifiers::none())), String::from_str("copy_line"));
    b.insert(two_keys(KeyEvent::new(Key::Char('y'), KeyModifiers::none()), KeyEvent::new(Key::Char('w'), KeyModifiers::none())), String::from_str("copy_word"));
    b.insert(three_keys(KeyEvent::new(Key::Char('y'), KeyModifiers::none()), KeyEvent::new(Key::Char('n'), KeyModifiers::none()), KeyEvent::new(Key::Char('w'), KeyModifiers::none())), String::from_str("copy_to_next_word"));
    b.insert(three_keys(KeyEvent::new(Key::Char('y'), KeyModifiers::none()), KeyEvent::new(Key::Char('p'), KeyModifiers::none()), KeyEvent::new(Key::Char('w'), KeyModifiers::none())), String::from_str("copy_to_prev_word"));
    b.insert(two_keys(KeyEvent::new(Key::Char('y'), KeyModifiers::none()), KeyEvent::new(Key::Char('$'), KeyModifiers::none())), String::from_str("copy_to_end_line"));
    b.insert(two_keys(KeyEvent::new(Key::Char('y'), KeyModifiers::none()), KeyEvent::new(Key::Char('e'), KeyModifiers::none())), String::from_str("copy_to_end_line"));
    b.insert(two_keys(KeyEvent::new(Key::Char('y'), KeyModifiers::none()), KeyEvent::new(Key::Char('s'), KeyModifiers::none())), String::from_str("copy_to_start_line"));
    b.insert(two_keys(KeyEvent::new(Key::Char('x'), KeyModifiers::none()), KeyEvent::new(Key::Char('x'), KeyModifiers::none())), String::from_str("cut_char"));
    b.insert(one_key(KeyEvent::new(Key::Char('X'), KeyModifiers::none())), String::from_str("cut_char"));
    b.insert(two_keys(KeyEvent::new(Key::Char('x'), KeyModifiers::none()), KeyEvent::new(Key::Char('l'), KeyModifiers::none())), String::from_str("cut_line"));
    b.insert(two_keys(KeyEvent::new(Key::Char('x'), KeyModifiers::none()), KeyEvent::new(Key::Char('w'), KeyModifiers::none())), String::from_str("cut_word"));
    b.insert(three_keys(KeyEvent::new(Key::Char('x'), KeyModifiers::none()), KeyEvent::new(Key::Char('n'), KeyModifiers::none()), KeyEvent::new(Key::Char('w'), KeyModifiers::none())), String::from_str("cut_to_next_word"));
    b.insert(three_keys(KeyEvent::new(Key::Char('x'), KeyModifiers::none()), KeyEvent::new(Key::Char('p'), KeyModifiers::none()), KeyEvent::new(Key::Char('w'), KeyModifiers::none())), String::from_str("cut_to_prev_word"));
    b.insert(two_keys(KeyEvent::new(Key::Char('x'), KeyModifiers::none()), KeyEvent::new(Key::Char('$'), KeyModifiers::none())), String::from_str("cut_to_end_line"));
    b.insert(two_keys(KeyEvent::new(Key::Char('d'), KeyModifiers::none()), KeyEvent::new(Key::Char('e'), KeyModifiers::none())), String::from_str("cut_to_end"));
    b.insert(two_keys(KeyEvent::new(Key::Char('x'), KeyModifiers::none()), KeyEvent::new(Key::Char('s'), KeyModifiers::none())), String::from_str("cut_to_end"));
    b.insert(two_keys(KeyEvent::new(Key::Char('d'), KeyModifiers::none()), KeyEvent::new(Key::Char('d'), KeyModifiers::none())), String::from_str("delete_char"));
    b.insert(one_key(KeyEvent::new(Key::Char('D'), KeyModifiers::none())), String::from_str("delete_char"));
    b.insert(two_keys(KeyEvent::new(Key::Char('d'), KeyModifiers::none()), KeyEvent::new(Key::Char('l'), KeyModifiers::none())), String::from_str("delete_line"));
    b.insert(two_keys(KeyEvent::new(Key::Char('d'), KeyModifiers::none()), KeyEvent::new(Key::Char('w'), KeyModifiers::none())), String::from_str("delete_word"));
    b.insert(three_keys(KeyEvent::new(Key::Char('d'), KeyModifiers::none()), KeyEvent::new(Key::Char('n'), KeyModifiers::none()), KeyEvent::new(Key::Char('w'), KeyModifiers::none())), String::from_str("delete_to_next_word"));
    b.insert(three_keys(KeyEvent::new(Key::Char('d'), KeyModifiers::none()), KeyEvent::new(Key::Char('p'), KeyModifiers::none()), KeyEvent::new(Key::Char('w'), KeyModifiers::none())), String::from_str("delete_to_prev_word"));
    b.insert(two_keys(KeyEvent::new(Key::Char('d'), KeyModifiers::none()), KeyEvent::new(Key::Char('$'), KeyModifiers::none())), String::from_str("delete_to_end_line"));
    b.insert(two_keys(KeyEvent::new(Key::Char('d'), KeyModifiers::none()), KeyEvent::new(Key::Char('e'), KeyModifiers::none())), String::from_str("delete_to_end"));
    b.insert(two_keys(KeyEvent::new(Key::Char('d'), KeyModifiers::none()), KeyEvent::new(Key::Char('s'), KeyModifiers::none())), String::from_str("delete_to_start"));
    b.insert(one_key(KeyEvent::new(Key::Char('n'), KeyModifiers::ctrl())), String::from_str("open_completion"));
    b.insert(one_key(KeyEvent::new(Key::Char('u'), KeyModifiers::none())), String::from_str("undo"));
    b.insert(one_key(KeyEvent::new(Key::Char('r'), KeyModifiers::ctrl())), String::from_str("redo"));
    b.insert(one_key(KeyEvent::new(Key::Char('r'), KeyModifiers::none())), String::from_str("replace"));
    b
}

/// The default bindings of the insert table.
pub fn generate_insert_keybindings() -> (b: Bindings)
    ensures
        b@ == insert_table(),
{
    let mut b = Bindings::new();
    b.insert(one_key(KeyEvent::new(Key::Char('n'), KeyModifiers::ctrl())), String::from_str("open_completion"));
    b.insert(one_key(KeyEvent::new(Key::Backspace, KeyModifiers::none())), String::from_str("backspace"));
    b.insert(one_key(KeyEvent::new(Key::Delete, KeyModifiers::none())), String::from_str("delete"));
    b.insert(one_key(KeyEvent::new(Key::Esc, KeyModifiers::none())), String::from_str("cancel"));
    b.insert(one_key(KeyEvent::new(Key::Enter, KeyModifiers::none())), String::from_str("newline"));
    b.insert(one_key(KeyEvent::new(Key::Tab, KeyModifiers::none())), String::from_str("tab"));
    b
}

/// The default bindings of the command table.
pub fn generate_command_keybindings() -> (b: Bindings)
    ensures
        b@ == command_table(),
{
    let mut b = Bindings::new();
    b.insert(one_key(KeyEvent::new(Key::Up, KeyModifiers::none())), String::from_str("start"));
    b.insert(one_key(KeyEvent::new(Key::Down, KeyModifiers::none())), String::from_str("end"));
    b.insert(one_key(KeyEvent::new(Key::Enter, KeyModifiers::none())), String::from_str("execute"));
    b.insert(one_key(KeyEvent::new(Key::Backspace, KeyModifiers::none())), String::from_str("backspace"));
    b.insert(one_key(KeyEvent::new(Key::Delete, KeyModifiers::none())), String::from_str("delete"));
    b
}

/// The default bindings of the selection table.
pub fn generate_selection_keybindings() -> (b: Bindings)
    ensures
        b@ == selection_table(),
{
    let mut b = Bindings::new();
    b.insert(one_key(KeyEvent::new(Key::Char('p'), KeyModifiers::none())), String::from_str("paste"));
    b.insert(one_key(KeyEvent::new(Key::Char('y'), KeyModifiers::none())), String::from_str("copy"));
    b.insert(one_key(KeyEvent::new(Key::Char('x'), KeyModifiers::none())), String::from_str("cut"));
    b.insert(one_key(KeyEvent::new(Key::Char('d'), KeyModifiers::none())), String::from_str("delete"));
    b.insert(one_key(KeyEvent::new(Key::Char('l'), KeyModifiers::none())), String::from_str("right"));
    b.insert(one_key(KeyEvent::new(Key::Char(' '), KeyModifiers::none())), String::from_str("right"));
    b.insert(one_key(KeyEvent::new(Key::Char('h'), KeyModifiers::none())), String::from_str("left"));
    b.insert(one_key(KeyEvent::new(Key::Backspace, KeyModifiers::none())), String::from_str("left"));
    b.insert(one_key(KeyEvent::new(Key::Char('j'), KeyModifiers::none())), String::from_str("down"));
    b.insert(one_key(KeyEvent::new(Key::Enter, KeyModifiers::none())), String::from_str("down"));
    b.insert(one_key(KeyEvent::new(Key::Char('k'), KeyModifiers::none())), String::from_str("up"));
    b.insert(one_key(KeyEvent::new(Key::Char('0'), KeyModifiers::none())), String::from_str("start_of_line"));
    b.insert(one_key(KeyEvent::new(Key::Char('$'), KeyModifiers::none())), String::from_str("end_of_line"));
    b.insert(one_key(KeyEvent::new(Key::Char('+'), KeyModifiers::none())), String::from_str("up_line_start"));
    b.insert(one_key(KeyEvent::new(Key::Char('-'), KeyModifiers::none())), String::from_str("down_line_start"));
    b.insert(two_keys(KeyEvent::new(Key::Char('g'), KeyModifiers::none()), KeyEvent::new(Key::Char('g'), KeyModifiers::none())), String::from_str("start_of_file"));
    b.insert(two_keys(KeyEvent::new(Key::Char('G'), KeyModifiers::none()), KeyEvent::new(Key::Char('G'), KeyModifiers::none())), String::from_str("end_of_file"));
    b.insert(one_key(KeyEvent::new(Key::Char('G'), KeyModifiers::none())), String::from_str("goto_line"));
    b.insert(one_key(KeyEvent::new(Key::Char('b'), KeyModifiers::ctrl())), String::from_str("page_up"));
    b.insert(one_key(KeyEvent::new(Key::Char('f'), KeyModifiers::ctrl())), String::from_str("page_down"));
    b.insert(one_key(KeyEvent::new(Key::Char('u'), KeyModifiers::ctrl())), String::from_str("half_page_up"));
    b.insert(one_key(KeyEvent::new(Key::Char('d'), KeyModifiers::ctrl())), String::from_str("half_page_down"));
    b.insert(one_key(KeyEvent::new(Key::Char('w'), KeyModifiers::none())), String::from_str("next_word_front"));
    b.insert(one_key(KeyEvent::new(Key::Char('B'), KeyModifiers::none())), String::from_str("next_word_back"));
    b.insert(one_key(KeyEvent::new(Key::Char('W'), KeyModifiers::none())), String::from_str("previous_word_front"));
    b.insert(one_key(KeyEvent::new(Key::Char('b'), KeyModifiers::none())), String::from_str("previous_word_back"));
    b.insert(one_key(KeyEvent::new(Key::Char('%'), KeyModifiers::none())), String::from_str("goto_pair"));
    b.insert(one_key(KeyEvent::new(Key::Char('}'), KeyModifiers::none())), String::from_str("jump_paragraph"));
    b.insert(one_key(KeyEvent::new(Key::Char('{'), KeyModifiers::none())), String::from_str("jump_paragraph_back"));
    b
}

/// The default bindings of the search table.
pub fn generate_search_keybindings() -> (b: Bindings)
    ensures
        b@ == search_table(),
{
    let mut b = Bindings::new();
    b.insert(one_key(KeyEvent::new(Key::Char('n'), KeyModifiers::ctrl())), String::from_str("next_match"));
    b.insert(one_key(KeyEvent::new(Key::Enter, KeyModifiers::none())), String::from_str("next_match"));
    b.insert(one_key(KeyEvent::new(Key::Char('l'), KeyModifiers::ctrl())), String::from_str("next_match"));
    b.insert(one_key(KeyEvent::new(Key::Char('j'), KeyModifiers::ctrl())), String::from_str("next_match"));
    b.insert(one_key(KeyEvent::new(Key::Char('N'), KeyModifiers::ctrl())), String::from_str("previous_match"));
    b.insert(one_key(KeyEvent::new(Key::Backspace, KeyModifiers::none())), String::from_str("previous_match"));
    b.insert(one_key(KeyEvent::new(Key::Char('k'), KeyModifiers::ctrl())), String::from_str("previous_match"));
    b.insert(one_key(KeyEvent::new(Key::Char('h'), KeyModifiers::ctrl())), String::from_str("previous_match"));
    b.insert(one_key(KeyEvent::new(Key::Esc, KeyModifiers::none())), String::from_str("cancel"));
    b.insert(one_key(KeyEvent::new(Key::Backspace, KeyModifiers::none())), String::from_str("backspace"));
    b.insert(one_key(KeyEvent::new(Key::Delete, KeyModifiers::none())), String::from_str("delete"));
    b.insert(one_key(KeyEvent::new(Key::Char('p'), KeyModifiers::ctrl())), String::from_str("paste"));
    b.insert(one_key(KeyEvent::new(Key::Char('y'), KeyModifiers::ctrl())), String::from_str("copy"));
    b.insert(one_key(KeyEvent::new(Key::Char('x'), KeyModifiers::ctrl())), String::from_str("cut"));
    b.insert(one_key(KeyEvent::new(Key::Char('d'), KeyModifiers::ctrl())), String::from_str("delete_search"));
    b
}
} // verus!
