use vstd::prelude::*;
use vstd::string::StringExecFns;
use crate::commands::{editor_action_is, editor_commands, EditorAction};
use crate::cursor::CursorMovement;
use crate::file::str_eq;
use crate::modes::{first_word, first_word_end, next_word, skip_ws, spec_is_whitespace, word_prefix};
use crate::registers::RegisterMessage;

verus! {

/// Skipping white space never makes a text longer.
pub proof fn lemma_skip_ws_len(cs: Seq<char>)
    ensures
        skip_ws(cs).len() <= cs.len(),
    decreases cs.len(),
{
    if cs.len() > 0 && spec_is_whitespace(cs[0]) {
        lemma_skip_ws_len(cs.drop_first());
    }
}

/// A word prefix is no longer than the text.
pub proof fn lemma_word_prefix_len(cs: Seq<char>)
    ensures
        word_prefix(cs).len() <= cs.len(),
    decreases cs.len(),
{
    if cs.len() > 0 && !spec_is_whitespace(cs[0]) {
        lemma_word_prefix_len(cs.drop_first());
    }
}

/// Where the first word ends lies inside the text, and past its start where there is a word.
pub proof fn lemma_first_word_end(cs: Seq<char>)
    ensures
        0 <= first_word_end(cs) <= cs.len(),
        first_word(cs).len() > 0 ==> first_word_end(cs) > 0,
{
    lemma_skip_ws_len(cs);
    lemma_word_prefix_len(skip_ws(cs));
}

/// The words of `cs`, as `split_whitespace` gives them.
pub open spec fn words(cs: Seq<char>) -> Seq<Seq<char>>
    decreases cs.len(),
{
    if first_word(cs).len() == 0 {
        Seq::empty()
    } else {
        proof {
            lemma_first_word_end(cs);
        }
        seq![first_word(cs)] + words(cs.skip(first_word_end(cs)))
    }
}

/// Texts seen as sequences.
pub open spec fn string_views(ws: Seq<String>) -> Seq<Seq<char>> {
    ws.map_values(|w: String| w@)
}

/// The words of `command`, as `split_whitespace` gives them.
pub fn split_words(command: &str) -> (ws: Vec<String>)
    ensures
        string_views(ws@) == words(command@),
{
    let n = command.unicode_len();
    let mut out: Vec<String> = Vec::new();
    let mut e: usize = 0;
    let mut done = false;
    assert(command@.skip(0) =~= command@);
    assert(string_views(out@) =~= Seq::empty());
    while !done
        invariant
            n == command@.len(),
            e <= n,
            done ==> words(command@.skip(e as int)) =~= Seq::<Seq<char>>::empty(),
            words(command@) == string_views(out@) + words(command@.skip(e as int)),
        decreases n - e + if done { 0int } else { 1int },
    {
        let ghost rest = command@.skip(e as int);
        let (w, e2) = next_word(command, e);
        if w.unicode_len() == 0 {
            done = true;
        } else {
            proof {
                lemma_first_word_end(rest);
                assert(rest.skip(first_word_end(rest)) =~= command@.skip(e2 as int));
            }
            let ghost before = out@;
            out.push(w);
            proof {
                assert(string_views(out@) =~= string_views(before) + seq![w@]);
                assert(string_views(out@) + words(command@.skip(e2 as int)) =~= string_views(before)
                    + words(rest));
            }
            e = e2;
        }
    }
    proof {
        assert(string_views(out@) + Seq::<Seq<char>>::empty() =~= string_views(out@));
    }
    out
}

/// The value of the decimal digits `ds`.
pub open spec fn digits_value(ds: Seq<char>) -> nat
    decreases ds.len(),
{
    if ds.len() == 0 {
        0
    } else {
        digits_value(ds.drop_last()) * 10 + (ds.last() as nat - '0' as nat) as nat
    }
}

/// Whether every character of `ds` is a decimal digit.
pub open spec fn all_digits(ds: Seq<char>) -> bool {
    forall|i: int| 0 <= i < ds.len() ==> '0' <= #[trigger] ds[i] <= '9'
}

/// The `usize` that `str::parse` reads from `s`: decimal digits after an optional `+`, whose
/// value fits; nothing otherwise.
pub open spec fn parsed_usize(s: Seq<char>) -> Option<usize> {
    let ds = if s.len() > 0 && s[0] == '+' { s.drop_first() } else { s };
    if ds.len() > 0 && all_digits(ds) && digits_value(ds) <= usize::MAX {
        Some(digits_value(ds) as usize)
    } else {
        None
    }
}

/// The value of a prefix of digits is no larger than that of the whole.
pub proof fn lemma_digits_value_prefix(ds: Seq<char>, i: int)
    requires
        0 <= i <= ds.len(),
        all_digits(ds),
    ensures
        digits_value(ds.take(i)) <= digits_value(ds),
    decreases ds.len() - i,
{
    if i < ds.len() {
        lemma_digits_value_prefix(ds, i + 1);
        assert(ds.take(i + 1).drop_last() =~= ds.take(i));
    } else {
        assert(ds.take(i) =~= ds);
    }
}

/// Reads a `usize` from `s` as `str::parse` does.
pub fn parse_usize(s: &str) -> (r: Option<usize>)
    ensures
        r == parsed_usize(s@),
{
    let n = s.unicode_len();
    let mut i: usize = 0;
    if n > 0 && s.get_char(0) == '+' {
        i = 1;
    }
    let ghost ds = if s@.len() > 0 && s@[0] == '+' { s@.drop_first() } else { s@ };
    let start = i;
    if start == n {
        return None;
    }
    let mut v: usize = 0;
    while i < n
        invariant
            n == s@.len(),
            start <= i <= n,
            ds == if s@.len() > 0 && s@[0] == '+' { s@.drop_first() } else { s@ },
            start == s@.len() - ds.len(),
            forall|k: int| 0 <= k < ds.len() ==> ds[k] == s@[start + k],
            forall|k: int| 0 <= k < i - start ==> '0' <= #[trigger] ds[k] <= '9',
            v == digits_value(ds.take(i - start)),
        decreases n - i,
    {
        let c = s.get_char(i);
        if c < '0' || c > '9' {
            assert(ds[i - start] == c);
            return None;
        }
        let d = (c as u32 - '0' as u32) as usize;
        proof {
            assert(ds.take(i - start + 1).drop_last() =~= ds.take(i - start));
            assert(ds.take(i - start + 1).last() == c);
        }
        match v.checked_mul(10) {
            Some(m) => match m.checked_add(d) {
                Some(w) => {
                    v = w;
                },
                None => {
                    proof {
                        if all_digits(ds) {
                            lemma_digits_value_prefix(ds, i - start + 1);
                        }
                    }
                    return None;
                },
            },
            None => {
                proof {
                    if all_digits(ds) {
                        lemma_digits_value_prefix(ds, i - start + 1);
                    }
                }
                return None;
            },
        }
        i = i + 1;
    }
    assert(ds.take(ds.len() as int) =~= ds);
    Some(v)
}

/// The pieces of `cs` between the commas, as `split(',')` gives them, with `cur` the piece
/// begun before `cs`.
pub open spec fn comma_pieces(cs: Seq<char>, cur: Seq<char>) -> Seq<Seq<char>>
    decreases cs.len(),
{
    if cs.len() == 0 {
        seq![cur]
    } else if cs[0] == ',' {
        seq![cur] + comma_pieces(cs.drop_first(), Seq::empty())
    } else {
        comma_pieces(cs.drop_first(), cur.push(cs[0]))
    }
}

/// The place `col,row` that `s` names: its first two comma-separated pieces as numbers, when
/// every piece is one; nothing where a piece is not a number or there are fewer than two.
pub open spec fn place_of(s: Seq<char>) -> Option<(usize, usize)> {
    let ps = comma_pieces(s, Seq::empty());
    if ps.len() >= 2 && forall|i: int| 0 <= i < ps.len() ==> #[trigger] parsed_usize(ps[i]) is Some {
        Some((parsed_usize(ps[0])->0, parsed_usize(ps[1])->0))
    } else {
        None
    }
}

/// The pieces of `s` between its commas.
pub fn split_commas(s: &str) -> (ps: Vec<String>)
    ensures
        string_views(ps@) == comma_pieces(s@, Seq::empty()),
{
    let n = s.unicode_len();
    let mut done: Vec<String> = Vec::new();
    let mut cur = String::new();
    let mut i: usize = 0;
    assert(s@.skip(0) =~= s@);
    assert(string_views(done@) =~= Seq::empty());
    while i < n
        invariant
            n == s@.len(),
            i <= n,
            comma_pieces(s@, Seq::empty()) == string_views(done@) + comma_pieces(s@.skip(i as int), cur@),
        decreases n - i,
    {
        let c = s.get_char(i);
        proof {
            assert(s@.skip(i as int)[0] == c);
            assert(s@.skip(i as int).drop_first() =~= s@.skip(i + 1));
        }
        if c == ',' {
            let ghost before = done@;
            let mut piece = String::new();
            std::mem::swap(&mut piece, &mut cur);
            done.push(piece);
            proof {
                assert(string_views(done@) =~= string_views(before) + seq![piece@]);
                assert(string_views(done@) + comma_pieces(s@.skip(i + 1), cur@) =~= string_views(before)
                    + (seq![piece@] + comma_pieces(s@.skip(i + 1), Seq::empty())));
            }
        } else {
            crate::styled::string_push(&mut cur, c);
        }
        i = i + 1;
    }
    let ghost before = done@;
    done.push(cur);
    proof {
        assert(s@.skip(n as int) =~= Seq::<char>::empty());
        assert(string_views(done@) =~= string_views(before) + seq![done@.last()@]);
    }
    done
}

/// Reads the place `col,row` that `s` names.
pub fn parse_place(s: &str) -> (r: Option<(usize, usize)>)
    ensures
        r == place_of(s@),
{
    let ps = split_commas(s);
    let ghost pv = comma_pieces(s@, Seq::empty());
    let mut vals: Vec<usize> = Vec::new();
    let mut i: usize = 0;
    while i < ps.len()
        invariant
            string_views(ps@) == pv,
            pv == comma_pieces(s@, Seq::empty()),
            i <= ps@.len(),
            vals@.len() == i,
            forall|k: int| 0 <= k < i ==> #[trigger] parsed_usize(pv[k]) == Some(vals@[k]),
        decreases ps.len() - i,
    {
        assert(pv[i as int] == ps@[i as int]@);
        match parse_usize(ps[i].as_str()) {
            Some(v) => vals.push(v),
            None => {
                return None;
            },
        }
        i = i + 1;
    }
    if vals.len() < 2 {
        return None;
    }
    Some((vals[0], vals[1]))
}


/// A mode that `change_mode` changes to, with what comes with it.
#[derive(Debug, Clone, Copy, PartialEq, Eq, Structural)]
pub enum ModeChange {
    Normal,
    Insert,
    Command,
    /// The insert mode, one column to the left.
    InsertBefore,
    InsertAfter,
    InsertStartOfLine,
    InsertEndOfLine,
    /// The insert mode, one row down.
    InsertBelow,
    /// The insert mode, one row up.
    InsertAbove,
    /// The selection mode, from the cursor, of one shape or another.
    SelectionNormal,
    SelectionLine,
    SelectionBlock,
    /// The search mode, forward or backward.
    SearchDown,
    SearchUp,
}

/// The mode change that `change_mode` names `s`.
pub open spec fn mode_change_named(s: Seq<char>) -> Option<ModeChange> {
    if s == "Normal"@ {
        Some(ModeChange::Normal)
    } else if s == "Insert"@ {
        Some(ModeChange::Insert)
    } else if s == "Command"@ {
        Some(ModeChange::Command)
    } else if s == "insert_before"@ {
        Some(ModeChange::InsertBefore)
    } else if s == "insert_after"@ {
        Some(ModeChange::InsertAfter)
    } else if s == "insert_start_of_line"@ {
        Some(ModeChange::InsertStartOfLine)
    } else if s == "insert_end_of_line"@ {
        Some(ModeChange::InsertEndOfLine)
    } else if s == "insert_below"@ {
        Some(ModeChange::InsertBelow)
    } else if s == "insert_above"@ {
        Some(ModeChange::InsertAbove)
    } else if s == "selection_normal"@ {
        Some(ModeChange::SelectionNormal)
    } else if s == "selection_line"@ {
        Some(ModeChange::SelectionLine)
    } else if s == "selection_block"@ {
        Some(ModeChange::SelectionBlock)
    } else if s == "search_down"@ {
        Some(ModeChange::SearchDown)
    } else if s == "search_up"@ {
        Some(ModeChange::SearchUp)
    } else {
        None
    }
}

/// The mode change named `s`.
fn mode_change_by_name(s: &str) -> (m: Option<ModeChange>)
    ensures
        m == mode_change_named(s@),
{
    if str_eq(s, "Normal") {
        Some(ModeChange::Normal)
    } else if str_eq(s, "Insert") {
        Some(ModeChange::Insert)
    } else if str_eq(s, "Command") {
        Some(ModeChange::Command)
    } else if str_eq(s, "insert_before") {
        Some(ModeChange::InsertBefore)
    } else if str_eq(s, "insert_after") {
        Some(ModeChange::InsertAfter)
    } else if str_eq(s, "insert_start_of_line") {
        Some(ModeChange::InsertStartOfLine)
    } else if str_eq(s, "insert_end_of_line") {
        Some(ModeChange::InsertEndOfLine)
    } else if str_eq(s, "insert_below") {
        Some(ModeChange::InsertBelow)
    } else if str_eq(s, "insert_above") {
        Some(ModeChange::InsertAbove)
    } else if str_eq(s, "selection_normal") {
        Some(ModeChange::SelectionNormal)
    } else if str_eq(s, "selection_line") {
        Some(ModeChange::SelectionLine)
    } else if str_eq(s, "selection_block") {
        Some(ModeChange::SelectionBlock)
    } else if str_eq(s, "search_down") {
        Some(ModeChange::SearchDown)
    } else if str_eq(s, "search_up") {
        Some(ModeChange::SearchUp)
    } else {
        None
    }
}

/// The cursor movement that `move` names `s`.
pub open spec fn movement_named(s: Seq<char>) -> Option<CursorMovement> {
    if s == "up"@ {
        Some(CursorMovement::Up)
    } else if s == "down"@ {
        Some(CursorMovement::Down)
    } else if s == "left"@ {
        Some(CursorMovement::Left)
    } else if s == "right"@ {
        Some(CursorMovement::Right)
    } else if s == "page_up"@ {
        Some(CursorMovement::PageUp)
    } else if s == "page_down"@ {
        Some(CursorMovement::PageDown)
    } else if s == "start_of_file"@ {
        Some(CursorMovement::FileStart)
    } else if s == "end_of_file"@ {
        Some(CursorMovement::FileEnd)
    } else if s == "half_page_up"@ {
        Some(CursorMovement::HalfPageUp)
    } else if s == "half_page_down"@ {
        Some(CursorMovement::HalfPageDown)
    } else if s == "start_of_line"@ {
        Some(CursorMovement::LineStart)
    } else if s == "end_of_line"@ {
        Some(CursorMovement::LineEnd)
    } else {
        None
    }
}

/// The cursor movement named `s`.
fn movement_by_name(s: &str) -> (m: Option<CursorMovement>)
    ensures
        m == movement_named(s@),
{
    if str_eq(s, "up") {
        Some(CursorMovement::Up)
    } else if str_eq(s, "down") {
        Some(CursorMovement::Down)
    } else if str_eq(s, "left") {
        Some(CursorMovement::Left)
    } else if str_eq(s, "right") {
        Some(CursorMovement::Right)
    } else if str_eq(s, "page_up") {
        Some(CursorMovement::PageUp)
    } else if str_eq(s, "page_down") {
        Some(CursorMovement::PageDown)
    } else if str_eq(s, "start_of_file") {
        Some(CursorMovement::FileStart)
    } else if str_eq(s, "end_of_file") {
        Some(CursorMovement::FileEnd)
    } else if str_eq(s, "half_page_up") {
        Some(CursorMovement::HalfPageUp)
    } else if str_eq(s, "half_page_down") {
        Some(CursorMovement::HalfPageDown)
    } else if str_eq(s, "start_of_line") {
        Some(CursorMovement::LineStart)
    } else if str_eq(s, "end_of_line") {
        Some(CursorMovement::LineEnd)
    } else {
        None
    }
}

/// The register that a paste or a copy uses.
#[derive(Debug, Clone, PartialEq, Eq)]
pub enum RegisterChoice {
    Numbered(usize),
    Named(String),
    Clipboard,
}

/// Whether `r` is the register that the argument `arg` chooses: a number chooses a numbered
/// register, any other text a named one, and no argument the clipboard.
pub open spec fn register_choice_is(r: RegisterChoice, arg: Option<Seq<char>>) -> bool {
    match arg {
        None => r == RegisterChoice::Clipboard,
        Some(a) => match parsed_usize(a) {
            Some(n) => r == RegisterChoice::Numbered(n),
            None => r matches RegisterChoice::Named(x) && x@ == a,
        },
    }
}

/// The register that the argument `arg` chooses.
fn register_choice(arg: Option<&String>) -> (r: RegisterChoice)
    ensures
        register_choice_is(
            r,
            match arg {
                Some(a) => Some(a@),
                None => None,
            },
        ),
{
    match arg {
        None => RegisterChoice::Clipboard,
        Some(a) => match parse_usize(a.as_str()) {
            Some(n) => RegisterChoice::Numbered(n),
            None => RegisterChoice::Named(a.clone()),
        },
    }
}

impl RegisterChoice {
    /// The message that asks the registers for the text of this register.
    pub fn request(&self) -> (m: RegisterMessage)
        ensures
            match *self {
                RegisterChoice::Numbered(n) => m == RegisterMessage::GetNumbered(n),
                RegisterChoice::Named(x) => m matches RegisterMessage::GetNamed(y) && y@ == x@,
                RegisterChoice::Clipboard => m == RegisterMessage::GetClipboard,
            },
    {
        match self {
            RegisterChoice::Numbered(n) => RegisterMessage::GetNumbered(*n),
            RegisterChoice::Named(x) => RegisterMessage::GetNamed(x.clone()),
            RegisterChoice::Clipboard => RegisterMessage::GetClipboard,
        }
    }

    /// The message that stores `text` in this register.
    pub fn store(&self, text: String) -> (m: RegisterMessage)
        ensures
            match *self {
                RegisterChoice::Numbered(n) => m matches RegisterMessage::AddNumbered(k, t) && k == n && t@
                    == text@,
                RegisterChoice::Named(x) => m matches RegisterMessage::AddNamed(y, t) && y@ == x@ && t@ == text@,
                RegisterChoice::Clipboard => m matches RegisterMessage::SetClipboard(t) && t@ == text@,
            },
    {
        match self {
            RegisterChoice::Numbered(n) => RegisterMessage::AddNumbered(*n, text),
            RegisterChoice::Named(x) => RegisterMessage::AddNamed(x.clone(), text),
            RegisterChoice::Clipboard => RegisterMessage::SetClipboard(text),
        }
    }
}

/// Where a paste puts the text.
#[derive(Debug, Clone, Copy, PartialEq, Eq, Structural)]
pub enum PasteDirection {
    After,
    Before,
    /// In place of the selections.
    Selection,
    /// A direction that is none of these: pasting text there is refused.
    Unknown,
}

/// The paste direction named `d`.
pub open spec fn paste_direction_named(d: Seq<char>) -> PasteDirection {
    if d == "after"@ {
        PasteDirection::After
    } else if d == "before"@ {
        PasteDirection::Before
    } else if d == "selection"@ {
        PasteDirection::Selection
    } else {
        PasteDirection::Unknown
    }
}

/// Whether `v` names something that can be copied or deleted: a character, a line, a word,
/// the text to the next or previous word or to the end or start of the line, or the
/// selection.
pub open spec fn is_text_verb(v: Seq<char>) -> bool {
    v == "char"@ || v == "line"@ || v == "word"@ || v == "to_next_word"@ || v == "to_prev_word"@ || v == "to_end_line"@ || v == "to_start_line"@ || v == "selection"@
}

/// Whether `name` is a command of the editor (quitting, closing, opening, saving).
pub open spec fn is_editor_command(name: Seq<char>) -> bool {
    name == "qa!"@ || name == "q"@ || name == "q!"@ || name == "e"@ || name == "w"@ || name == "w!"@ || name == "wq"@ || name == "w!q"@ || name == "w!q!"@ || name == "wq!"@
}

/// The `i`-th word of `ws`, if there is one.
pub open spec fn nth(ws: Seq<Seq<char>>, i: int) -> Option<Seq<char>> {
    if 0 <= i < ws.len() {
        Some(ws[i])
    } else {
        None
    }
}

/// A command that a text pane runs, read from its text.
#[derive(Debug, PartialEq, Eq)]
pub enum PaneCommand {
    /// A command of the editor.
    Editor(EditorAction),
    /// Paste the text of a register.
    Paste { direction: PasteDirection, register: RegisterChoice },
    /// Copy the text that the verb names into a register.
    Copy { verb: String, register: RegisterChoice },
    /// Delete the text that the verb names.
    DeleteText { verb: String },
    Undo,
    Redo,
    ChangeMode(ModeChange),
    ClearSelection,
    SelectRow(usize),
    /// Select from one place (column, row) to another.
    Select { start: (usize, usize), end: (usize, usize) },
    /// Move the cursor so many times.
    Move(CursorMovement, usize),
    /// Put the cursor at a column and a row.
    MoveTo(usize, usize),
    /// Put the cursor at a byte.
    MoveToByte(usize),
    /// Put the cursor on a row, in the same column.
    GotoLine(usize),
    /// Nothing to do.
    Nothing,
    /// A command that the pane refuses altogether.
    Invalid,
}

/// Whether `r` is the pane command that the text `cs` gives, with `dm` the default mode: the
/// first word names it and the others are its arguments.
pub open spec fn pane_command_is(r: PaneCommand, cs: Seq<char>, dm: Seq<char>) -> bool {
    let ws = words(cs);
    let name = if ws.len() > 0 { ws[0] } else { Seq::empty() };
    if is_editor_command(name) {
        r matches PaneCommand::Editor(a) && editor_action_is(a, name, nth(ws, 1))
    } else if name == "paste"@ {
        match nth(ws, 1) {
            None => r == PaneCommand::Nothing,
            Some(d) => r matches PaneCommand::Paste { direction, register } && direction == paste_direction_named(d)
                && register_choice_is(register, nth(ws, 2)),
        }
    } else if name == "copy"@ {
        match nth(ws, 1) {
            None => r == PaneCommand::Nothing,
            Some(v) => if is_text_verb(v) {
                r matches PaneCommand::Copy { verb, register } && verb@ == v && register_choice_is(register, nth(ws, 2))
            } else {
                r == PaneCommand::Invalid
            },
        }
    } else if name == "delete"@ {
        match nth(ws, 1) {
            None => r == PaneCommand::Nothing,
            Some(v) => if is_text_verb(v) {
                r matches PaneCommand::DeleteText { verb } && verb@ == v
            } else {
                r == PaneCommand::Invalid
            },
        }
    } else if name == "undo"@ {
        r == PaneCommand::Undo
    } else if name == "redo"@ {
        r == PaneCommand::Redo
    } else if name == "change_mode"@ {
        let m = match nth(ws, 1) {
            Some(m) => m,
            None => dm,
        };
        match mode_change_named(m) {
            Some(c) => r == PaneCommand::ChangeMode(c),
            None => r == PaneCommand::Invalid,
        }
    } else if name == "clear_selection"@ {
        r == PaneCommand::ClearSelection
    } else if name == "select"@ {
        if nth(ws, 1) == Some("row"@) {
            match nth(ws, 2) {
                None => r == PaneCommand::SelectRow(0),
                Some(n) => match parsed_usize(n) {
                    Some(k) => r == PaneCommand::SelectRow(k),
                    None => r == PaneCommand::Nothing,
                },
            }
        } else if ws.len() > 2 {
            match (place_of(ws[1]), place_of(ws[2])) {
                (Some(a), Some(b)) => r == PaneCommand::Select { start: a, end: b },
                _ => r == PaneCommand::Invalid,
            }
        } else {
            r == PaneCommand::Nothing
        }
    } else if name == "move"@ {
        if nth(ws, 1) == Some("to"@) {
            match nth(ws, 2) {
                None => r == PaneCommand::Nothing,
                Some(p) => match place_of(p) {
                    Some(q) => r == PaneCommand::MoveTo(q.0, q.1),
                    None => r == PaneCommand::Invalid,
                },
            }
        } else if nth(ws, 1) == Some("to_byte"@) {
            match nth(ws, 2) {
                None => r == PaneCommand::Nothing,
                Some(n) => match parsed_usize(n) {
                    Some(k) => r == PaneCommand::MoveToByte(k),
                    None => r == PaneCommand::Nothing,
                },
            }
        } else {
            match nth(ws, 1) {
                Some(d) => match movement_named(d) {
                    Some(m) => r == PaneCommand::Move(
                        m,
                        match nth(ws, 2) {
                            Some(n) => match parsed_usize(n) {
                                Some(k) => k,
                                None => 1,
                            },
                            None => 1,
                        },
                    ),
                    None => r == PaneCommand::Invalid,
                },
                None => r == PaneCommand::Invalid,
            }
        }
    } else if name == "goto_line"@ {
        match nth(ws, 1) {
            Some(n) => match parsed_usize(n) {
                Some(k) => r == PaneCommand::GotoLine(k),
                None => r == PaneCommand::Nothing,
            },
            None => r == PaneCommand::Nothing,
        }
    } else {
        r == PaneCommand::Nothing
    }
}

/// The `i`-th word, if there is one.
fn nth_word(ws: &Vec<String>, i: usize) -> (r: Option<&String>)
    ensures
        match r {
            Some(w) => nth(string_views(ws@), i as int) == Some(w@),
            None => nth(string_views(ws@), i as int) is None,
        },
{
    if i < ws.len() {
        Some(&ws[i])
    } else {
        None
    }
}

/// Whether `v` names something that can be copied or deleted.
fn text_verb(v: &str) -> (b: bool)
    ensures
        b == is_text_verb(v@),
{
    str_eq(v, "char") || str_eq(v, "line") || str_eq(v, "word") || str_eq(v, "to_next_word") || str_eq(v, "to_prev_word") || str_eq(v, "to_end_line") || str_eq(v, "to_start_line") || str_eq(v, "selection")
}

/// Reads the pane command that `command` gives, with `default_mode` the mode that the editor
/// starts in.
pub fn parse_pane_command(command: &str, default_mode: &str) -> (r: PaneCommand)
    ensures
        pane_command_is(r, command@, default_mode@),
{
    let ws = split_words(command);
    let ghost wv = words(command@);
    let empty = String::new();
    let name: &str = if ws.len() > 0 {
        ws[0].as_str()
    } else {
        empty.as_str()
    };
    assert(ws@.len() > 0 ==> wv[0] == ws@[0]@);
    if str_eq(name, "qa!") || str_eq(name, "q") || str_eq(name, "q!") || str_eq(name, "e") || str_eq(name, "w") || str_eq(name, "w!") || str_eq(name, "wq") || str_eq(name, "w!q") || str_eq(name, "w!q!") || str_eq(name, "wq!") {
        let arg = match nth_word(&ws, 1) {
            Some(a) => Some(a.clone()),
            None => None,
        };
        PaneCommand::Editor(editor_commands(name, arg))
    } else if str_eq(name, "paste") {
        match nth_word(&ws, 1) {
            None => PaneCommand::Nothing,
            Some(d) => {
                let direction = if str_eq(d.as_str(), "after") {
                    PasteDirection::After
                } else if str_eq(d.as_str(), "before") {
                    PasteDirection::Before
                } else if str_eq(d.as_str(), "selection") {
                    PasteDirection::Selection
                } else {
                    PasteDirection::Unknown
                };
                PaneCommand::Paste { direction, register: register_choice(nth_word(&ws, 2)) }
            },
        }
    } else if str_eq(name, "copy") {
        match nth_word(&ws, 1) {
            None => PaneCommand::Nothing,
            Some(v) => if text_verb(v.as_str()) {
                PaneCommand::Copy { verb: v.clone(), register: register_choice(nth_word(&ws, 2)) }
            } else {
                PaneCommand::Invalid
            },
        }
    } else if str_eq(name, "delete") {
        match nth_word(&ws, 1) {
            None => PaneCommand::Nothing,
            Some(v) => if text_verb(v.as_str()) {
                PaneCommand::DeleteText { verb: v.clone() }
            } else {
                PaneCommand::Invalid
            },
        }
    } else if str_eq(name, "undo") {
        PaneCommand::Undo
    } else if str_eq(name, "redo") {
        PaneCommand::Redo
    } else if str_eq(name, "change_mode") {
        let m: &str = match nth_word(&ws, 1) {
            Some(m) => m.as_str(),
            None => default_mode,
        };
        match mode_change_by_name(m) {
            Some(c) => PaneCommand::ChangeMode(c),
            None => PaneCommand::Invalid,
        }
    } else if str_eq(name, "clear_selection") {
        PaneCommand::ClearSelection
    } else if str_eq(name, "select") {
        let second = nth_word(&ws, 1);
        let is_row = match second {
            Some(w) => str_eq(w.as_str(), "row"),
            None => false,
        };
        if is_row {
            match nth_word(&ws, 2) {
                None => PaneCommand::SelectRow(0),
                Some(n) => match parse_usize(n.as_str()) {
                    Some(k) => PaneCommand::SelectRow(k),
                    None => PaneCommand::Nothing,
                },
            }
        } else if ws.len() > 2 {
            assert(wv[1] == ws@[1]@ && wv[2] == ws@[2]@);
            match (parse_place(ws[1].as_str()), parse_place(ws[2].as_str())) {
                (Some(a), Some(b)) => PaneCommand::Select { start: a, end: b },
                _ => PaneCommand::Invalid,
            }
        } else {
            PaneCommand::Nothing
        }
    } else if str_eq(name, "move") {
        let second = nth_word(&ws, 1);
        let (is_to, is_to_byte) = match second {
            Some(w) => (str_eq(w.as_str(), "to"), str_eq(w.as_str(), "to_byte")),
            None => (false, false),
        };
        if is_to {
            match nth_word(&ws, 2) {
                None => PaneCommand::Nothing,
                Some(p) => match parse_place(p.as_str()) {
                    Some(q) => PaneCommand::MoveTo(q.0, q.1),
                    None => PaneCommand::Invalid,
                },
            }
        } else if is_to_byte {
            match nth_word(&ws, 2) {
                None => PaneCommand::Nothing,
                Some(n) => match parse_usize(n.as_str()) {
                    Some(k) => PaneCommand::MoveToByte(k),
                    None => PaneCommand::Nothing,
                },
            }
        } else {
            match second {
                Some(d) => match movement_by_name(d.as_str()) {
                    Some(m) => {
                        let amount = match nth_word(&ws, 2) {
                            Some(n) => match parse_usize(n.as_str()) {
                                Some(k) => k,
                                None => 1,
                            },
                            None => 1,
                        };
                        PaneCommand::Move(m, amount)
                    },
                    None => PaneCommand::Invalid,
                },
                None => PaneCommand::Invalid,
            }
        }
    } else if str_eq(name, "goto_line") {
        match nth_word(&ws, 1) {
            Some(n) => match parse_usize(n.as_str()) {
                Some(k) => PaneCommand::GotoLine(k),
                None => PaneCommand::Nothing,
            },
            None => PaneCommand::Nothing,
        }
    } else {
        PaneCommand::Nothing
    }
}

} // verus!
