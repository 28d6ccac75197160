use vstd::prelude::*;
use vstd::string::{StrSliceExecFns, StringExecFns};
use crate::file::str_eq;
use crate::key::{event_text, Key, KeyEvent, KeyModifiers};
use crate::keybindings::{lookup, KeybindingsView, ModeKeybindings};
use crate::line_edit::{edit_line, insert_at, line_edit, line_edit_ok};
use crate::color_names::{replace_all, replaced};
use vstd::utf8::*;
use crate::settings::Settings;
use crate::style::decimal;
use crate::styled::string_push;

verus! {

/// Something that a mode asks its pane to do: run a command, or act on the text.
pub enum PaneAction {
    Command(String),
    Tab,
    Backspace,
    Delete,
    Newline,
    /// Put the character at the cursor.
    InsertChar(char),
    /// Select again from the selection's start to where the cursor now is.
    Reselect,
    /// Find the search mode's query from the cursor, in the mode's direction, and hand the
    /// places found to the mode.
    Search,
    /// Move to the next place found.
    NextMatch,
    /// Move to the previous place found.
    PreviousMatch,
    /// Put the first text before and the second after every selected run of the file.
    InsertPairs(String, String),
    /// Show the message to the user.
    Message(String),
}

/// A pane action as plain values.
pub enum ActionView {
    Command(Seq<char>),
    Tab,
    Backspace,
    Delete,
    Newline,
    InsertChar(char),
    Reselect,
    Search,
    NextMatch,
    PreviousMatch,
    InsertPairs(Seq<char>, Seq<char>),
    Message(Seq<char>),
}

/// The plain value of a pane action.
pub open spec fn action_view(a: PaneAction) -> ActionView {
    match a {
        PaneAction::Command(s) => ActionView::Command(s@),
        PaneAction::Tab => ActionView::Tab,
        PaneAction::Backspace => ActionView::Backspace,
        PaneAction::Delete => ActionView::Delete,
        PaneAction::Newline => ActionView::Newline,
        PaneAction::InsertChar(c) => ActionView::InsertChar(c),
        PaneAction::Reselect => ActionView::Reselect,
        PaneAction::Search => ActionView::Search,
        PaneAction::NextMatch => ActionView::NextMatch,
        PaneAction::PreviousMatch => ActionView::PreviousMatch,
        PaneAction::InsertPairs(a, b) => ActionView::InsertPairs(a@, b@),
        PaneAction::Message(m) => ActionView::Message(m@),
    }
}

/// The plain values of a list of pane actions.
pub open spec fn actions_view(v: Seq<PaneAction>) -> Seq<ActionView> {
    v.map_values(|a: PaneAction| action_view(a))
}

/// The command `text`.
fn pane_command(text: &str) -> (a: PaneAction)
    ensures
        action_view(a) == ActionView::Command(text@),
{
    PaneAction::Command(String::from_str(text))
}

/// The command `text` followed by the typed count `nb`.
fn command_with(text: &str, nb: &String) -> (a: PaneAction)
    ensures
        action_view(a) == ActionView::Command(text@ + nb@),
{
    let mut s = String::from_str(text);
    s.append(nb.as_str());
    PaneAction::Command(s)
}

/// Whether `c` has the Unicode `White_Space` property, which is what `char::is_whitespace`
/// answers: the tab, the line feed, the line tabulation, the form feed, the carriage return,
/// the space, the next line, the no-break space, the Ogham space mark, the spaces from the en
/// quad to the hair space, the line separator, the paragraph separator, the narrow no-break
/// space, the medium mathematical space and the ideographic space.
pub open spec fn spec_is_whitespace(c: char) -> bool {
    let u = c as u32;
    ||| 0x9 <= u <= 0xD
    ||| u == 0x20
    ||| u == 0x85
    ||| u == 0xA0
    ||| u == 0x1680
    ||| 0x2000 <= u <= 0x200A
    ||| u == 0x2028
    ||| u == 0x2029
    ||| u == 0x202F
    ||| u == 0x205F
    ||| u == 0x3000
}

/// Whether `c` has the Unicode `White_Space` property.
fn char_is_whitespace(c: char) -> (b: bool)
    ensures
        b == spec_is_whitespace(c),
{
    let u = c as u32;
    (0x9 <= u && u <= 0xD) || u == 0x20 || u == 0x85 || u == 0xA0 || u == 0x1680 || (0x2000 <= u && u
        <= 0x200A) || u == 0x2028 || u == 0x2029 || u == 0x202F || u == 0x205F || u == 0x3000
}

/// `cs` without its leading white space.
pub open spec fn skip_ws(cs: Seq<char>) -> Seq<char>
    decreases cs.len(),
{
    if cs.len() > 0 && spec_is_whitespace(cs[0]) {
        skip_ws(cs.drop_first())
    } else {
        cs
    }
}

/// The characters of `cs` before its first white space.
pub open spec fn word_prefix(cs: Seq<char>) -> Seq<char>
    decreases cs.len(),
{
    if cs.len() == 0 || spec_is_whitespace(cs[0]) {
        Seq::empty()
    } else {
        seq![cs[0]] + word_prefix(cs.drop_first())
    }
}

/// The first word of `cs` as `split_whitespace` finds it, or nothing.
pub open spec fn first_word(cs: Seq<char>) -> Seq<char> {
    word_prefix(skip_ws(cs))
}

/// Skipping white space that ends at `i` skips to `i`.
proof fn lemma_skip_ws(cs: Seq<char>, i: int)
    requires
        0 <= i <= cs.len(),
        forall|k: int| 0 <= k < i ==> spec_is_whitespace(#[trigger] cs[k]),
    ensures
        skip_ws(cs) == skip_ws(cs.skip(i)),
    decreases i,
{
    if i > 0 {
        assert(cs.drop_first().skip(i - 1) =~= cs.skip(i));
        assert forall|k: int| 0 <= k < i - 1 implies spec_is_whitespace(#[trigger] cs.drop_first()[k]) by {
            assert(cs.drop_first()[k] == cs[k + 1]);
        }
        lemma_skip_ws(cs.drop_first(), i - 1);
    } else {
        assert(cs.skip(0) =~= cs);
    }
}

/// A word that runs from `i` to `j` is the word prefix of the text from `i`.
proof fn lemma_word_prefix(cs: Seq<char>, i: int, j: int)
    requires
        0 <= i <= j <= cs.len(),
        forall|k: int| i <= k < j ==> !spec_is_whitespace(#[trigger] cs[k]),
        j == cs.len() || spec_is_whitespace(cs[j]),
    ensures
        word_prefix(cs.skip(i)) == cs.subrange(i, j),
    decreases j - i,
{
    if i == j {
        assert(cs.subrange(i, j) =~= Seq::<char>::empty());
    } else {
        lemma_word_prefix(cs, i + 1, j);
        assert(cs.skip(i).drop_first() =~= cs.skip(i + 1));
        assert(cs.subrange(i, j) =~= seq![cs[i]] + cs.subrange(i + 1, j));
    }
}

/// Where the first word of `cs` ends: after the leading white space and the word.
pub open spec fn first_word_end(cs: Seq<char>) -> int {
    cs.len() - skip_ws(cs).len() + word_prefix(skip_ws(cs)).len()
}

/// A run of white space followed by a word in `cs`, from `from`: the word, and where it
/// ends.
pub fn next_word(command: &str, from: usize) -> (r: (String, usize))
    requires
        from <= command@.len(),
    ensures
        r.0@ == first_word(command@.skip(from as int)),
        r.1 == from + first_word_end(command@.skip(from as int)),
        r.1 <= command@.len(),
{
    let ghost cs = command@.skip(from as int);
    let n = command.unicode_len();
    let mut i: usize = from;
    while i < n && char_is_whitespace(command.get_char(i))
        invariant
            n == command@.len(),
            from <= i <= n,
            cs == command@.skip(from as int),
            forall|k: int| from <= k < i ==> spec_is_whitespace(#[trigger] command@[k]),
        decreases n - i,
    {
        i = i + 1;
    }
    proof {
        assert forall|k: int| 0 <= k < i - from implies spec_is_whitespace(#[trigger] cs[k]) by {
            assert(cs[k] == command@[from + k]);
        }
        lemma_skip_ws(cs, i - from);
        assert(cs.skip(i - from) =~= command@.skip(i as int));
        assert(skip_ws(command@.skip(i as int)) == command@.skip(i as int)) by {
            if i < n {
                assert(command@.skip(i as int)[0] == command@[i as int]);
            }
        }
    }
    let mut w = String::new();
    let mut j = i;
    while j < n && !char_is_whitespace(command.get_char(j))
        invariant
            n == command@.len(),
            i <= j <= n,
            forall|k: int| i <= k < j ==> !spec_is_whitespace(#[trigger] command@[k]),
            w@ == command@.subrange(i as int, j as int),
        decreases n - j,
    {
        let c = command.get_char(j);
        string_push(&mut w, c);
        assert(w@ =~= command@.subrange(i as int, j + 1));
        j = j + 1;
    }
    proof {
        lemma_word_prefix(command@, i as int, j as int);
    }
    (w, j)
}

/// The first word of `command`, or nothing.
pub fn first_word_of(command: &str) -> (w: String)
    ensures
        w@ == first_word(command@),
{
    let (w, _) = next_word(command, 0);
    assert(command@.skip(0) =~= command@);
    w
}

/// The second word of `cs`, if it has one.
pub open spec fn second_word(cs: Seq<char>) -> Option<Seq<char>> {
    let rest = cs.skip(first_word_end(cs));
    if first_word(rest).len() > 0 {
        Some(first_word(rest))
    } else {
        None
    }
}

/// The first word of `command` and its second word, if it has one.
pub fn split_command(command: &str) -> (r: (String, Option<String>))
    ensures
        r.0@ == first_word(command@),
        r.1 matches Some(s) ==> second_word(command@) == Some(s@),
        r.1 is None ==> second_word(command@) is None,
{
    let (w1, e1) = next_word(command, 0);
    assert(command@.skip(0) =~= command@);
    let (w2, _) = next_word(command, e1);
    if w2.as_str().unicode_len() > 0 {
        (w1, Some(w2))
    } else {
        (w1, None)
    }
}

/// The state of a mode that collects typed keys and a typed count.
pub struct BuffersView {
    pub number_buffer: Seq<char>,
    pub key_buffer: Seq<KeyEvent>,
}

/// The mode for moving about and running commands.
pub struct NormalMode {
    number_buffer: String,
    key_buffer: Vec<KeyEvent>,
}

impl View for NormalMode {
    type V = BuffersView;

    closed spec fn view(&self) -> BuffersView {
        BuffersView { number_buffer: self.number_buffer@, key_buffer: self.key_buffer@ }
    }
}

/// The mode for typing text.
pub struct InsertMode {
    key_buffer: Vec<KeyEvent>,
    number_buffer: String,
    default_mode: Option<String>,
}

impl View for InsertMode {
    type V = BuffersView;

    closed spec fn view(&self) -> BuffersView {
        BuffersView { number_buffer: self.number_buffer@, key_buffer: self.key_buffer@ }
    }
}

/// The pane actions of the normal mode for the command `name`, `nb` being the typed count.
pub open spec fn normal_actions(name: Seq<char>, nb: Seq<char>) -> Seq<ActionView> {
    if name == "cancel"@ {
        Seq::empty()
    } else if name == "left"@ {
        seq![ActionView::Command("move left "@ + nb)]
    } else if name == "right"@ {
        seq![ActionView::Command("move right "@ + nb)]
    } else if name == "up"@ {
        seq![ActionView::Command("move up "@ + nb)]
    } else if name == "down"@ {
        seq![ActionView::Command("move down "@ + nb)]
    } else if name == "start_of_file"@ {
        seq![ActionView::Command("move start_of_file"@)]
    } else if name == "end_of_file"@ {
        seq![ActionView::Command("move end_of_file"@)]
    } else if name == "page_up"@ {
        seq![ActionView::Command("move page_up "@ + nb)]
    } else if name == "page_down"@ {
        seq![ActionView::Command("move page_down "@ + nb)]
    } else if name == "half_page_up"@ {
        seq![ActionView::Command("move half_page_up "@ + nb)]
    } else if name == "half_page_down"@ {
        seq![ActionView::Command("move half_page_down "@ + nb)]
    } else if name == "start_of_line"@ {
        seq![ActionView::Command("move start_of_line"@)]
    } else if name == "end_of_line"@ {
        seq![ActionView::Command("move end_of_line"@)]
    } else if name == "up_line_start"@ {
        seq![ActionView::Command("move up_line_start"@)]
    } else if name == "down_line_end"@ {
        seq![ActionView::Command("move down_line_end"@)]
    } else if name == "next_word_front"@ {
        seq![ActionView::Command("move next_word_front"@)]
    } else if name == "next_word_back"@ {
        seq![ActionView::Command("move next_word_back"@)]
    } else if name == "previous_word_front"@ {
        seq![ActionView::Command("move previous_word_front"@)]
    } else if name == "previous_word_back"@ {
        seq![ActionView::Command("move previous_word_back"@)]
    } else if name == "insert_before"@ {
        seq![ActionView::Command("change_mode insert_before"@)]
    } else if name == "insert_after"@ {
        seq![ActionView::Command("change_mode insert_after"@)]
    } else if name == "insert_start_of_line"@ {
        seq![ActionView::Command("change_mode insert_start_of_line"@)]
    } else if name == "insert_end_of_line"@ {
        seq![ActionView::Command("change_mode insert_end_of_line"@)]
    } else if name == "insert_below"@ {
        seq![ActionView::Command("change_mode insert_below"@)]
    } else if name == "insert_above"@ {
        seq![ActionView::Command("change_mode insert_above"@)]
    } else if name == "command_mode"@ {
        seq![ActionView::Command("change_mode Command"@)]
    } else if name == "selection_mode"@ {
        seq![ActionView::Command("change_mode selection_normal"@)]
    } else if name == "selection_mode_line"@ {
        seq![ActionView::Command("change_mode selection_line"@)]
    } else if name == "selection_mode_block"@ {
        seq![ActionView::Command("change_mode selection_block"@)]
    } else if name == "search_mode_down"@ {
        seq![ActionView::Command("change_mode search_down"@)]
    } else if name == "search_mode_up"@ {
        seq![ActionView::Command("change_mode search_up"@)]
    } else if name == "replace_mode"@ {
        seq![ActionView::Command("change_mode replace"@)]
    } else if name == "goto_line"@ {
        if nb.len() > 0 {
            seq![ActionView::Command("goto_line "@ + nb)]
        } else {
            Seq::empty()
        }
    } else if name == "copy_char"@ {
        seq![ActionView::Command("copy char "@ + nb)]
    } else if name == "copy_line"@ {
        seq![ActionView::Command("copy line "@ + nb)]
    } else if name == "copy_word"@ {
        seq![ActionView::Command("copy word "@ + nb)]
    } else if name == "copy_to_next_word"@ {
        seq![ActionView::Command("copy to_next_word "@ + nb)]
    } else if name == "copy_to_prev_word"@ {
        seq![ActionView::Command("copy to_prev_word "@ + nb)]
    } else if name == "copy_to_end_line"@ {
        seq![ActionView::Command("copy to_end_line "@ + nb)]
    } else if name == "copy_to_start_line"@ {
        seq![ActionView::Command("copy to_start_line "@ + nb)]
    } else if name == "delete_char"@ {
        seq![ActionView::Command("delete char"@)]
    } else if name == "delete_line"@ {
        seq![ActionView::Command("delete line"@)]
    } else if name == "delete_word"@ {
        seq![ActionView::Command("delete word"@)]
    } else if name == "delete_to_next_word"@ {
        seq![ActionView::Command("delete to_next_word"@)]
    } else if name == "delete_to_prev_word"@ {
        seq![ActionView::Command("delete to_prev_word"@)]
    } else if name == "delete_to_end_line"@ {
        seq![ActionView::Command("delete to_end_line"@)]
    } else if name == "delete_to_start_line"@ {
        seq![ActionView::Command("delete to_start_line"@)]
    } else if name == "cut_char"@ {
        seq![ActionView::Command("copy char "@ + nb), ActionView::Command("delete char"@)]
    } else if name == "cut_line"@ {
        seq![ActionView::Command("copy line "@ + nb), ActionView::Command("delete line"@)]
    } else if name == "cut_word"@ {
        seq![ActionView::Command("copy word "@ + nb), ActionView::Command("delete word"@)]
    } else if name == "cut_to_next_word"@ {
        seq![ActionView::Command("copy to_next_word "@ + nb), ActionView::Command("delete to_next_word"@)]
    } else if name == "cut_to_prev_word"@ {
        seq![ActionView::Command("copy to_prev_word "@ + nb), ActionView::Command("delete to_prev_word"@)]
    } else if name == "cut_to_end_line"@ {
        seq![ActionView::Command("copy to_end_line "@ + nb), ActionView::Command("delete to_end_line"@)]
    } else if name == "cut_to_start_line"@ {
        seq![ActionView::Command("copy to_start_line "@ + nb), ActionView::Command("delete to_start_line"@)]
    } else if name == "paste_before"@ {
        seq![ActionView::Command("paste before "@ + nb)]
    } else if name == "paste_after"@ {
        seq![ActionView::Command("paste after "@ + nb)]
    } else if name == "undo"@ {
        seq![ActionView::Command("undo"@)]
    } else if name == "redo"@ {
        seq![ActionView::Command("redo"@)]
    } else {
        Seq::empty()
    }
}

/// Whether the command `name` of the normal mode leaves the typed keys and count as they are.
pub open spec fn normal_keeps_buffers(name: Seq<char>, nb: Seq<char>) -> bool {
    if name == "cancel"@ {
        false
    } else if name == "left"@ {
        false
    } else if name == "right"@ {
        false
    } else if name == "up"@ {
        false
    } else if name == "down"@ {
        false
    } else if name == "start_of_file"@ {
        false
    } else if name == "end_of_file"@ {
        false
    } else if name == "page_up"@ {
        false
    } else if name == "page_down"@ {
        false
    } else if name == "half_page_up"@ {
        false
    } else if name == "half_page_down"@ {
        false
    } else if name == "start_of_line"@ {
        false
    } else if name == "end_of_line"@ {
        false
    } else if name == "up_line_start"@ {
        false
    } else if name == "down_line_end"@ {
        false
    } else if name == "next_word_front"@ {
        false
    } else if name == "next_word_back"@ {
        false
    } else if name == "previous_word_front"@ {
        false
    } else if name == "previous_word_back"@ {
        false
    } else if name == "insert_before"@ {
        false
    } else if name == "insert_after"@ {
        false
    } else if name == "insert_start_of_line"@ {
        false
    } else if name == "insert_end_of_line"@ {
        false
    } else if name == "insert_below"@ {
        false
    } else if name == "insert_above"@ {
        false
    } else if name == "command_mode"@ {
        false
    } else if name == "selection_mode"@ {
        true
    } else if name == "selection_mode_line"@ {
        true
    } else if name == "selection_mode_block"@ {
        true
    } else if name == "search_mode_down"@ {
        true
    } else if name == "search_mode_up"@ {
        true
    } else if name == "replace_mode"@ {
        false
    } else if name == "goto_line"@ {
        nb.len() == 0
    } else if name == "copy_char"@ {
        false
    } else if name == "copy_line"@ {
        false
    } else if name == "copy_word"@ {
        false
    } else if name == "copy_to_next_word"@ {
        false
    } else if name == "copy_to_prev_word"@ {
        false
    } else if name == "copy_to_end_line"@ {
        false
    } else if name == "copy_to_start_line"@ {
        false
    } else if name == "delete_char"@ {
        false
    } else if name == "delete_line"@ {
        false
    } else if name == "delete_word"@ {
        false
    } else if name == "delete_to_next_word"@ {
        false
    } else if name == "delete_to_prev_word"@ {
        false
    } else if name == "delete_to_end_line"@ {
        false
    } else if name == "delete_to_start_line"@ {
        false
    } else if name == "cut_char"@ {
        false
    } else if name == "cut_line"@ {
        false
    } else if name == "cut_word"@ {
        false
    } else if name == "cut_to_next_word"@ {
        false
    } else if name == "cut_to_prev_word"@ {
        false
    } else if name == "cut_to_end_line"@ {
        false
    } else if name == "cut_to_start_line"@ {
        false
    } else if name == "paste_before"@ {
        false
    } else if name == "paste_after"@ {
        false
    } else if name == "undo"@ {
        false
    } else if name == "redo"@ {
        false
    } else {
        false
    }
}

/// The pane actions of the insert mode for the command `name`, `nb` being the typed count.
pub open spec fn insert_actions(name: Seq<char>, nb: Seq<char>, default_mode: Seq<char>) -> Seq<ActionView> {
    if name == "cancel"@ {
        if "Insert"@ != default_mode {
            seq![ActionView::Command("change_mode Normal"@), ActionView::Command("move right 1"@)]
        } else {
            Seq::empty()
        }
    } else if name == "tab"@ {
        seq![ActionView::Tab]
    } else if name == "backspace"@ {
        seq![ActionView::Backspace]
    } else if name == "delete"@ {
        seq![ActionView::Delete]
    } else if name == "newline"@ {
        seq![ActionView::Newline]
    } else if name == "left"@ {
        seq![ActionView::Command("move left 1"@)]
    } else if name == "right"@ {
        seq![ActionView::Command("move right 1"@)]
    } else if name == "up"@ {
        seq![ActionView::Command("move up 1"@)]
    } else if name == "down"@ {
        seq![ActionView::Command("move down 1"@)]
    } else if name == "start_of_file"@ {
        seq![ActionView::Command("move start_of_file"@)]
    } else if name == "end_of_file"@ {
        seq![ActionView::Command("move end_of_file"@)]
    } else if name == "page_up"@ {
        seq![ActionView::Command("move page_up 1"@)]
    } else if name == "page_down"@ {
        seq![ActionView::Command("move page_down 1"@)]
    } else if name == "half_page_up"@ {
        seq![ActionView::Command("move half_page_up 1"@)]
    } else if name == "half_page_down"@ {
        seq![ActionView::Command("move half_page_down 1"@)]
    } else if name == "start_of_line"@ {
        seq![ActionView::Command("move start_of_line"@)]
    } else if name == "end_of_line"@ {
        seq![ActionView::Command("move end_of_line"@)]
    } else if name == "up_line_start"@ {
        seq![ActionView::Command("move up_line_start"@)]
    } else if name == "down_line_end"@ {
        seq![ActionView::Command("move down_line_end"@)]
    } else if name == "next_word_front"@ {
        seq![ActionView::Command("move next_word_front"@)]
    } else if name == "next_word_back"@ {
        seq![ActionView::Command("move next_word_back"@)]
    } else if name == "previous_word_front"@ {
        seq![ActionView::Command("move previous_word_front"@)]
    } else if name == "previous_word_back"@ {
        seq![ActionView::Command("move previous_word_back"@)]
    } else if name == "command_mode"@ {
        seq![ActionView::Command("change_mode Command"@)]
    } else if name == "selection_mode"@ {
        seq![ActionView::Command("change_mode selection_normal"@)]
    } else if name == "selection_mode_line"@ {
        seq![ActionView::Command("change_mode selection_line"@)]
    } else if name == "selection_mode_block"@ {
        seq![ActionView::Command("change_mode selection_block"@)]
    } else if name == "search_mode_down"@ {
        seq![ActionView::Command("change_mode search_down"@)]
    } else if name == "search_mode_up"@ {
        seq![ActionView::Command("change_mode search_up"@)]
    } else if name == "replace_mode"@ {
        seq![ActionView::Command("change_mode replace"@)]
    } else if name == "goto_line"@ {
        if nb.len() > 0 {
            seq![ActionView::Command("goto_line "@ + nb)]
        } else {
            Seq::empty()
        }
    } else if name == "copy_char"@ {
        seq![ActionView::Command("copy char "@ + nb)]
    } else if name == "copy_line"@ {
        seq![ActionView::Command("copy line "@ + nb)]
    } else if name == "copy_word"@ {
        seq![ActionView::Command("copy word "@ + nb)]
    } else if name == "copy_to_next_word"@ {
        seq![ActionView::Command("copy to_next_word "@ + nb)]
    } else if name == "copy_to_prev_word"@ {
        seq![ActionView::Command("copy to_prev_word "@ + nb)]
    } else if name == "copy_to_end_line"@ {
        seq![ActionView::Command("copy to_end_line "@ + nb)]
    } else if name == "copy_to_start_line"@ {
        seq![ActionView::Command("copy to_start_line "@ + nb)]
    } else if name == "delete_char"@ {
        seq![ActionView::Command("delete char"@)]
    } else if name == "delete_line"@ {
        seq![ActionView::Command("delete line"@)]
    } else if name == "delete_word"@ {
        seq![ActionView::Command("delete word"@)]
    } else if name == "delete_to_next_word"@ {
        seq![ActionView::Command("delete to_next_word"@)]
    } else if name == "delete_to_prev_word"@ {
        seq![ActionView::Command("delete to_prev_word"@)]
    } else if name == "delete_to_end_line"@ {
        seq![ActionView::Command("delete to_end_line"@)]
    } else if name == "delete_to_start_line"@ {
        seq![ActionView::Command("delete to_start_line"@)]
    } else if name == "cut_char"@ {
        seq![ActionView::Command("copy char "@ + nb), ActionView::Command("delete char"@)]
    } else if name == "cut_line"@ {
        seq![ActionView::Command("copy line "@ + nb), ActionView::Command("delete line"@)]
    } else if name == "cut_word"@ {
        seq![ActionView::Command("copy word "@ + nb), ActionView::Command("delete word"@)]
    } else if name == "cut_to_next_word"@ {
        seq![ActionView::Command("copy to_next_word "@ + nb), ActionView::Command("delete to_next_word"@)]
    } else if name == "cut_to_prev_word"@ {
        seq![ActionView::Command("copy to_prev_word "@ + nb), ActionView::Command("delete to_prev_word"@)]
    } else if name == "cut_to_end_line"@ {
        seq![ActionView::Command("copy to_end_line "@ + nb), ActionView::Command("delete to_end_line"@)]
    } else if name == "cut_to_start_line"@ {
        seq![ActionView::Command("copy to_start_line "@ + nb), ActionView::Command("delete to_start_line"@)]
    } else if name == "paste_before"@ {
        seq![ActionView::Command("paste before "@ + nb)]
    } else if name == "paste_after"@ {
        seq![ActionView::Command("paste after "@ + nb)]
    } else if name == "undo"@ {
        seq![ActionView::Command("undo"@)]
    } else if name == "redo"@ {
        seq![ActionView::Command("redo"@)]
    } else {
        Seq::empty()
    }
}

/// Whether the command `name` of the insert mode leaves the typed keys and count as they are.
pub open spec fn insert_keeps_buffers(name: Seq<char>, nb: Seq<char>) -> bool {
    if name == "cancel"@ {
        false
    } else if name == "tab"@ {
        false
    } else if name == "backspace"@ {
        false
    } else if name == "delete"@ {
        false
    } else if name == "newline"@ {
        false
    } else if name == "left"@ {
        false
    } else if name == "right"@ {
        false
    } else if name == "up"@ {
        false
    } else if name == "down"@ {
        false
    } else if name == "start_of_file"@ {
        false
    } else if name == "end_of_file"@ {
        false
    } else if name == "page_up"@ {
        false
    } else if name == "page_down"@ {
        false
    } else if name == "half_page_up"@ {
        false
    } else if name == "half_page_down"@ {
        false
    } else if name == "start_of_line"@ {
        false
    } else if name == "end_of_line"@ {
        false
    } else if name == "up_line_start"@ {
        false
    } else if name == "down_line_end"@ {
        false
    } else if name == "next_word_front"@ {
        false
    } else if name == "next_word_back"@ {
        false
    } else if name == "previous_word_front"@ {
        false
    } else if name == "previous_word_back"@ {
        false
    } else if name == "command_mode"@ {
        false
    } else if name == "selection_mode"@ {
        true
    } else if name == "selection_mode_line"@ {
        true
    } else if name == "selection_mode_block"@ {
        true
    } else if name == "search_mode_down"@ {
        true
    } else if name == "search_mode_up"@ {
        true
    } else if name == "replace_mode"@ {
        false
    } else if name == "goto_line"@ {
        nb.len() == 0
    } else if name == "copy_char"@ {
        false
    } else if name == "copy_line"@ {
        false
    } else if name == "copy_word"@ {
        false
    } else if name == "copy_to_next_word"@ {
        false
    } else if name == "copy_to_prev_word"@ {
        false
    } else if name == "copy_to_end_line"@ {
        false
    } else if name == "copy_to_start_line"@ {
        false
    } else if name == "delete_char"@ {
        false
    } else if name == "delete_line"@ {
        false
    } else if name == "delete_word"@ {
        false
    } else if name == "delete_to_next_word"@ {
        false
    } else if name == "delete_to_prev_word"@ {
        false
    } else if name == "delete_to_end_line"@ {
        false
    } else if name == "delete_to_start_line"@ {
        false
    } else if name == "cut_char"@ {
        false
    } else if name == "cut_line"@ {
        false
    } else if name == "cut_word"@ {
        false
    } else if name == "cut_to_next_word"@ {
        false
    } else if name == "cut_to_prev_word"@ {
        false
    } else if name == "cut_to_end_line"@ {
        false
    } else if name == "cut_to_start_line"@ {
        false
    } else if name == "paste_before"@ {
        false
    } else if name == "paste_after"@ {
        false
    } else if name == "undo"@ {
        false
    } else if name == "redo"@ {
        false
    } else {
        false
    }
}

impl NormalMode {
    /// The mode with nothing typed.
    pub fn new() -> (m: NormalMode)
        ensures
            m@.number_buffer == Seq::<char>::empty(),
            m@.key_buffer == Seq::<KeyEvent>::empty(),
    {
        NormalMode { number_buffer: String::new(), key_buffer: Vec::new() }
    }

    /// Runs the command whose name is the first word of `command`: gives the pane actions
    /// for it, with the typed count where it takes one, and then forgets the typed keys and
    /// count, unless the command changes to a mode that reads them.
    pub fn execute_command(&mut self, command: &str) -> (out: Vec<PaneAction>)
        ensures
            actions_view(out@) == normal_actions(first_word(command@), old(self)@.number_buffer),
            normal_keeps_buffers(first_word(command@), old(self)@.number_buffer) ==> final(self)@ == old(self)@,
            !normal_keeps_buffers(first_word(command@), old(self)@.number_buffer) ==> final(self)@
                == (BuffersView { number_buffer: Seq::empty(), key_buffer: Seq::empty() }),
    {
        let word = first_word_of(command);
        let name = word.as_str();
        let mut out: Vec<PaneAction> = Vec::new();
        if str_eq(name, "cancel") {

        } else if str_eq(name, "left") {
            out.push(command_with("move left ", &self.number_buffer));
        } else if str_eq(name, "right") {
            out.push(command_with("move right ", &self.number_buffer));
        } else if str_eq(name, "up") {
            out.push(command_with("move up ", &self.number_buffer));
        } else if str_eq(name, "down") {
            out.push(command_with("move down ", &self.number_buffer));
        } else if str_eq(name, "start_of_file") {
            out.push(pane_command("move start_of_file"));
        } else if str_eq(name, "end_of_file") {
            out.push(pane_command("move end_of_file"));
        } else if str_eq(name, "page_up") {
            out.push(command_with("move page_up ", &self.number_buffer));
        } else if str_eq(name, "page_down") {
            out.push(command_with("move page_down ", &self.number_buffer));
        } else if str_eq(name, "half_page_up") {
            out.push(command_with("move half_page_up ", &self.number_buffer));
        } else if str_eq(name, "half_page_down") {
            out.push(command_with("move half_page_down ", &self.number_buffer));
        } else if str_eq(name, "start_of_line") {
            out.push(pane_command("move start_of_line"));
        } else if str_eq(name, "end_of_line") {
            out.push(pane_command("move end_of_line"));
        } else if str_eq(name, "up_line_start") {
            out.push(pane_command("move up_line_start"));
        } else if str_eq(name, "down_line_end") {
            out.push(pane_command("move down_line_end"));
        } else if str_eq(name, "next_word_front") {
            out.push(pane_command("move next_word_front"));
        } else if str_eq(name, "next_word_back") {
            out.push(pane_command("move next_word_back"));
        } else if str_eq(name, "previous_word_front") {
            out.push(pane_command("move previous_word_front"));
        } else if str_eq(name, "previous_word_back") {
            out.push(pane_command("move previous_word_back"));
        } else if str_eq(name, "insert_before") {
            out.push(pane_command("change_mode insert_before"));
        } else if str_eq(name, "insert_after") {
            out.push(pane_command("change_mode insert_after"));
        } else if str_eq(name, "insert_start_of_line") {
            out.push(pane_command("change_mode insert_start_of_line"));
        } else if str_eq(name, "insert_end_of_line") {
            out.push(pane_command("change_mode insert_end_of_line"));
        } else if str_eq(name, "insert_below") {
            out.push(pane_command("change_mode insert_below"));
        } else if str_eq(name, "insert_above") {
            out.push(pane_command("change_mode insert_above"));
        } else if str_eq(name, "command_mode") {
            out.push(pane_command("change_mode Command"));
        } else if str_eq(name, "selection_mode") {
            out.push(pane_command("change_mode selection_normal"));
            return out;
        } else if str_eq(name, "selection_mode_line") {
            out.push(pane_command("change_mode selection_line"));
            return out;
        } else if str_eq(name, "selection_mode_block") {
            out.push(pane_command("change_mode selection_block"));
            return out;
        } else if str_eq(name, "search_mode_down") {
            out.push(pane_command("change_mode search_down"));
            return out;
        } else if str_eq(name, "search_mode_up") {
            out.push(pane_command("change_mode search_up"));
            return out;
        } else if str_eq(name, "replace_mode") {
            out.push(pane_command("change_mode replace"));
        } else if str_eq(name, "goto_line") {
            if self.number_buffer.as_str().unicode_len() > 0 {
                out.push(command_with("goto_line ", &self.number_buffer));
            } else {
                return out;
            }
        } else if str_eq(name, "copy_char") {
            out.push(command_with("copy char ", &self.number_buffer));
        } else if str_eq(name, "copy_line") {
            out.push(command_with("copy line ", &self.number_buffer));
        } else if str_eq(name, "copy_word") {
            out.push(command_with("copy word ", &self.number_buffer));
        } else if str_eq(name, "copy_to_next_word") {
            out.push(command_with("copy to_next_word ", &self.number_buffer));
        } else if str_eq(name, "copy_to_prev_word") {
            out.push(command_with("copy to_prev_word ", &self.number_buffer));
        } else if str_eq(name, "copy_to_end_line") {
            out.push(command_with("copy to_end_line ", &self.number_buffer));
        } else if str_eq(name, "copy_to_start_line") {
            out.push(command_with("copy to_start_line ", &self.number_buffer));
        } else if str_eq(name, "delete_char") {
            out.push(pane_command("delete char"));
        } else if str_eq(name, "delete_line") {
            out.push(pane_command("delete line"));
        } else if str_eq(name, "delete_word") {
            out.push(pane_command("delete word"));
        } else if str_eq(name, "delete_to_next_word") {
            out.push(pane_command("delete to_next_word"));
        } else if str_eq(name, "delete_to_prev_word") {
            out.push(pane_command("delete to_prev_word"));
        } else if str_eq(name, "delete_to_end_line") {
            out.push(pane_command("delete to_end_line"));
        } else if str_eq(name, "delete_to_start_line") {
            out.push(pane_command("delete to_start_line"));
        } else if str_eq(name, "cut_char") {
            out.push(command_with("copy char ", &self.number_buffer));
            out.push(pane_command("delete char"));
        } else if str_eq(name, "cut_line") {
            out.push(command_with("copy line ", &self.number_buffer));
            out.push(pane_command("delete line"));
        } else if str_eq(name, "cut_word") {
            out.push(command_with("copy word ", &self.number_buffer));
            out.push(pane_command("delete word"));
        } else if str_eq(name, "cut_to_next_word") {
            out.push(command_with("copy to_next_word ", &self.number_buffer));
            out.push(pane_command("delete to_next_word"));
        } else if str_eq(name, "cut_to_prev_word") {
            out.push(command_with("copy to_prev_word ", &self.number_buffer));
            out.push(pane_command("delete to_prev_word"));
        } else if str_eq(name, "cut_to_end_line") {
            out.push(command_with("copy to_end_line ", &self.number_buffer));
            out.push(pane_command("delete to_end_line"));
        } else if str_eq(name, "cut_to_start_line") {
            out.push(command_with("copy to_start_line ", &self.number_buffer));
            out.push(pane_command("delete to_start_line"));
        } else if str_eq(name, "paste_before") {
            out.push(command_with("paste before ", &self.number_buffer));
        } else if str_eq(name, "paste_after") {
            out.push(command_with("paste after ", &self.number_buffer));
        } else if str_eq(name, "undo") {
            out.push(pane_command("undo"));
        } else if str_eq(name, "redo") {
            out.push(pane_command("redo"));
        }
        self.key_buffer.clear();
        self.number_buffer = String::new();
        proof {
            assert(actions_view(out@) =~= normal_actions(first_word(command@), old(self)@.number_buffer));
        }
        out
    }
}

impl InsertMode {
    /// The mode with nothing typed and no settings.
    pub fn new() -> (m: InsertMode)
        ensures
            m@.number_buffer == Seq::<char>::empty(),
            m@.key_buffer == Seq::<KeyEvent>::empty(),
            m.default_mode_view() is None,
    {
        InsertMode { key_buffer: Vec::new(), number_buffer: String::new(), default_mode: None }
    }

    /// The mode that the editor starts in, as the settings given to the mode name it.
    pub closed spec fn default_mode_view(&self) -> Option<Seq<char>> {
        match self.default_mode {
            Some(d) => Some(d@),
            None => None,
        }
    }

    /// Takes the default mode from the settings.
    pub fn add_settings(&mut self, settings: &Settings)
        ensures
            final(self)@ == old(self)@,
            final(self).default_mode_view() == Some(settings.editor_settings.default_mode@),
    {
        self.default_mode = Some(settings.editor_settings.default_mode.clone());
    }

    /// Runs `command`: gives the pane actions for it, and then forgets the typed keys and
    /// count, unless the command changes to a mode that reads them.
    pub fn execute_command(&mut self, command: &str) -> (out: Vec<PaneAction>)
        requires
            command@ == "cancel"@ ==> old(self).default_mode_view() is Some,
        ensures
            actions_view(out@) == insert_actions(
                command@,
                old(self)@.number_buffer,
                old(self).default_mode_view()->0,
            ),
            final(self).default_mode_view() == old(self).default_mode_view(),
            insert_keeps_buffers(command@, old(self)@.number_buffer) ==> final(self)@ == old(self)@,
            !insert_keeps_buffers(command@, old(self)@.number_buffer) ==> final(self)@
                == (BuffersView { number_buffer: Seq::empty(), key_buffer: Seq::empty() }),
    {
        let name = command;
        let mut out: Vec<PaneAction> = Vec::new();
        if str_eq(name, "cancel") {
            self.key_buffer.clear();
            let dm = match &self.default_mode {
                Some(d) => d,
                None => {
                    return out;
                },
            };
            if !str_eq("Insert", dm.as_str()) {
                out.push(pane_command("change_mode Normal"));
                out.push(pane_command("move right 1"));
            }
        } else if str_eq(name, "tab") {
            out.push(PaneAction::Tab);
        } else if str_eq(name, "backspace") {
            out.push(PaneAction::Backspace);
        } else if str_eq(name, "delete") {
            out.push(PaneAction::Delete);
        } else if str_eq(name, "newline") {
            out.push(PaneAction::Newline);
        } else if str_eq(name, "left") {
            out.push(pane_command("move left 1"));
        } else if str_eq(name, "right") {
            out.push(pane_command("move right 1"));
        } else if str_eq(name, "up") {
            out.push(pane_command("move up 1"));
        } else if str_eq(name, "down") {
            out.push(pane_command("move down 1"));
        } else if str_eq(name, "start_of_file") {
            out.push(pane_command("move start_of_file"));
        } else if str_eq(name, "end_of_file") {
            out.push(pane_command("move end_of_file"));
        } else if str_eq(name, "page_up") {
            out.push(pane_command("move page_up 1"));
        } else if str_eq(name, "page_down") {
            out.push(pane_command("move page_down 1"));
        } else if str_eq(name, "half_page_up") {
            out.push(pane_command("move half_page_up 1"));
        } else if str_eq(name, "half_page_down") {
            out.push(pane_command("move half_page_down 1"));
        } else if str_eq(name, "start_of_line") {
            out.push(pane_command("move start_of_line"));
        } else if str_eq(name, "end_of_line") {
            out.push(pane_command("move end_of_line"));
        } else if str_eq(name, "up_line_start") {
            out.push(pane_command("move up_line_start"));
        } else if str_eq(name, "down_line_end") {
            out.push(pane_command("move down_line_end"));
        } else if str_eq(name, "next_word_front") {
            out.push(pane_command("move next_word_front"));
        } else if str_eq(name, "next_word_back") {
            out.push(pane_command("move next_word_back"));
        } else if str_eq(name, "previous_word_front") {
            out.push(pane_command("move previous_word_front"));
        } else if str_eq(name, "previous_word_back") {
            out.push(pane_command("move previous_word_back"));
        } else if str_eq(name, "command_mode") {
            out.push(pane_command("change_mode Command"));
        } else if str_eq(name, "selection_mode") {
            out.push(pane_command("change_mode selection_normal"));
            return out;
        } else if str_eq(name, "selection_mode_line") {
            out.push(pane_command("change_mode selection_line"));
            return out;
        } else if str_eq(name, "selection_mode_block") {
            out.push(pane_command("change_mode selection_block"));
            return out;
        } else if str_eq(name, "search_mode_down") {
            out.push(pane_command("change_mode search_down"));
            return out;
        } else if str_eq(name, "search_mode_up") {
            out.push(pane_command("change_mode search_up"));
            return out;
        } else if str_eq(name, "replace_mode") {
            out.push(pane_command("change_mode replace"));
        } else if str_eq(name, "goto_line") {
            if self.number_buffer.as_str().unicode_len() > 0 {
                out.push(command_with("goto_line ", &self.number_buffer));
            } else {
                return out;
            }
        } else if str_eq(name, "copy_char") {
            out.push(command_with("copy char ", &self.number_buffer));
        } else if str_eq(name, "copy_line") {
            out.push(command_with("copy line ", &self.number_buffer));
        } else if str_eq(name, "copy_word") {
            out.push(command_with("copy word ", &self.number_buffer));
        } else if str_eq(name, "copy_to_next_word") {
            out.push(command_with("copy to_next_word ", &self.number_buffer));
        } else if str_eq(name, "copy_to_prev_word") {
            out.push(command_with("copy to_prev_word ", &self.number_buffer));
        } else if str_eq(name, "copy_to_end_line") {
            out.push(command_with("copy to_end_line ", &self.number_buffer));
        } else if str_eq(name, "copy_to_start_line") {
            out.push(command_with("copy to_start_line ", &self.number_buffer));
        } else if str_eq(name, "delete_char") {
            out.push(pane_command("delete char"));
        } else if str_eq(name, "delete_line") {
            out.push(pane_command("delete line"));
        } else if str_eq(name, "delete_word") {
            out.push(pane_command("delete word"));
        } else if str_eq(name, "delete_to_next_word") {
            out.push(pane_command("delete to_next_word"));
        } else if str_eq(name, "delete_to_prev_word") {
            out.push(pane_command("delete to_prev_word"));
        } else if str_eq(name, "delete_to_end_line") {
            out.push(pane_command("delete to_end_line"));
        } else if str_eq(name, "delete_to_start_line") {
            out.push(pane_command("delete to_start_line"));
        } else if str_eq(name, "cut_char") {
            out.push(command_with("copy char ", &self.number_buffer));
            out.push(pane_command("delete char"));
        } else if str_eq(name, "cut_line") {
            out.push(command_with("copy line ", &self.number_buffer));
            out.push(pane_command("delete line"));
        } else if str_eq(name, "cut_word") {
            out.push(command_with("copy word ", &self.number_buffer));
            out.push(pane_command("delete word"));
        } else if str_eq(name, "cut_to_next_word") {
            out.push(command_with("copy to_next_word ", &self.number_buffer));
            out.push(pane_command("delete to_next_word"));
        } else if str_eq(name, "cut_to_prev_word") {
            out.push(command_with("copy to_prev_word ", &self.number_buffer));
            out.push(pane_command("delete to_prev_word"));
        } else if str_eq(name, "cut_to_end_line") {
            out.push(command_with("copy to_end_line ", &self.number_buffer));
            out.push(pane_command("delete to_end_line"));
        } else if str_eq(name, "cut_to_start_line") {
            out.push(command_with("copy to_start_line ", &self.number_buffer));
            out.push(pane_command("delete to_start_line"));
        } else if str_eq(name, "paste_before") {
            out.push(command_with("paste before ", &self.number_buffer));
        } else if str_eq(name, "paste_after") {
            out.push(command_with("paste after ", &self.number_buffer));
        } else if str_eq(name, "undo") {
            out.push(pane_command("undo"));
        } else if str_eq(name, "redo") {
            out.push(pane_command("redo"));
        }
        self.key_buffer.clear();
        self.number_buffer = String::new();
        proof {
            assert(actions_view(out@) =~= insert_actions(
                command@,
                old(self)@.number_buffer,
                old(self).default_mode_view()->0,
            ));
        }
        out
    }
}

/// `n` written in decimal.
pub fn usize_to_decimal(n: usize) -> (s: String)
    ensures
        s@ == decimal(n as nat),
    decreases n,
{
    let d = digit_text(n % 10);
    if n < 10 {
        String::from_str(d)
    } else {
        let mut s = usize_to_decimal(n / 10);
        s.append(d);
        s
    }
}

/// The decimal digit `d` as text.
fn digit_text(d: usize) -> (s: &'static str)
    requires
        d < 10,
    ensures
        s@ == seq![crate::style::digit_char(d as nat)],
{
    proof {
        reveal_strlit("0");
        reveal_strlit("1");
        reveal_strlit("2");
        reveal_strlit("3");
        reveal_strlit("4");
        reveal_strlit("5");
        reveal_strlit("6");
        reveal_strlit("7");
        reveal_strlit("8");
        reveal_strlit("9");
    }
    if d == 0 {
        "0"
    } else if d == 1 {
        "1"
    } else if d == 2 {
        "2"
    } else if d == 3 {
        "3"
    } else if d == 4 {
        "4"
    } else if d == 5 {
        "5"
    } else if d == 6 {
        "6"
    } else if d == 7 {
        "7"
    } else if d == 8 {
        "8"
    } else {
        "9"
    }
}

/// The mode for typing a command.
pub struct CommandMode {
    command_buffer: String,
    edit_pos: usize,
    key_buffer: Vec<KeyEvent>,
    default_mode: Option<String>,
}

/// The state of a mode that edits a line of text: the text and the place of editing.
pub struct LineEditView {
    pub text: Seq<char>,
    pub edit_pos: nat,
    pub key_buffer: Seq<KeyEvent>,
}

impl View for CommandMode {
    type V = LineEditView;

    closed spec fn view(&self) -> LineEditView {
        LineEditView { text: self.command_buffer@, edit_pos: self.edit_pos as nat, key_buffer: self.key_buffer@ }
    }
}

impl CommandMode {
    /// The mode with nothing typed.
    pub fn new() -> (m: Self)
        ensures
            m@ == (LineEditView { text: Seq::empty(), edit_pos: 0, key_buffer: Seq::empty() }),
            m.default_mode_view() is None,
    {
        Self { command_buffer: String::new(), edit_pos: 0, key_buffer: Vec::new(), default_mode: None }
    }

    /// The mode that the editor starts in, as the settings given to the mode name it.
    pub closed spec fn default_mode_view(&self) -> Option<Seq<char>> {
        match self.default_mode {
            Some(d) => Some(d@),
            None => None,
        }
    }

    /// Takes the default mode from the settings.
    pub fn add_settings(&mut self, settings: &Settings)
        ensures
            final(self)@ == old(self)@,
            final(self).default_mode_view() == Some(settings.editor_settings.default_mode@),
    {
        self.default_mode = Some(settings.editor_settings.default_mode.clone());
    }

    /// Runs `command`: `cancel` forgets the typed command and goes back to the default mode,
    /// `execute` hands the typed command to the pane and goes back to the default mode, and
    /// the line editing commands edit the typed command.
    pub fn execute_command(&mut self, command: &str) -> (out: Vec<PaneAction>)
        requires
            command_uses_default(first_word(command@)) ==> old(self).default_mode_view() is Some,
            line_edit_ok(first_word(command@), encode_utf8(old(self)@.text), old(self)@.edit_pos as int),
        ensures
            (encode_utf8(final(self)@.text), final(self)@.edit_pos as int, actions_view(out@))
                == command_mode_step(
                first_word(command@),
                old(self)@.text,
                old(self)@.edit_pos as int,
                old(self).default_mode_view()->0,
            ),
            final(self)@.key_buffer == old(self)@.key_buffer,
            final(self).default_mode_view() == old(self).default_mode_view(),
    {
        let word = first_word_of(command);
        let name = word.as_str();
        let mut out: Vec<PaneAction> = Vec::new();
        if str_eq(name, "cancel") {
            self.command_buffer = String::new();
            self.edit_pos = 0;
            out.push(change_to_default(&self.default_mode));
        } else if str_eq(name, "execute") {
            let mut typed = String::new();
            std::mem::swap(&mut typed, &mut self.command_buffer);
            out.push(PaneAction::Command(typed));
            self.edit_pos = 0;
            out.push(change_to_default(&self.default_mode));
        } else {
            edit_line(name, &mut self.command_buffer, &mut self.edit_pos);
        }
        proof {
            assert(encode_utf8(Seq::<char>::empty()) =~= Seq::<u8>::empty());
            assert(actions_view(out@) =~= command_mode_step(
                first_word(command@),
                old(self)@.text,
                old(self)@.edit_pos as int,
                old(self).default_mode_view()->0,
            ).2);
        }
        out
    }

    /// Handles a key press: runs the command that the typed keys complete, or puts a typed
    /// character into the typed command.
    pub fn process_keypress(&mut self, key: KeyEvent, bindings: &mut ModeKeybindings) -> (out: Vec<PaneAction>)
        requires
            old(self).default_mode_view() is Some,
            command_key_ok(old(self)@, key, old(bindings)@),
        ensures
            final(bindings)@ == old(bindings)@,
            final(self).default_mode_view() == old(self).default_mode_view(),
            (encode_utf8(final(self)@.text), final(self)@.edit_pos as int, final(self)@.key_buffer, actions_view(out@))
                == command_key_step(old(self)@, key, old(self).default_mode_view()->0, old(bindings)@),
    {
        self.key_buffer.push(key);
        let name = mode_name("Command");
        let found = match bindings.get(&name, &self.key_buffer) {
            Some(c) => Some(c.clone()),
            None => None,
        };
        match found {
            Some(cmd) => {
                let out = self.execute_command(cmd.as_str());
                self.key_buffer = Vec::new();
                out
            },
            None => {
                let out: Vec<PaneAction> = Vec::new();
                match key.key {
                    Key::Char(c) => {
                        insert_at(&mut self.command_buffer, &mut self.edit_pos, c);
                        self.key_buffer = Vec::new();
                    },
                    _ => {},
                }
                assert(actions_view(out@) =~= Seq::empty());
                out
            },
        }
    }
}

/// Whether the command `name` of the command mode goes back to the default mode.
pub open spec fn command_uses_default(name: Seq<char>) -> bool {
    name == "cancel"@ || name == "execute"@
}

/// What the command `name` does in the command mode, whose typed command is `text` and
/// whose place of editing is `p`, with the default mode `dm`: the bytes of the typed command
/// after it, the place after it, and the pane actions.
pub open spec fn command_mode_step(name: Seq<char>, text: Seq<char>, p: int, dm: Seq<char>) -> (Seq<u8>, int, Seq<ActionView>) {
    if name == "cancel"@ {
        (Seq::empty(), 0, seq![ActionView::Command("change_mode "@ + dm)])
    } else if name == "execute"@ {
        (Seq::empty(), 0, seq![ActionView::Command(text), ActionView::Command("change_mode "@ + dm)])
    } else {
        let e = line_edit(name, encode_utf8(text), p);
        (e.0, e.1, Seq::empty())
    }
}

/// What a key press does in the command mode, in state `v` with the default mode `dm` and the
/// bindings `b`: the bytes of the typed command, the place of editing and the typed keys
/// after it, and the pane actions. A key that completes a command runs it; a character key
/// that completes none is put into the typed command at the place, which moves one byte on.
pub open spec fn command_key_step(v: LineEditView, key: KeyEvent, dm: Seq<char>, b: KeybindingsView) -> (Seq<u8>, int, Seq<KeyEvent>, Seq<ActionView>) {
    let kb = v.key_buffer.push(key);
    let bytes = encode_utf8(v.text);
    match lookup(b, "Command"@, kb) {
        Some(cmd) => {
            let r = command_mode_step(first_word(cmd), v.text, v.edit_pos as int, dm);
            (r.0, r.1, Seq::empty(), r.2)
        },
        None => match key.key {
            Key::Char(c) => (
                bytes.take(v.edit_pos as int) + encode_utf8(seq![c]) + bytes.skip(v.edit_pos as int),
                v.edit_pos + 1int,
                Seq::empty(),
                Seq::empty(),
            ),
            _ => (bytes, v.edit_pos as int, kb, Seq::empty()),
        },
    }
}

/// Whether a key press can be handled in the command mode: the command it completes can
/// edit the typed command, or the character it types goes where a character starts.
pub open spec fn command_key_ok(v: LineEditView, key: KeyEvent, b: KeybindingsView) -> bool {
    match lookup(b, "Command"@, v.key_buffer.push(key)) {
        Some(cmd) => line_edit_ok(first_word(cmd), encode_utf8(v.text), v.edit_pos as int),
        None => key.key is Char ==> is_char_boundary(encode_utf8(v.text), v.edit_pos as int),
    }
}

/// The mode for typing a pair of texts to put around a selection.
pub struct PairMode {
    key_buffer: Vec<KeyEvent>,
    text: String,
    edit_pos: usize,
    return_to: String,
    pairs: Vec<(String, String)>,
    default_mode: Option<String>,
}

impl View for PairMode {
    type V = LineEditView;

    closed spec fn view(&self) -> LineEditView {
        LineEditView { text: self.text@, edit_pos: self.edit_pos as nat, key_buffer: self.key_buffer@ }
    }
}

impl PairMode {
    /// The mode with nothing typed, going back to the selection mode when done.
    pub fn new() -> (m: Self)
        ensures
            m@ == (LineEditView { text: Seq::empty(), edit_pos: 0, key_buffer: Seq::empty() }),
            m.return_to_view() == "Selection"@,
            m.pairs_view() == Seq::<(Seq<char>, Seq<char>)>::empty(),
            m.default_mode_view() is None,
    {
        let m = Self {
            key_buffer: Vec::new(),
            text: String::new(),
            edit_pos: 0,
            return_to: String::from_str("Selection"),
            pairs: Vec::new(),
            default_mode: None,
        };
        assert(pair_views(m.pairs@) =~= Seq::<(Seq<char>, Seq<char>)>::empty());
        m
    }

    /// The mode to go back to when canceled.
    pub closed spec fn return_to_view(&self) -> Seq<char> {
        self.return_to@
    }

    /// The pairs the mode knows: an opening text and its closing text.
    pub closed spec fn pairs_view(&self) -> Seq<(Seq<char>, Seq<char>)> {
        pair_views(self.pairs@)
    }

    /// The mode the editor starts in, once the settings are known.
    pub closed spec fn default_mode_view(&self) -> Option<Seq<char>> {
        match self.default_mode {
            Some(d) => Some(d@),
            None => None,
        }
    }
}

/// Pairs of texts, seen as sequences.
pub open spec fn pair_views(ps: Seq<(String, String)>) -> Seq<(Seq<char>, Seq<char>)> {
    ps.map_values(|p: (String, String)| (p.0@, p.1@))
}

/// The closing text of the first pair that opens with `text`, if there is one.
pub open spec fn pair_for(ps: Seq<(Seq<char>, Seq<char>)>, text: Seq<char>) -> Option<Seq<char>>
    decreases ps.len(),
{
    if ps.len() == 0 {
        None
    } else if ps[0].0 == text {
        Some(ps[0].1)
    } else {
        pair_for(ps.drop_first(), text)
    }
}

/// The way a search goes through the text.
#[derive(Debug, Clone, Copy, PartialEq, Eq, Structural)]
pub enum SearchType {
    Forward,
    Backward,
}

/// The mode for typing a text to search for.
pub struct SearchMode {
    search_type: SearchType,
    search_string: String,
    edit_pos: usize,
    key_buffer: Vec<KeyEvent>,
    found_pos: Vec<usize>,
    number_buffer: String,
    searched_whole_file: bool,
    moving_cursor: bool,
    default_mode: Option<String>,
}

/// The state of a search mode.
pub struct SearchView {
    pub search_type: SearchType,
    pub search_string: Seq<char>,
    pub edit_pos: nat,
    pub key_buffer: Seq<KeyEvent>,
    pub found_pos: Seq<usize>,
    pub number_buffer: Seq<char>,
    pub searched_whole_file: bool,
    pub moving_cursor: bool,
}

impl View for SearchMode {
    type V = SearchView;

    closed spec fn view(&self) -> SearchView {
        SearchView {
            search_type: self.search_type,
            search_string: self.search_string@,
            edit_pos: self.edit_pos as nat,
            key_buffer: self.key_buffer@,
            found_pos: self.found_pos@,
            number_buffer: self.number_buffer@,
            searched_whole_file: self.searched_whole_file,
            moving_cursor: self.moving_cursor,
        }
    }
}

impl SearchMode {
    /// The mode searching forward for nothing yet.
    pub fn new() -> (m: Self)
        ensures
            m@ == (SearchView {
                search_type: SearchType::Forward,
                search_string: Seq::empty(),
                edit_pos: 0,
                key_buffer: Seq::empty(),
                found_pos: Seq::empty(),
                number_buffer: Seq::empty(),
                searched_whole_file: false,
                moving_cursor: false,
            }),
            m.default_mode_view() is None,
    {
        Self {
            search_type: SearchType::Forward,
            search_string: String::new(),
            edit_pos: 0,
            key_buffer: Vec::new(),
            found_pos: Vec::new(),
            number_buffer: String::new(),
            searched_whole_file: false,
            moving_cursor: false,
            default_mode: None,
        }
    }
}

/// The shape of a selection: from one place to another, whole rows, or a block of columns.
#[derive(Debug, Clone, Copy, PartialEq, Eq, Structural)]
pub enum SelectionType {
    Normal,
    Line,
    Block,
}

/// The mode for selecting text.
pub struct SelectionMode {
    selection_type: SelectionType,
    start: (usize, usize),
    key_buffer: Vec<KeyEvent>,
    number_buffer: String,
    default_mode: Option<String>,
}

/// The state of a selection mode.
pub struct SelectionView {
    pub selection_type: SelectionType,
    pub start: (usize, usize),
    pub key_buffer: Seq<KeyEvent>,
    pub number_buffer: Seq<char>,
}

impl View for SelectionMode {
    type V = SelectionView;

    closed spec fn view(&self) -> SelectionView {
        SelectionView {
            selection_type: self.selection_type,
            start: self.start,
            key_buffer: self.key_buffer@,
            number_buffer: self.number_buffer@,
        }
    }
}

/// The command that selects from column `a` of row `b` to column `c` of row `d`.
pub open spec fn select_text(a: usize, b: usize, c: usize, d: usize) -> Seq<char> {
    "select "@ + decimal(a as nat) + ","@ + decimal(b as nat) + " "@ + decimal(c as nat) + ","@
        + decimal(d as nat)
}

/// The command that selects row `i`.
pub open spec fn select_row_text(i: usize) -> Seq<char> {
    "select row "@ + decimal(i as nat)
}

/// The commands that select rows `lo..=hi`.
pub open spec fn row_selections(lo: usize, hi: usize) -> Seq<Seq<char>> {
    Seq::new((hi - lo + 1) as nat, |k: int| select_row_text((lo + k) as usize))
}

/// The commands that select columns from `col` to `start_col` (whichever is first) on rows
/// `lo..=hi`.
pub open spec fn block_selections(lo: usize, hi: usize, col: usize, start_col: usize) -> Seq<Seq<char>> {
    Seq::new(
        (hi - lo + 1) as nat,
        |k: int|
            if col < start_col {
                select_text(col, (lo + k) as usize, start_col, (lo + k) as usize)
            } else {
                select_text(start_col, (lo + k) as usize, col, (lo + k) as usize)
            },
    )
}

/// The commands that a selection of type `t` from `start` to the cursor at `cursor` gives,
/// after the one that clears the selection.
pub open spec fn selection_commands(t: SelectionType, start: (usize, usize), cursor: (usize, usize)) -> Seq<Seq<char>> {
    let (col, row) = cursor;
    let (start_col, start_row) = start;
    match t {
        SelectionType::Normal => if row < start_row || (row == start_row && col < start_col) {
            seq![select_text(col, row, start_col, start_row)]
        } else {
            seq![select_text(start_col, start_row, col, row)]
        },
        SelectionType::Line => if row <= start_row {
            row_selections(row, start_row)
        } else {
            row_selections(start_row, row)
        },
        SelectionType::Block => if row < start_row {
            block_selections(row, start_row, col, start_col)
        } else {
            block_selections(start_row, row, col, start_col)
        },
    }
}

/// The command that selects from column `a` of row `b` to column `c` of row `d`.
fn select_command(a: usize, b: usize, c: usize, d: usize) -> (s: String)
    ensures
        s@ == select_text(a, b, c, d),
{
    let mut s = String::from_str("select ");
    s.append(usize_to_decimal(a).as_str());
    s.append(",");
    s.append(usize_to_decimal(b).as_str());
    s.append(" ");
    s.append(usize_to_decimal(c).as_str());
    s.append(",");
    s.append(usize_to_decimal(d).as_str());
    s
}

/// The command that selects row `i`.
fn select_row_command(i: usize) -> (s: String)
    ensures
        s@ == select_row_text(i),
{
    let mut s = String::from_str("select row ");
    s.append(usize_to_decimal(i).as_str());
    s
}

/// Adds to `out` the commands that select rows `lo..=hi`, in order.
fn push_rows(out: &mut Vec<String>, lo: usize, hi: usize)
    requires
        lo <= hi,
    ensures
        final(out)@.map_values(|s: String| s@) == old(out)@.map_values(|s: String| s@) + row_selections(lo, hi),
{
    let ghost base = old(out)@.map_values(|s: String| s@);
    let mut i = lo;
    loop
        invariant
            lo <= i <= hi,
            base == old(out)@.map_values(|s: String| s@),
            out@.map_values(|s: String| s@) == base + Seq::new(
                (i - lo) as nat,
                |k: int| select_row_text((lo + k) as usize),
            ),
        decreases hi - i,
    {
        let ghost prev = out@.map_values(|s: String| s@);
        let c = select_row_command(i);
        out.push(c);
        proof {
            assert(out@.map_values(|s: String| s@) =~= prev.push(select_row_text(i)));
            assert(out@.map_values(|s: String| s@) =~= base + Seq::new(
                (i + 1 - lo) as nat,
                |k: int| select_row_text((lo + k) as usize),
            ));
        }
        if i == hi {
            assert(Seq::new((i + 1 - lo) as nat, |k: int| select_row_text((lo + k) as usize))
                =~= row_selections(lo, hi));
            assert(out@.map_values(|s: String| s@) =~= base + row_selections(lo, hi));
            return;
        }
        i = i + 1;
    }
}

/// Adds to `out` the commands that select the block columns on rows `lo..=hi`, in order.
fn push_blocks(out: &mut Vec<String>, lo: usize, hi: usize, col: usize, start_col: usize)
    requires
        lo <= hi,
    ensures
        final(out)@.map_values(|s: String| s@) == old(out)@.map_values(|s: String| s@) + block_selections(
            lo,
            hi,
            col,
            start_col,
        ),
{
    let ghost base = old(out)@.map_values(|s: String| s@);
    let mut i = lo;
    loop
        invariant
            lo <= i <= hi,
            base == old(out)@.map_values(|s: String| s@),
            out@.map_values(|s: String| s@) == base + Seq::new(
                (i - lo) as nat,
                |k: int| block_selections(lo, hi, col, start_col)[k],
            ),
        decreases hi - i,
    {
        let ghost prev = out@.map_values(|s: String| s@);
        let c = if col < start_col {
            select_command(col, i, start_col, i)
        } else {
            select_command(start_col, i, col, i)
        };
        out.push(c);
        proof {
            assert(out@.map_values(|s: String| s@) =~= prev.push(block_selections(lo, hi, col, start_col)[i - lo]));
            assert(out@.map_values(|s: String| s@) =~= base + Seq::new(
                (i + 1 - lo) as nat,
                |k: int| block_selections(lo, hi, col, start_col)[k],
            ));
        }
        if i == hi {
            assert(Seq::new((i + 1 - lo) as nat, |k: int| block_selections(lo, hi, col, start_col)[k])
                =~= block_selections(lo, hi, col, start_col));
            assert(out@.map_values(|s: String| s@) =~= base + block_selections(lo, hi, col, start_col));
            return;
        }
        i = i + 1;
    }
}

/// The command that changes to the mirror mode for a selection of shape `t`.
pub open spec fn mirror_mode_command(t: SelectionType) -> Seq<char> {
    match t {
        SelectionType::Normal => "change_mode mirror selection_normal_mirror"@,
        SelectionType::Line => "change_mode mirror selection_line_mirror"@,
        SelectionType::Block => "change_mode mirror selection_block_mirror"@,
    }
}

/// The command that changes to the pair mode for a selection of shape `t`.
pub open spec fn pair_mode_command(t: SelectionType) -> Seq<char> {
    match t {
        SelectionType::Normal => "change_mode pair selection_normal_pair"@,
        SelectionType::Line => "change_mode pair selection_line_pair"@,
        SelectionType::Block => "change_mode pair selection_block_pair"@,
    }
}

/// Whether the selection command `name` goes back to the default mode.
pub open spec fn selection_uses_default(name: Seq<char>) -> bool {
    name == "cancel"@ || name == "copy"@ || name == "delete"@ || name == "cut"@ || name == "paste"@
}

/// The pane actions of the selection mode for the command `name`, with the typed count
/// `nb`, the selection shape `t` and the default mode `dm`: a move is followed by selecting
/// again to the cursor, and copying, deleting, cutting or pasting the selection goes back to
/// the default mode and clears the selection.
pub open spec fn selection_actions(name: Seq<char>, nb: Seq<char>, t: SelectionType, dm: Seq<char>) -> Seq<ActionView> {
    if name == "cancel"@ {
        seq![ActionView::Command("change_mode "@ + dm), ActionView::Command("clear_selection"@)]
    } else if name == "left"@ {
        seq![ActionView::Command("move left "@ + nb), ActionView::Reselect]
    } else if name == "right"@ {
        seq![ActionView::Command("move right "@ + nb), ActionView::Reselect]
    } else if name == "up"@ {
        seq![ActionView::Command("move up "@ + nb), ActionView::Reselect]
    } else if name == "down"@ {
        seq![ActionView::Command("move down "@ + nb), ActionView::Reselect]
    } else if name == "start_of_file"@ {
        seq![ActionView::Command("move start_of_file"@), ActionView::Reselect]
    } else if name == "end_of_file"@ {
        seq![ActionView::Command("move end_of_file"@), ActionView::Reselect]
    } else if name == "page_up"@ {
        seq![ActionView::Command("move page_up "@ + nb), ActionView::Reselect]
    } else if name == "page_down"@ {
        seq![ActionView::Command("move page_down "@ + nb), ActionView::Reselect]
    } else if name == "half_page_up"@ {
        seq![ActionView::Command("move half_page_up "@ + nb), ActionView::Reselect]
    } else if name == "half_page_down"@ {
        seq![ActionView::Command("move half_page_down "@ + nb), ActionView::Reselect]
    } else if name == "start_of_line"@ {
        seq![ActionView::Command("move start_of_line"@), ActionView::Reselect]
    } else if name == "end_of_line"@ {
        seq![ActionView::Command("move end_of_line"@), ActionView::Reselect]
    } else if name == "up_line_start"@ {
        seq![ActionView::Command("move up_line_start"@), ActionView::Reselect]
    } else if name == "down_line_start"@ {
        seq![ActionView::Command("move down_line_start"@), ActionView::Reselect]
    } else if name == "next_word_front"@ {
        seq![ActionView::Command("move next_word_front "@ + nb), ActionView::Reselect]
    } else if name == "next_word_back"@ {
        seq![ActionView::Command("move next_word_back "@ + nb), ActionView::Reselect]
    } else if name == "previous_word_front"@ {
        seq![ActionView::Command("move prev_word_front "@ + nb), ActionView::Reselect]
    } else if name == "previous_word_back"@ {
        seq![ActionView::Command("move prev_word_back "@ + nb), ActionView::Reselect]
    } else if name == "copy"@ {
        seq![ActionView::Command("copy selection"@), ActionView::Command("change_mode "@ + dm), ActionView::Command("clear_selection"@)]
    } else if name == "delete"@ {
        seq![ActionView::Command("delete selection"@), ActionView::Command("change_mode "@ + dm), ActionView::Command("clear_selection"@)]
    } else if name == "cut"@ {
        seq![ActionView::Command("copy selection"@), ActionView::Command("delete selection"@), ActionView::Command("change_mode "@ + dm), ActionView::Command("clear_selection"@)]
    } else if name == "paste"@ {
        seq![ActionView::Command("paste selection"@), ActionView::Command("change_mode "@ + dm), ActionView::Command("clear_selection"@)]
    } else if name == "mirror_mode"@ {
        seq![ActionView::Command(mirror_mode_command(t))]
    } else if name == "pair_mode"@ {
        seq![ActionView::Command(pair_mode_command(t))]
    } else {
        Seq::empty()
    }
}

/// The command that changes to the default mode `dm`.
fn change_to_default(dm: &Option<String>) -> (a: PaneAction)
    requires
        dm is Some,
    ensures
        action_view(a) == ActionView::Command("change_mode "@ + dm->0@),
{
    match dm {
        Some(d) => command_with("change_mode ", d),
        None => PaneAction::Newline,
    }
}

impl SelectionMode {
    /// The mode selecting from one place to another, starting at the file's start.
    pub fn new() -> (m: SelectionMode)
        ensures
            m@ == (SelectionView {
                selection_type: SelectionType::Normal,
                start: (0, 0),
                key_buffer: Seq::empty(),
                number_buffer: Seq::empty(),
            }),
            m.default_mode_view() is None,
    {
        SelectionMode {
            selection_type: SelectionType::Normal,
            start: (0, 0),
            key_buffer: Vec::new(),
            number_buffer: String::new(),
            default_mode: None,
        }
    }

    /// The mode that the editor starts in, as the settings given to the mode name it.
    pub closed spec fn default_mode_view(&self) -> Option<Seq<char>> {
        match self.default_mode {
            Some(d) => Some(d@),
            None => None,
        }
    }

    /// Takes the default mode from the settings.
    pub fn add_settings(&mut self, settings: &Settings)
        ensures
            final(self)@ == old(self)@,
            final(self).default_mode_view() == Some(settings.editor_settings.default_mode@),
    {
        self.default_mode = Some(settings.editor_settings.default_mode.clone());
    }

    /// Runs `command`: gives the pane actions for it, and then forgets the typed keys and
    /// count.
    pub fn execute_command(&mut self, command: &str) -> (out: Vec<PaneAction>)
        requires
            selection_uses_default(first_word(command@)) ==> old(self).default_mode_view() is Some,
        ensures
            actions_view(out@) == selection_actions(
                first_word(command@),
                old(self)@.number_buffer,
                old(self)@.selection_type,
                old(self).default_mode_view()->0,
            ),
            final(self)@ == (SelectionView { key_buffer: Seq::empty(), number_buffer: Seq::empty(), ..old(self)@ }),
            final(self).default_mode_view() == old(self).default_mode_view(),
    {
        let word = first_word_of(command);
        let name = word.as_str();
        let mut out: Vec<PaneAction> = Vec::new();
        if str_eq(name, "cancel") {
            out.push(change_to_default(&self.default_mode));
            out.push(pane_command("clear_selection"));
        } else if str_eq(name, "left") {
            out.push(command_with("move left ", &self.number_buffer));
            out.push(PaneAction::Reselect);
        } else if str_eq(name, "right") {
            out.push(command_with("move right ", &self.number_buffer));
            out.push(PaneAction::Reselect);
        } else if str_eq(name, "up") {
            out.push(command_with("move up ", &self.number_buffer));
            out.push(PaneAction::Reselect);
        } else if str_eq(name, "down") {
            out.push(command_with("move down ", &self.number_buffer));
            out.push(PaneAction::Reselect);
        } else if str_eq(name, "start_of_file") {
            out.push(pane_command("move start_of_file"));
            out.push(PaneAction::Reselect);
        } else if str_eq(name, "end_of_file") {
            out.push(pane_command("move end_of_file"));
            out.push(PaneAction::Reselect);
        } else if str_eq(name, "page_up") {
            out.push(command_with("move page_up ", &self.number_buffer));
            out.push(PaneAction::Reselect);
        } else if str_eq(name, "page_down") {
            out.push(command_with("move page_down ", &self.number_buffer));
            out.push(PaneAction::Reselect);
        } else if str_eq(name, "half_page_up") {
            out.push(command_with("move half_page_up ", &self.number_buffer));
            out.push(PaneAction::Reselect);
        } else if str_eq(name, "half_page_down") {
            out.push(command_with("move half_page_down ", &self.number_buffer));
            out.push(PaneAction::Reselect);
        } else if str_eq(name, "start_of_line") {
            out.push(pane_command("move start_of_line"));
            out.push(PaneAction::Reselect);
        } else if str_eq(name, "end_of_line") {
            out.push(pane_command("move end_of_line"));
            out.push(PaneAction::Reselect);
        } else if str_eq(name, "up_line_start") {
            out.push(pane_command("move up_line_start"));
            out.push(PaneAction::Reselect);
        } else if str_eq(name, "down_line_start") {
            out.push(pane_command("move down_line_start"));
            out.push(PaneAction::Reselect);
        } else if str_eq(name, "next_word_front") {
            out.push(command_with("move next_word_front ", &self.number_buffer));
            out.push(PaneAction::Reselect);
        } else if str_eq(name, "next_word_back") {
            out.push(command_with("move next_word_back ", &self.number_buffer));
            out.push(PaneAction::Reselect);
        } else if str_eq(name, "previous_word_front") {
            out.push(command_with("move prev_word_front ", &self.number_buffer));
            out.push(PaneAction::Reselect);
        } else if str_eq(name, "previous_word_back") {
            out.push(command_with("move prev_word_back ", &self.number_buffer));
            out.push(PaneAction::Reselect);
        } else if str_eq(name, "copy") {
            out.push(pane_command("copy selection"));
            out.push(change_to_default(&self.default_mode));
            out.push(pane_command("clear_selection"));
        } else if str_eq(name, "delete") {
            out.push(pane_command("delete selection"));
            out.push(change_to_default(&self.default_mode));
            out.push(pane_command("clear_selection"));
        } else if str_eq(name, "cut") {
            out.push(pane_command("copy selection"));
            out.push(pane_command("delete selection"));
            out.push(change_to_default(&self.default_mode));
            out.push(pane_command("clear_selection"));
        } else if str_eq(name, "paste") {
            out.push(pane_command("paste selection"));
            out.push(change_to_default(&self.default_mode));
            out.push(pane_command("clear_selection"));
        } else if str_eq(name, "mirror_mode") {
            out.push(
                pane_command(
                    match self.selection_type {
                        SelectionType::Normal => "change_mode mirror selection_normal_mirror",
                        SelectionType::Line => "change_mode mirror selection_line_mirror",
                        SelectionType::Block => "change_mode mirror selection_block_mirror",
                    },
                ),
            );
        } else if str_eq(name, "pair_mode") {
            out.push(
                pane_command(
                    match self.selection_type {
                        SelectionType::Normal => "change_mode pair selection_normal_pair",
                        SelectionType::Line => "change_mode pair selection_line_pair",
                        SelectionType::Block => "change_mode pair selection_block_pair",
                    },
                ),
            );
        }
        proof {
            assert(actions_view(out@) =~= selection_actions(
                first_word(command@),
                old(self)@.number_buffer,
                old(self)@.selection_type,
                old(self).default_mode_view()->0,
            ));
        }
        self.key_buffer = Vec::new();
        self.number_buffer = String::new();
        out
    }

    /// Sets the shape of the selection.
    pub fn set_selection_type(&mut self, selection_type: SelectionType)
        ensures
            final(self)@ == (SelectionView { selection_type, ..old(self)@ }),
    {
        self.selection_type = selection_type;
    }

    /// Sets where the selection starts: a column and a row.
    pub fn set_start(&mut self, start: (usize, usize))
        ensures
            final(self)@ == (SelectionView { start, ..old(self)@ }),
    {
        self.start = start;
    }

    /// The pane commands that select from the start to the cursor at `cursor`: first the one
    /// that clears the selection, then those of the selection's shape.
    pub fn add_selection(&self, cursor: (usize, usize)) -> (out: Vec<String>)
        ensures
            out@.map_values(|s: String| s@) == seq!["clear_selection"@] + selection_commands(
                self@.selection_type,
                self@.start,
                cursor,
            ),
    {
        let (col, row) = cursor;
        let (start_col, start_row) = self.start;
        let mut out: Vec<String> = Vec::new();
        out.push(String::from_str("clear_selection"));
        assert(out@.map_values(|s: String| s@) =~= seq!["clear_selection"@]);
        match self.selection_type {
            SelectionType::Normal => {
                if row < start_row {
                    out.push(select_command(col, row, start_col, start_row));
                } else if row > start_row {
                    out.push(select_command(start_col, start_row, col, row));
                } else {
                    if col < start_col {
                        out.push(select_command(col, row, start_col, start_row));
                    } else {
                        out.push(select_command(start_col, start_row, col, row));
                    }
                }
            },
            SelectionType::Line => {
                if row == start_row {
                    out.push(select_row_command(row));
                    assert(row_selections(row, start_row) =~= seq![select_row_text(row)]);
                } else if row < start_row {
                    push_rows(&mut out, row, start_row);
                } else {
                    push_rows(&mut out, start_row, row);
                }
            },
            SelectionType::Block => {
                if row < start_row {
                    push_blocks(&mut out, row, start_row, col, start_col);
                } else {
                    push_blocks(&mut out, start_row, row, col, start_col);
                }
            },
        }
        assert(out@.map_values(|s: String| s@) =~= seq!["clear_selection"@] + selection_commands(
            self@.selection_type,
            self@.start,
            cursor,
        ));
        out
    }
}


/// The digit that the key event `k` types: a digit key pressed with no modifier.
pub open spec fn digit_of(k: KeyEvent) -> Option<char> {
    match k.key {
        Key::Char(c) => if k.modifiers.bits == 0 && '0' <= c <= '9' {
            Some(c)
        } else {
            None
        },
        _ => None,
    }
}

/// The state and pane actions after the normal mode, in state `v`, runs `cmd`.
pub open spec fn normal_run(v: BuffersView, cmd: Seq<char>) -> (BuffersView, Seq<ActionView>) {
    (
        if normal_keeps_buffers(first_word(cmd), v.number_buffer) {
            v
        } else {
            BuffersView { number_buffer: Seq::empty(), key_buffer: Seq::empty() }
        },
        normal_actions(first_word(cmd), v.number_buffer),
    )
}

/// The state and pane actions after the normal mode, in state `v`, adds `key` to its typed
/// keys and runs the command that they are bound to in the bindings `b`, if any.
pub open spec fn normal_lookup(v: BuffersView, key: KeyEvent, b: KeybindingsView) -> (BuffersView, Seq<ActionView>) {
    let w = BuffersView { key_buffer: v.key_buffer.push(key), ..v };
    match lookup(b, "Normal"@, w.key_buffer) {
        Some(cmd) => normal_run(w, cmd),
        None => (w, Seq::empty()),
    }
}

/// What a key press does in the normal mode, in state `v` with the bindings `b`: a digit adds
/// to the typed count (a zero with no count yet is a key of its own), escape forgets the
/// typed keys and count, and any other key is added to the typed keys.
pub open spec fn normal_key_step(v: BuffersView, key: KeyEvent, b: KeybindingsView) -> (BuffersView, Seq<ActionView>) {
    match digit_of(key) {
        Some(d) => if d == '0' && v.number_buffer.len() == 0 {
            normal_lookup(v, key, b)
        } else {
            (BuffersView { number_buffer: v.number_buffer.push(d), ..v }, Seq::empty())
        },
        None => if key.key == Key::Esc {
            (BuffersView { number_buffer: Seq::empty(), key_buffer: Seq::empty() }, Seq::empty())
        } else {
            normal_lookup(v, key, b)
        },
    }
}

/// The mode name `name` as a `String`.
fn mode_name(name: &str) -> (s: String)
    ensures
        s@ == name@,
{
    String::from_str(name)
}

impl NormalMode {
    /// Looks up the typed keys with `key` added and runs the command they are bound to.
    fn lookup_and_run(&mut self, key: KeyEvent, bindings: &mut ModeKeybindings) -> (out: Vec<PaneAction>)
        ensures
            final(bindings)@ == old(bindings)@,
            (final(self)@, actions_view(out@)) == normal_lookup(old(self)@, key, old(bindings)@),
    {
        self.key_buffer.push(key);
        let name = mode_name("Normal");
        let found = match bindings.get(&name, &self.key_buffer) {
            Some(c) => Some(c.clone()),
            None => None,
        };
        match found {
            Some(cmd) => self.execute_command(cmd.as_str()),
            None => {
                let out: Vec<PaneAction> = Vec::new();
                assert(actions_view(out@) =~= Seq::empty());
                out
            },
        }
    }

    /// Handles a key press: gives the pane actions of the command it completes, if any.
    pub fn process_keypress(&mut self, key: KeyEvent, bindings: &mut ModeKeybindings) -> (out: Vec<PaneAction>)
        ensures
            final(bindings)@ == old(bindings)@,
            (final(self)@, actions_view(out@)) == normal_key_step(old(self)@, key, old(bindings)@),
    {
        let digit = match key.key {
            Key::Char(c) => if key.modifiers.bits == 0 && '0' <= c && c <= '9' {
                Some(c)
            } else {
                None
            },
            _ => None,
        };
        match digit {
            Some(d) => {
                if d == '0' && self.number_buffer.unicode_len() == 0 {
                    self.lookup_and_run(key, bindings)
                } else {
                    string_push(&mut self.number_buffer, d);
                    let out: Vec<PaneAction> = Vec::new();
                    assert(actions_view(out@) =~= Seq::empty());
                    out
                }
            },
            None => {
                if key.key == Key::Esc {
                    self.key_buffer = Vec::new();
                    self.number_buffer = String::new();
                    let out: Vec<PaneAction> = Vec::new();
                    assert(actions_view(out@) =~= Seq::empty());
                    out
                } else {
                    self.lookup_and_run(key, bindings)
                }
            },
        }
    }
}

/// What a key press does in the insert mode, in state `v` with the default mode `dm` and the
/// bindings `b`: escape forgets the typed keys and, unless the editor starts in the insert
/// mode, changes to the normal mode one column to the right; a key that completes a command
/// runs it; a character key that completes none is put in the text.
pub open spec fn insert_key_step(v: BuffersView, key: KeyEvent, dm: Seq<char>, b: KeybindingsView) -> (BuffersView, Seq<ActionView>) {
    if key.key == Key::Esc {
        (
            BuffersView { key_buffer: Seq::empty(), ..v },
            if "Insert"@ != dm {
                seq![ActionView::Command("change_mode Normal"@), ActionView::Command("move right 1"@)]
            } else {
                Seq::empty()
            },
        )
    } else {
        let w = BuffersView { key_buffer: v.key_buffer.push(key), ..v };
        match lookup(b, "Insert"@, w.key_buffer) {
            Some(cmd) => (
                BuffersView {
                    key_buffer: Seq::empty(),
                    number_buffer: if insert_keeps_buffers(cmd, w.number_buffer) {
                        w.number_buffer
                    } else {
                        Seq::empty()
                    },
                },
                insert_actions(cmd, w.number_buffer, dm),
            ),
            None => match key.key {
                Key::Char(c) => (BuffersView { key_buffer: Seq::empty(), ..v }, seq![ActionView::InsertChar(c)]),
                _ => (w, Seq::empty()),
            },
        }
    }
}

impl InsertMode {
    /// Handles a key press: gives the pane actions of the command it completes, or puts a
    /// typed character in the text.
    pub fn process_keypress(&mut self, key: KeyEvent, bindings: &mut ModeKeybindings) -> (out: Vec<PaneAction>)
        requires
            old(self).default_mode_view() is Some,
        ensures
            final(bindings)@ == old(bindings)@,
            final(self).default_mode_view() == old(self).default_mode_view(),
            (final(self)@, actions_view(out@)) == insert_key_step(
                old(self)@,
                key,
                old(self).default_mode_view()->0,
                old(bindings)@,
            ),
    {
        if key.key == Key::Esc {
            self.key_buffer = Vec::new();
            let mut out: Vec<PaneAction> = Vec::new();
            let is_insert = match &self.default_mode {
                Some(d) => str_eq(d.as_str(), "Insert"),
                None => true,
            };
            if !is_insert {
                out.push(pane_command("change_mode Normal"));
                out.push(pane_command("move right 1"));
            }
            assert(actions_view(out@) =~= insert_key_step(
                old(self)@,
                key,
                old(self).default_mode_view()->0,
                old(bindings)@,
            ).1);
            return out;
        }
        self.key_buffer.push(key);
        let name = mode_name("Insert");
        let found = match bindings.get(&name, &self.key_buffer) {
            Some(c) => Some(c.clone()),
            None => None,
        };
        match found {
            Some(cmd) => {
                let out = self.execute_command(cmd.as_str());
                self.key_buffer = Vec::new();
                out
            },
            None => {
                let mut out: Vec<PaneAction> = Vec::new();
                match key.key {
                    Key::Char(c) => {
                        out.push(PaneAction::InsertChar(c));
                        self.key_buffer = Vec::new();
                    },
                    _ => {},
                }
                assert(actions_view(out@) =~= insert_key_step(
                    old(self)@,
                    key,
                    old(self).default_mode_view()->0,
                    old(bindings)@,
                ).1);
                out
            },
        }
    }
}

/// What a key press does in the selection mode, in state `v` with the default mode `dm` and
/// the bindings `b`: escape forgets the typed keys, goes back to the default mode and clears
/// the selection; any other key is added to the typed keys, and runs the command they
/// complete, if any.
pub open spec fn selection_key_step(v: SelectionView, key: KeyEvent, dm: Seq<char>, b: KeybindingsView) -> (SelectionView, Seq<ActionView>) {
    if key.key == Key::Esc {
        (
            SelectionView { key_buffer: Seq::empty(), ..v },
            seq![ActionView::Command("change_mode "@ + dm), ActionView::Command("clear_selection"@)],
        )
    } else {
        let w = SelectionView { key_buffer: v.key_buffer.push(key), ..v };
        match lookup(b, "Selection"@, w.key_buffer) {
            Some(cmd) => (
                SelectionView { key_buffer: Seq::empty(), number_buffer: Seq::empty(), ..w },
                selection_actions(first_word(cmd), w.number_buffer, w.selection_type, dm),
            ),
            None => (w, Seq::empty()),
        }
    }
}

impl SelectionMode {
    /// Handles a key press: gives the pane actions of the command it completes, if any.
    pub fn process_keypress(&mut self, key: KeyEvent, bindings: &mut ModeKeybindings) -> (out: Vec<PaneAction>)
        requires
            old(self).default_mode_view() is Some,
        ensures
            final(bindings)@ == old(bindings)@,
            final(self).default_mode_view() == old(self).default_mode_view(),
            (final(self)@, actions_view(out@)) == selection_key_step(
                old(self)@,
                key,
                old(self).default_mode_view()->0,
                old(bindings)@,
            ),
    {
        if key.key == Key::Esc {
            self.key_buffer = Vec::new();
            let mut out: Vec<PaneAction> = Vec::new();
            out.push(change_to_default(&self.default_mode));
            out.push(pane_command("clear_selection"));
            assert(actions_view(out@) =~= selection_key_step(
                old(self)@,
                key,
                old(self).default_mode_view()->0,
                old(bindings)@,
            ).1);
            return out;
        }
        self.key_buffer.push(key);
        let name = mode_name("Selection");
        let found = match bindings.get(&name, &self.key_buffer) {
            Some(c) => Some(c.clone()),
            None => None,
        };
        match found {
            Some(cmd) => self.execute_command(cmd.as_str()),
            None => {
                let out: Vec<PaneAction> = Vec::new();
                assert(actions_view(out@) =~= Seq::empty());
                out
            },
        }
    }
}


/// The typed keys `ks` as the status bar shows them: each followed by a space.
pub open spec fn keys_text(ks: Seq<KeyEvent>) -> Seq<char>
    decreases ks.len(),
{
    if ks.len() == 0 {
        Seq::empty()
    } else {
        keys_text(ks.drop_last()) + event_text(ks.last()) + " "@
    }
}

/// The typed keys as the status bar shows them.
fn keys_status(ks: &Vec<KeyEvent>) -> (s: String)
    ensures
        s@ == keys_text(ks@),
{
    let mut s = String::new();
    let mut i: usize = 0;
    while i < ks.len()
        invariant
            i <= ks@.len(),
            s@ == keys_text(ks@.take(i as int)),
        decreases ks.len() - i,
    {
        assert(ks@.take(i + 1).drop_last() =~= ks@.take(i as int));
        s.append(ks[i].to_string().as_str());
        s.append(" ");
        i = i + 1;
    }
    assert(ks@.take(ks@.len() as int) =~= ks@);
    s
}

/// The place `row`:`col` counted from one, as the status bar shows it.
pub open spec fn place_text(col: usize, row: usize) -> Seq<char> {
    decimal((row + 1) as nat) + ":"@ + decimal((col + 1) as nat)
}

/// The place counted from one.
fn place_status(col: usize, row: usize) -> (s: String)
    requires
        col < usize::MAX,
        row < usize::MAX,
    ensures
        s@ == place_text(col, row),
{
    let mut s = usize_to_decimal(row + 1);
    s.append(":");
    s.append(usize_to_decimal(col + 1).as_str());
    s
}

impl NormalMode {
    /// What the status bar shows of the mode with the cursor at column `col` of row `row`:
    /// the mode's name; the place, counted from one, and the typed count; the typed keys.
    pub fn update_status(&self, cursor: (usize, usize)) -> (r: (String, String, String))
        requires
            cursor.0 < usize::MAX,
            cursor.1 < usize::MAX,
        ensures
            r.0@ == "Normal"@,
            r.1@ == place_text(cursor.0, cursor.1) + if self@.number_buffer.len() > 0 {
                " "@ + self@.number_buffer
            } else {
                Seq::empty()
            },
            r.2@ == keys_text(self@.key_buffer),
    {
        let (col, row) = cursor;
        let mut first = place_status(col, row);
        if self.number_buffer.unicode_len() > 0 {
            first.append(" ");
            first.append(self.number_buffer.as_str());
        }
        (String::from_str("Normal"), first, keys_status(&self.key_buffer))
    }
}

impl InsertMode {
    /// What the status bar shows of the mode with the cursor at column `col` of row `row`:
    /// the mode's name; the place, counted from one; the typed keys.
    pub fn update_status(&self, cursor: (usize, usize)) -> (r: (String, String, String))
        requires
            cursor.0 < usize::MAX,
            cursor.1 < usize::MAX,
        ensures
            r.0@ == "Insert"@,
            r.1@ == place_text(cursor.0, cursor.1),
            r.2@ == keys_text(self@.key_buffer),
    {
        let (col, row) = cursor;
        (String::from_str("Insert"), place_status(col, row), keys_status(&self.key_buffer))
    }
}

/// The name of a selection shape.
pub open spec fn selection_type_name(t: SelectionType) -> Seq<char> {
    match t {
        SelectionType::Normal => "Normal"@,
        SelectionType::Line => "Line"@,
        SelectionType::Block => "Block"@,
    }
}

impl SelectionMode {
    /// What the status bar shows of the mode with the cursor at column `col` of row `row`:
    /// the mode's name; the place, counted from zero, and the typed count; the selection's
    /// shape.
    pub fn update_status(&self, cursor: (usize, usize)) -> (r: (String, String, String))
        ensures
            r.0@ == "Selection"@,
            r.1@ == decimal(cursor.1 as nat) + ":"@ + decimal(cursor.0 as nat) + if self@.number_buffer.len()
                > 0 {
                " "@ + self@.number_buffer
            } else {
                Seq::empty()
            },
            r.2@ == selection_type_name(self@.selection_type),
    {
        let (col, row) = cursor;
        let mut first = usize_to_decimal(row);
        first.append(":");
        first.append(usize_to_decimal(col).as_str());
        if self.number_buffer.unicode_len() > 0 {
            first.append(" ");
            first.append(self.number_buffer.as_str());
        }
        let second = match self.selection_type {
            SelectionType::Normal => String::from_str("Normal"),
            SelectionType::Line => String::from_str("Line"),
            SelectionType::Block => String::from_str("Block"),
        };
        (String::from_str("Selection"), first, second)
    }
}

impl CommandMode {
    /// What the status bar shows of the mode: its name, and the typed command after a colon.
    pub fn update_status(&self) -> (r: (String, String, String))
        ensures
            r.0@ == "Command"@,
            r.1@ == ":"@ + self@.text,
            r.2@ == Seq::<char>::empty(),
    {
        let mut first = String::from_str(":");
        first.append(self.command_buffer.as_str());
        (String::from_str("Command"), first, String::new())
    }
}


/// What the search mode does when its query may have changed: clears the selection, and
/// searches again where there is a query; where there is none, it forgets the places found.
pub open spec fn try_search_actions(query_empty: bool) -> Seq<ActionView> {
    if query_empty {
        seq![ActionView::Command("clear_selection"@)]
    } else {
        seq![ActionView::Command("clear_selection"@), ActionView::Search]
    }
}

/// What the command `name` does in the search mode, in state `v` with the default mode `dm`:
/// the bytes of the query and the place of editing after it, the pane actions, whether the
/// mode then follows the cursor (unchanged where `None`), whether it forgets the places
/// found, and whether it forgets the typed keys.
pub open spec fn search_step(name: Seq<char>, v: SearchView, dm: Seq<char>) -> (Seq<u8>, int, Seq<ActionView>, Option<bool>, bool, bool) {
    let b = encode_utf8(v.search_string);
    let p = v.edit_pos as int;
    let leave = seq![ActionView::Command("change_mode "@ + dm), ActionView::Command("clear_selection"@)];
    if name == "cancel"@ {
        (Seq::empty(), 0, leave, None, false, false)
    } else if name == "left"@ || name == "right"@ || name == "up"@ || name == "down"@ || name == "delete"@ {
        let e = line_edit(name, b, p);
        (e.0, e.1, Seq::empty(), Some(false), false, false)
    } else if name == "backspace"@ {
        if p > 0 {
            let e = line_edit(name, b, p);
            (e.0, e.1, try_search_actions(e.0.len() == 0), Some(false), e.0.len() == 0, false)
        } else if b.len() == 0 {
            (Seq::empty(), 0, leave + try_search_actions(true), Some(false), true, false)
        } else {
            (b, p, try_search_actions(false), Some(false), false, false)
        }
    } else if name == "copy"@ {
        (Seq::empty(), 0, seq![ActionView::Command("copy selection "@ + v.number_buffer)] + leave, None, false, false)
    } else if name == "delete_search"@ {
        (Seq::empty(), 0, seq![ActionView::Command("delete selection"@)] + leave, None, false, false)
    } else if name == "cut"@ {
        (
            Seq::empty(),
            0,
            seq![ActionView::Command("copy selection"@), ActionView::Command("delete selection"@)] + leave,
            None,
            false,
            false,
        )
    } else if name == "paste"@ {
        (Seq::empty(), 0, seq![ActionView::Command("paste selection "@ + v.number_buffer)] + leave, None, false, false)
    } else if name == "next_match"@ {
        (b, p, seq![ActionView::NextMatch], Some(true), false, true)
    } else if name == "previous_match"@ {
        (b, p, seq![ActionView::PreviousMatch], Some(true), false, true)
    } else {
        (b, p, Seq::empty(), None, false, false)
    }
}

/// The query that the search text `s` stands for: `\n`, `\t` and `\r` written with a
/// backslash are a line feed, a tab and a carriage return, and a doubled backslash is one.
pub open spec fn search_query(s: Seq<char>) -> Seq<char> {
    replaced(replaced(replaced(replaced(s, "\\n"@, "\n"@), "\\t"@, "\t"@), "\\r"@, "\r"@), "\\\\"@, "\\"@)
}

impl SearchMode {
    /// The mode that the editor starts in, as the settings given to the mode name it.
    pub closed spec fn default_mode_view(&self) -> Option<Seq<char>> {
        match self.default_mode {
            Some(d) => Some(d@),
            None => None,
        }
    }

    /// Takes the default mode from the settings.
    pub fn add_settings(&mut self, settings: &Settings)
        ensures
            final(self)@ == old(self)@,
            final(self).default_mode_view() == Some(settings.editor_settings.default_mode@),
    {
        self.default_mode = Some(settings.editor_settings.default_mode.clone());
    }

    /// Sets the direction of the search.
    pub fn set_search_type(&mut self, search_type: SearchType)
        ensures
            final(self)@ == (SearchView { search_type, ..old(self)@ }),
            final(self).default_mode_view() == old(self).default_mode_view(),
    {
        self.search_type = search_type;
    }

    /// Starts the mode: it no longer follows the cursor, has not searched the whole file, and
    /// has found nothing.
    pub fn start(&mut self)
        ensures
            final(self)@ == (SearchView {
                moving_cursor: false,
                searched_whole_file: false,
                found_pos: Seq::empty(),
                ..old(self)@
            }),
            final(self).default_mode_view() == old(self).default_mode_view(),
    {
        self.moving_cursor = false;
        self.searched_whole_file = false;
        self.found_pos = Vec::new();
    }

    /// The query that the typed search text stands for.
    pub fn get_search_query(&self) -> (q: String)
        ensures
            q@ == search_query(self@.search_string),
    {
        proof {
            reveal_strlit("\\n");
            reveal_strlit("\\t");
            reveal_strlit("\\r");
            reveal_strlit("\\\\");
        }
        let a = replace_all(self.search_string.as_str(), "\\n", "\n");
        let b = replace_all(a.as_str(), "\\t", "\t");
        let c = replace_all(b.as_str(), "\\r", "\r");
        replace_all(c.as_str(), "\\\\", "\\")
    }

    /// Clears the selection and searches again, or forgets the places found where there is no
    /// query.
    fn try_search(&mut self, out: &mut Vec<PaneAction>)
        ensures
            actions_view(final(out)@) == actions_view(old(out)@) + try_search_actions(
                encode_utf8(old(self)@.search_string).len() == 0,
            ),
            final(self)@ == (SearchView {
                found_pos: if encode_utf8(old(self)@.search_string).len() == 0 {
                    Seq::empty()
                } else {
                    old(self)@.found_pos
                },
                ..old(self)@
            }),
            final(self).default_mode_view() == old(self).default_mode_view(),
    {
        let ghost before = out@;
        out.push(pane_command("clear_selection"));
        let n = crate::buffer::str_byte_len(self.search_string.as_str());
        if n > 0 {
            out.push(PaneAction::Search);
        } else {
            self.found_pos = Vec::new();
        }
        proof {
            assert(actions_view(out@) =~= actions_view(before) + try_search_actions(n == 0));
        }
    }

    /// Runs `command`: edits the query, copies, deletes, cuts or pastes the selection and goes
    /// back to the default mode, or moves to the next or previous place found; then forgets
    /// the typed count.
    pub fn execute_command(&mut self, command: &str) -> (out: Vec<PaneAction>)
        requires
            old(self).default_mode_view() is Some,
            line_edit_ok(first_word(command@), encode_utf8(old(self)@.search_string), old(self)@.edit_pos as int),
        ensures
            ({
                let r = search_step(first_word(command@), old(self)@, old(self).default_mode_view()->0);
                &&& encode_utf8(final(self)@.search_string) == r.0
                &&& final(self)@.edit_pos == r.1
                &&& actions_view(out@) == r.2
                &&& final(self)@.moving_cursor == match r.3 {
                    Some(m) => m,
                    None => old(self)@.moving_cursor,
                }
                &&& final(self)@.found_pos == if r.4 { Seq::empty() } else { old(self)@.found_pos }
                &&& final(self)@.key_buffer == if r.5 { Seq::empty() } else { old(self)@.key_buffer }
            }),
            final(self)@.number_buffer == Seq::<char>::empty(),
            final(self)@.search_type == old(self)@.search_type,
            final(self)@.searched_whole_file == old(self)@.searched_whole_file,
            final(self).default_mode_view() == old(self).default_mode_view(),
    {
        proof {
            encode_utf8_valid_utf8(old(self)@.search_string);
        }
        let word = first_word_of(command);
        let name = word.as_str();
        let mut out: Vec<PaneAction> = Vec::new();
        if str_eq(name, "cancel") {
            self.search_string = String::new();
            self.edit_pos = 0;
            out.push(change_to_default(&self.default_mode));
            out.push(pane_command("clear_selection"));
        } else if str_eq(name, "left") || str_eq(name, "right") || str_eq(name, "up") || str_eq(name, "down")
            || str_eq(name, "delete") {
            edit_line(name, &mut self.search_string, &mut self.edit_pos);
            self.moving_cursor = false;
        } else if str_eq(name, "backspace") {
            if self.edit_pos > 0 {
                edit_line(name, &mut self.search_string, &mut self.edit_pos);
            } else if crate::buffer::str_byte_len(self.search_string.as_str()) == 0 {
                self.search_string = String::new();
                self.edit_pos = 0;
                out.push(change_to_default(&self.default_mode));
                out.push(pane_command("clear_selection"));
            }
            self.try_search(&mut out);
            self.moving_cursor = false;
        } else if str_eq(name, "copy") {
            out.push(command_with("copy selection ", &self.number_buffer));
            out.push(change_to_default(&self.default_mode));
            out.push(pane_command("clear_selection"));
            self.search_string = String::new();
            self.edit_pos = 0;
        } else if str_eq(name, "delete_search") {
            out.push(pane_command("delete selection"));
            out.push(change_to_default(&self.default_mode));
            out.push(pane_command("clear_selection"));
            self.search_string = String::new();
            self.edit_pos = 0;
        } else if str_eq(name, "cut") {
            out.push(pane_command("copy selection"));
            out.push(pane_command("delete selection"));
            out.push(change_to_default(&self.default_mode));
            out.push(pane_command("clear_selection"));
            self.search_string = String::new();
            self.edit_pos = 0;
        } else if str_eq(name, "paste") {
            out.push(command_with("paste selection ", &self.number_buffer));
            out.push(change_to_default(&self.default_mode));
            out.push(pane_command("clear_selection"));
            self.search_string = String::new();
            self.edit_pos = 0;
        } else if str_eq(name, "next_match") {
            out.push(PaneAction::NextMatch);
            self.key_buffer = Vec::new();
            self.moving_cursor = true;
        } else if str_eq(name, "previous_match") {
            out.push(PaneAction::PreviousMatch);
            self.key_buffer = Vec::new();
            self.moving_cursor = true;
        }
        self.number_buffer = String::new();
        proof {
            assert(encode_utf8(Seq::<char>::empty()) =~= Seq::<u8>::empty());
            let r = search_step(first_word(command@), old(self)@, old(self).default_mode_view()->0);
            assert(actions_view(out@) =~= r.2);
        }
        out
    }

    /// What the status bar shows of the mode: its name, and the direction sign (`/` forward,
    /// `?` backward) with the typed text and a space.
    pub fn update_status(&self) -> (r: (String, String, String))
        ensures
            r.0@ == "Search"@,
            r.1@ == (match self@.search_type {
                SearchType::Forward => "/"@,
                SearchType::Backward => "?"@,
            }) + self@.search_string + " "@,
            r.2@ == Seq::<char>::empty(),
    {
        let mut first = match self.search_type {
            SearchType::Forward => String::from_str("/"),
            SearchType::Backward => String::from_str("?"),
        };
        first.append(self.search_string.as_str());
        first.append(" ");
        (String::from_str("Search"), first, String::new())
    }
}


/// What a key press does in the search mode, in state `v` with the default mode `dm` and the
/// bindings `b`, as `search_step` gives it: a key that completes a command runs it and the
/// typed keys are forgotten; a character key that completes none is put into the query at the
/// place, which moves one byte on, and the search runs again; the mode stops following the
/// cursor where no command runs.
pub open spec fn search_key_step(v: SearchView, key: KeyEvent, dm: Seq<char>, b: KeybindingsView) -> (Seq<u8>, int, Seq<ActionView>, Option<bool>, bool, bool) {
    let kb = v.key_buffer.push(key);
    let w = SearchView { key_buffer: kb, ..v };
    let bytes = encode_utf8(v.search_string);
    match lookup(b, "Search"@, kb) {
        Some(cmd) => {
            let r = search_step(first_word(cmd), w, dm);
            (r.0, r.1, r.2, r.3, r.4, true)
        },
        None => match key.key {
            Key::Char(c) => (
                bytes.take(v.edit_pos as int) + encode_utf8(seq![c]) + bytes.skip(v.edit_pos as int),
                v.edit_pos + 1int,
                try_search_actions(false),
                Some(false),
                false,
                true,
            ),
            _ => (bytes, v.edit_pos as int, Seq::empty(), Some(false), false, false),
        },
    }
}

/// Whether a key press can be handled in the search mode.
pub open spec fn search_key_ok(v: SearchView, key: KeyEvent, b: KeybindingsView) -> bool {
    match lookup(b, "Search"@, v.key_buffer.push(key)) {
        Some(cmd) => line_edit_ok(first_word(cmd), encode_utf8(v.search_string), v.edit_pos as int),
        None => key.key is Char ==> is_char_boundary(encode_utf8(v.search_string), v.edit_pos as int),
    }
}

impl SearchMode {
    /// Handles a key press: runs the command that the typed keys complete, or puts a typed
    /// character into the query and searches again.
    pub fn process_keypress(&mut self, key: KeyEvent, bindings: &mut ModeKeybindings) -> (out: Vec<PaneAction>)
        requires
            old(self).default_mode_view() is Some,
            search_key_ok(old(self)@, key, old(bindings)@),
        ensures
            final(bindings)@ == old(bindings)@,
            final(self).default_mode_view() == old(self).default_mode_view(),
            ({
                let r = search_key_step(old(self)@, key, old(self).default_mode_view()->0, old(bindings)@);
                &&& encode_utf8(final(self)@.search_string) == r.0
                &&& final(self)@.edit_pos == r.1
                &&& actions_view(out@) == r.2
                &&& final(self)@.moving_cursor == match r.3 {
                    Some(m) => m,
                    None => old(self)@.moving_cursor,
                }
                &&& final(self)@.found_pos == if r.4 { Seq::empty() } else { old(self)@.found_pos }
                &&& final(self)@.key_buffer == if r.5 { Seq::empty() } else { old(self)@.key_buffer.push(key) }
            }),
            final(self)@.search_type == old(self)@.search_type,
    {
        self.key_buffer.push(key);
        let name = mode_name("Search");
        let found = match bindings.get(&name, &self.key_buffer) {
            Some(c) => Some(c.clone()),
            None => None,
        };
        match found {
            Some(cmd) => {
                let out = self.execute_command(cmd.as_str());
                self.key_buffer = Vec::new();
                out
            },
            None => {
                self.moving_cursor = false;
                let mut out: Vec<PaneAction> = Vec::new();
                match key.key {
                    Key::Char(c) => {
                        insert_at(&mut self.search_string, &mut self.edit_pos, c);
                        self.key_buffer = Vec::new();
                        proof {
                            encode_utf8_valid_utf8(seq![c]);
                            assert(encode_utf8(seq![c]).len() > 0) by {
                                assert(encode_utf8(seq![c]) == encode_scalar(c as u32) + encode_utf8(
                                    seq![c].drop_first(),
                                ));
                            }
                        }
                        self.try_search(&mut out);
                    },
                    _ => {},
                }
                proof {
                    assert(actions_view(out@) =~= search_key_step(
                        old(self)@,
                        key,
                        old(self).default_mode_view()->0,
                        old(bindings)@,
                    ).2);
                }
                out
            },
        }
    }
}


/// What the command `name` does in the pair mode, whose typed text is `text` and whose place
/// of editing is `p`, going back to the mode `back` when canceled, with the pairs `pairs` and
/// the default mode `default`: the bytes of the text and the place after it, the pane actions,
/// and whether the typed keys are forgotten. `cancel` clears the text and goes back;
/// `execute` puts the text and its closing text around the selected runs (or says that the
/// text has no pair), clears the selection and goes to the default mode; the line editing
/// commands edit the text.
pub open spec fn pair_step(
    name: Seq<char>,
    text: Seq<char>,
    p: int,
    back: Seq<char>,
    pairs: Seq<(Seq<char>, Seq<char>)>,
    default: Seq<char>,
) -> (Seq<u8>, int, Seq<ActionView>, bool) {
    if name == "cancel"@ {
        (Seq::empty(), 0, seq![ActionView::Command("change_mode "@ + back)], true)
    } else if name == "execute"@ {
        let first = match pair_for(pairs, text) {
            Some(close) => ActionView::InsertPairs(text, close),
            None => ActionView::Message("No pair found for "@ + text),
        };
        (
            encode_utf8(text),
            p,
            seq![first, ActionView::Command("clear_selection"@), ActionView::Command("change_mode "@ + default)],
            true,
        )
    } else {
        let e = line_edit(name, encode_utf8(text), p);
        (e.0, e.1, Seq::empty(), false)
    }
}

/// What a key press does in the pair mode, in state `v` going back to `back` with the
/// bindings `b`, the pairs `pairs` and the default mode `default`: a key that completes a
/// command runs it; a character key (or tab) that completes none is put into the text at the
/// place, which moves one byte on. The typed keys are forgotten either way.
pub open spec fn pair_key_step(
    v: LineEditView,
    key: KeyEvent,
    back: Seq<char>,
    b: KeybindingsView,
    pairs: Seq<(Seq<char>, Seq<char>)>,
    default: Seq<char>,
) -> (Seq<u8>, int, Seq<ActionView>) {
    let bytes = encode_utf8(v.text);
    match lookup(b, "Pair"@, v.key_buffer.push(key)) {
        Some(cmd) => {
            let r = pair_step(first_word(cmd), v.text, v.edit_pos as int, back, pairs, default);
            (r.0, r.1, r.2)
        },
        None => match key.key {
            Key::Char(c) => (
                bytes.take(v.edit_pos as int) + encode_utf8(seq![c]) + bytes.skip(v.edit_pos as int),
                v.edit_pos + 1int,
                Seq::empty(),
            ),
            Key::Tab => (
                bytes.take(v.edit_pos as int) + encode_utf8(seq!['\t']) + bytes.skip(v.edit_pos as int),
                v.edit_pos + 1int,
                Seq::empty(),
            ),
            _ => (bytes, v.edit_pos as int, Seq::empty()),
        },
    }
}

/// Whether a key press can be handled in the pair mode: the settings are known where the
/// command executes.
pub open spec fn pair_key_ok(v: LineEditView, key: KeyEvent, b: KeybindingsView, default: Option<Seq<char>>) -> bool {
    match lookup(b, "Pair"@, v.key_buffer.push(key)) {
        Some(cmd) => line_edit_ok(first_word(cmd), encode_utf8(v.text), v.edit_pos as int) && (first_word(cmd)
            == "execute"@ ==> default is Some),
        None => (key.key is Char || key.key is Tab) ==> is_char_boundary(encode_utf8(v.text), v.edit_pos as int),
    }
}

impl PairMode {
    /// Sets the mode to go back to when canceled.
    pub fn set_return_to(&mut self, mode: String)
        ensures
            final(self)@ == old(self)@,
            final(self).return_to_view() == mode@,
            final(self).pairs_view() == old(self).pairs_view(),
            final(self).default_mode_view() == old(self).default_mode_view(),
    {
        self.return_to = mode;
    }

    /// Takes in the settings: the default mode to go to when done.
    pub fn add_settings(&mut self, settings: &Settings)
        ensures
            final(self)@ == old(self)@,
            final(self).return_to_view() == old(self).return_to_view(),
            final(self).pairs_view() == old(self).pairs_view(),
            final(self).default_mode_view() == Some(settings.editor_settings.default_mode@),
    {
        self.default_mode = Some(settings.editor_settings.default_mode.clone());
    }

    /// Sets the pairs the mode knows: an opening text and its closing text.
    pub fn set_pairs(&mut self, pairs: Vec<(String, String)>)
        ensures
            final(self)@ == old(self)@,
            final(self).return_to_view() == old(self).return_to_view(),
            final(self).pairs_view() == pair_views(pairs@),
            final(self).default_mode_view() == old(self).default_mode_view(),
    {
        self.pairs = pairs;
    }

    /// Starts the mode with nothing typed.
    pub fn start(&mut self)
        ensures
            final(self)@ == (LineEditView { text: Seq::empty(), edit_pos: 0, key_buffer: Seq::empty() }),
            final(self).return_to_view() == old(self).return_to_view(),
            final(self).pairs_view() == old(self).pairs_view(),
            final(self).default_mode_view() == old(self).default_mode_view(),
    {
        self.text = String::new();
        self.edit_pos = 0;
        self.key_buffer = Vec::new();
    }

    /// The closing text of the first pair that opens with the typed text, if there is one.
    fn find_pair(&self) -> (r: Option<String>)
        ensures
            match r {
                Some(c) => pair_for(self.pairs_view(), self@.text) == Some(c@),
                None => pair_for(self.pairs_view(), self@.text) is None,
            },
    {
        let ghost ps = pair_views(self.pairs@);
        let mut i: usize = 0;
        assert(ps.skip(0) =~= ps);
        while i < self.pairs.len()
            invariant
                i <= self.pairs@.len(),
                ps == pair_views(self.pairs@),
                pair_for(ps, self@.text) == pair_for(ps.skip(i as int), self@.text),
            decreases self.pairs.len() - i,
        {
            assert(ps.skip(i as int).drop_first() =~= ps.skip(i + 1));
            assert(ps.skip(i as int)[0] == (self.pairs@[i as int].0@, self.pairs@[i as int].1@));
            if str_eq(self.pairs[i].0.as_str(), self.text.as_str()) {
                return Some(String::from_str(self.pairs[i].1.as_str()));
            }
            i = i + 1;
        }
        None
    }

    /// Runs `command`: `cancel` clears the text and goes back to the mode it came from;
    /// `execute` puts the typed text and its closing text around the selected runs, or says
    /// that it has no pair, clears the selection and goes to the default mode; the line
    /// editing commands edit the text.
    pub fn execute_command(&mut self, command: &str) -> (out: Vec<PaneAction>)
        requires
            line_edit_ok(first_word(command@), encode_utf8(old(self)@.text), old(self)@.edit_pos as int),
            first_word(command@) == "execute"@ ==> old(self).default_mode_view() is Some,
        ensures
            ({
                let r = pair_step(
                    first_word(command@),
                    old(self)@.text,
                    old(self)@.edit_pos as int,
                    old(self).return_to_view(),
                    old(self).pairs_view(),
                    old(self).default_mode_view()->0,
                );
                &&& encode_utf8(final(self)@.text) == r.0
                &&& final(self)@.edit_pos == r.1
                &&& actions_view(out@) == r.2
                &&& final(self)@.key_buffer == if r.3 { Seq::empty() } else { old(self)@.key_buffer }
            }),
            final(self).return_to_view() == old(self).return_to_view(),
            final(self).pairs_view() == old(self).pairs_view(),
            final(self).default_mode_view() == old(self).default_mode_view(),
    {
        proof {
            reveal_strlit("cancel");
            reveal_strlit("execute");
            assert("cancel"@[0] != "execute"@[0]);
        }
        let word = first_word_of(command);
        let name = word.as_str();
        let mut out: Vec<PaneAction> = Vec::new();
        if str_eq(name, "cancel") {
            self.text = String::new();
            self.edit_pos = 0;
            out.push(command_with("change_mode ", &self.return_to));
            self.key_buffer = Vec::new();
        } else if str_eq(name, "execute") {
            match self.find_pair() {
                Some(close) => {
                    out.push(PaneAction::InsertPairs(String::from_str(self.text.as_str()), close));
                },
                None => {
                    let mut m = String::from_str("No pair found for ");
                    m.append(self.text.as_str());
                    out.push(PaneAction::Message(m));
                },
            }
            out.push(pane_command("clear_selection"));
            match &self.default_mode {
                Some(d) => {
                    out.push(command_with("change_mode ", d));
                },
                None => {},
            }
            self.key_buffer = Vec::new();
        } else {
            edit_line(name, &mut self.text, &mut self.edit_pos);
        }
        proof {
            assert(encode_utf8(Seq::<char>::empty()) =~= Seq::<u8>::empty());
            assert(actions_view(out@) =~= pair_step(
                first_word(command@),
                old(self)@.text,
                old(self)@.edit_pos as int,
                old(self).return_to_view(),
                old(self).pairs_view(),
                old(self).default_mode_view()->0,
            ).2);
        }
        out
    }

    /// Handles a key press: runs the command that the typed keys complete, or puts a typed
    /// character or tab into the text.
    pub fn process_keypress(&mut self, key: KeyEvent, bindings: &mut ModeKeybindings) -> (out: Vec<PaneAction>)
        requires
            pair_key_ok(old(self)@, key, old(bindings)@, old(self).default_mode_view()),
        ensures
            final(bindings)@ == old(bindings)@,
            final(self).return_to_view() == old(self).return_to_view(),
            final(self).pairs_view() == old(self).pairs_view(),
            final(self).default_mode_view() == old(self).default_mode_view(),
            (encode_utf8(final(self)@.text), final(self)@.edit_pos as int, actions_view(out@)) == pair_key_step(
                old(self)@,
                key,
                old(self).return_to_view(),
                old(bindings)@,
                old(self).pairs_view(),
                old(self).default_mode_view()->0,
            ),
            final(self)@.key_buffer == Seq::<KeyEvent>::empty(),
    {
        self.key_buffer.push(key);
        let name = mode_name("Pair");
        let found = match bindings.get(&name, &self.key_buffer) {
            Some(c) => Some(c.clone()),
            None => None,
        };
        match found {
            Some(cmd) => {
                let out = self.execute_command(cmd.as_str());
                self.key_buffer = Vec::new();
                out
            },
            None => {
                match key.key {
                    Key::Char(c) => {
                        insert_at(&mut self.text, &mut self.edit_pos, c);
                    },
                    Key::Tab => {
                        insert_at(&mut self.text, &mut self.edit_pos, '\t');
                    },
                    _ => {},
                }
                self.key_buffer = Vec::new();
                let out: Vec<PaneAction> = Vec::new();
                assert(actions_view(out@) =~= Seq::empty());
                out
            },
        }
    }
}


/// Whether the places of `s` rise strictly, as those of a set kept in order.
pub open spec fn increasing(s: Seq<usize>) -> bool {
    forall|i: int, j: int| 0 <= i < j < s.len() ==> s[i] < s[j]
}

/// Walking up the places found from the `i`-th: places before `current` are passed, and so
/// are those that continue the run `current`, `current + 1`, ... (`run` of them met so far);
/// the first other place is where the next match lies.
pub open spec fn next_scan(s: Seq<usize>, current: int, i: int, run: int) -> Option<usize>
    decreases s.len() - i,
{
    if i < 0 || i >= s.len() {
        None
    } else if s[i] < current {
        next_scan(s, current, i + 1, run)
    } else if s[i] - run == current {
        next_scan(s, current, i + 1, run + 1)
    } else {
        Some(s[i])
    }
}

/// Walking down the places found from the `i`-th: places after `current` are passed, and so
/// are those that continue the run `current`, `current - 1`, ... (`run` of them met so far);
/// the first other place is where the previous match lies.
pub open spec fn prev_scan(s: Seq<usize>, current: int, i: int, run: int) -> Option<usize>
    decreases i + 1,
{
    if i < 0 || i >= s.len() {
        None
    } else if s[i] > current {
        prev_scan(s, current, i - 1, run)
    } else if s[i] + run == current {
        prev_scan(s, current, i - 1, run + 1)
    } else {
        Some(s[i])
    }
}

/// Whether `s` holds, in rising order, exactly the places of `a` and of `b`.
pub open spec fn merged_places(s: Seq<usize>, a: Seq<usize>, b: Seq<usize>) -> bool {
    &&& increasing(s)
    &&& forall|x: usize| s.contains(x) <==> (a.contains(x) || b.contains(x))
}

/// Puts `x` into the rising places of `v`, where it is not there yet.
fn insert_place(v: &mut Vec<usize>, x: usize)
    requires
        increasing(old(v)@),
    ensures
        merged_places(final(v)@, old(v)@, seq![x]),
        old(v)@.contains(x) ==> final(v)@ == old(v)@,
{
    let mut i: usize = 0;
    while i < v.len() && v[i] < x
        invariant
            i <= v.len(),
            increasing(v@),
            forall|j: int| 0 <= j < i ==> v@[j] < x,
        decreases v.len() - i,
    {
        i = i + 1;
    }
    let ghost before = v@;
    if i < v.len() && v[i] == x {
        assert(merged_places(v@, before, seq![x])) by {
            assert forall|y: usize| v@.contains(y) <==> (before.contains(y) || seq![x].contains(y)) by {
                if seq![x].contains(y) {
                    assert(y == x);
                    assert(v@[i as int] == y);
                }
            }
        }
    } else {
        assert(!before.contains(x)) by {
            if before.contains(x) {
                let j = choose|j: int| 0 <= j < before.len() && #[trigger] before[j] == x;
                if j >= i {
                    assert(before[i as int] >= x);
                    assert(before[i as int] != x);
                    if j > i {
                        assert(before[i as int] < before[j]);
                    }
                }
            }
        }
        v.insert(i, x);
        proof {
            before.insert_ensures(i as int, x);
        }
        assert(merged_places(v@, before, seq![x])) by {
            assert forall|j: int, k: int| 0 <= j < k < v@.len() implies v@[j] < v@[k] by {
                if k < i {
                } else if k == i {
                } else if j < i {
                    assert(before[k - 1] >= x) by {
                        if i < before.len() {
                            assert(before[i as int] >= x);
                        }
                    }
                } else if j == i {
                    assert(before[k - 1] >= x) by {
                        assert(before[i as int] >= x);
                    }
                    assert(before[i as int] != x);
                    if k - 1 > i {
                        assert(before[i as int] < before[k - 1]);
                    }
                }
            }
            assert forall|y: usize| v@.contains(y) <==> (before.contains(y) || seq![x].contains(y)) by {
                if v@.contains(y) {
                    let j = choose|j: int| 0 <= j < v@.len() && #[trigger] v@[j] == y;
                    if j < i {
                        assert(before[j] == y);
                    } else if j > i {
                        assert(before[j - 1] == y);
                    } else {
                        assert(seq![x][0] == y);
                    }
                }
                if before.contains(y) {
                    let j = choose|j: int| 0 <= j < before.len() && #[trigger] before[j] == y;
                    if j < i {
                        assert(v@[j] == y);
                    } else {
                        assert(v@[j + 1] == y);
                    }
                }
                if seq![x].contains(y) {
                    assert(v@[i as int] == y);
                }
            }
        }
    }
}

/// Puts the places of `xs` into the rising places of `v`.
fn insert_places(v: &mut Vec<usize>, xs: &Vec<usize>)
    requires
        increasing(old(v)@),
    ensures
        merged_places(final(v)@, old(v)@, xs@),
        (forall|y: usize| xs@.contains(y) ==> old(v)@.contains(y)) ==> final(v)@ == old(v)@,
{
    let ghost start = v@;
    let mut k: usize = 0;
    while k < xs.len()
        invariant
            k <= xs.len(),
            merged_places(v@, start, xs@.take(k as int)),
            (forall|y: usize| xs@.contains(y) ==> start.contains(y)) ==> v@ == start,
        decreases xs.len() - k,
    {
        proof {
            if forall|y: usize| xs@.contains(y) ==> start.contains(y) {
                assert(xs@.contains(xs@[k as int]));
            }
        }
        let ghost before = v@;
        insert_place(v, xs[k]);
        proof {
            let t0 = xs@.take(k as int);
            let t1 = xs@.take(k + 1);
            assert(t1 =~= t0.push(xs@[k as int]));
            assert forall|y: usize| v@.contains(y) <==> (start.contains(y) || t1.contains(y)) by {
                if t1.contains(y) && !t0.contains(y) {
                    let j = choose|j: int| 0 <= j < t1.len() && #[trigger] t1[j] == y;
                    if j < k {
                        assert(t0[j] == y);
                    } else {
                        assert(seq![xs@[k as int]][0] == y);
                    }
                }
                if t0.contains(y) {
                    let j = choose|j: int| 0 <= j < t0.len() && #[trigger] t0[j] == y;
                    assert(t1[j] == y);
                }
                if seq![xs@[k as int]].contains(y) {
                    assert(t1[k as int] == y);
                }
            }
        }
        k = k + 1;
    }
    assert(xs@.take(xs.len() as int) =~= xs@);
}

/// A run of places that starts at `current` and rises by one, without a gap, is as long as
/// `run`, and the places after its last one are greater than it.
proof fn lemma_next_scan_no_underflow(s: Seq<usize>, current: int, i: int, run: int)
    requires
        increasing(s),
        0 <= i < s.len(),
        s[i] >= current,
        run == 0 || (i > 0 && s[i - 1] == current + run - 1),
    ensures
        s[i] - run >= current,
{
    if run > 0 {
        assert(s[i - 1] < s[i]);
    }
}

impl SearchMode {
    /// Replaces the places found with those of `found`, kept in rising order and each once.
    pub fn set_found_positions(&mut self, found: &Vec<usize>)
        ensures
            merged_places(final(self)@.found_pos, Seq::empty(), found@),
            final(self)@ == (SearchView { found_pos: final(self)@.found_pos, ..old(self)@ }),
            final(self).default_mode_view() == old(self).default_mode_view(),
    {
        let mut places: Vec<usize> = Vec::new();
        insert_places(&mut places, found);
        self.found_pos = places;
    }

    /// Where the next match lies after byte `current`, walking up the places found.
    fn scan_up(&self, current: usize) -> (r: Option<usize>)
        requires
            increasing(self@.found_pos),
        ensures
            r == next_scan(self@.found_pos, current as int, 0, 0),
    {
        let ghost s = self@.found_pos;
        let mut i: usize = 0;
        let mut run: usize = 0;
        while i < self.found_pos.len()
            invariant
                s == self@.found_pos,
                s == self.found_pos@,
                increasing(s),
                i <= s.len(),
                run <= i,
                run == 0 || (i > 0 && s[i - 1] == current + run - 1),
                next_scan(s, current as int, 0, 0) == next_scan(s, current as int, i as int, run as int),
            decreases s.len() - i,
        {
            let byte = self.found_pos[i];
            if byte < current {
                proof {
                    if run > 0 {
                        assert(s[i - 1] < s[i as int]);
                    }
                }
            } else {
                proof {
                    lemma_next_scan_no_underflow(s, current as int, i as int, run as int);
                }
                if byte - run == current {
                    run = run + 1;
                } else {
                    return Some(byte);
                }
            }
            i = i + 1;
        }
        None
    }
}


impl SearchMode {
    /// Where the previous match lies before byte `current`, walking down the places found.
    fn scan_down(&self, current: usize) -> (r: Option<usize>)
        requires
            increasing(self@.found_pos),
        ensures
            r == prev_scan(self@.found_pos, current as int, self@.found_pos.len() - 1, 0),
    {
        let ghost s = self@.found_pos;
        let mut i: usize = self.found_pos.len();
        let mut run: usize = 0;
        while i > 0
            invariant
                s == self@.found_pos,
                s == self.found_pos@,
                increasing(s),
                i <= s.len(),
                run <= s.len() - i,
                run == 0 || (i < s.len() && s[i as int] + run - 1 == current),
                prev_scan(s, current as int, s.len() - 1, 0) == prev_scan(s, current as int, i - 1, run as int),
            decreases i,
        {
            let byte = self.found_pos[i - 1];
            assert(s.len() == self.found_pos.len());
            proof {
                if run > 0 {
                    assert(s[i - 1] < s[i as int]);
                }
            }
            if byte <= current {
                if byte + run == current {
                    run = run + 1;
                } else {
                    return Some(byte);
                }
            }
            i = i - 1;
        }
        None
    }

    /// Adds the places that a search of the rest of the file found (`rest`), or forgets all
    /// places where there is no query; answers whether the whole file had been searched
    /// before, which it now has.
    fn search_rest(&mut self, rest: &Vec<usize>) -> (was: bool)
        requires
            increasing(old(self)@.found_pos),
        ensures
            was == old(self)@.searched_whole_file,
            encode_utf8(old(self)@.search_string).len() > 0 ==> merged_places(
                final(self)@.found_pos,
                old(self)@.found_pos,
                rest@,
            ),
            encode_utf8(old(self)@.search_string).len() > 0 && (forall|y: usize|
                rest@.contains(y) ==> old(self)@.found_pos.contains(y)) ==> final(self)@.found_pos
                == old(self)@.found_pos,
            encode_utf8(old(self)@.search_string).len() == 0 ==> final(self)@.found_pos == Seq::<
                usize,
            >::empty(),
            final(self)@ == (SearchView {
                found_pos: final(self)@.found_pos,
                searched_whole_file: true,
                ..old(self)@
            }),
            final(self).default_mode_view() == old(self).default_mode_view(),
    {
        if crate::buffer::str_byte_len(self.search_string.as_str()) > 0 {
            insert_places(&mut self.found_pos, rest);
        } else {
            self.found_pos = Vec::new();
        }
        let out = self.searched_whole_file;
        self.searched_whole_file = true;
        out
    }

    /// Where a move to the next match from byte `current` lands: the first place found
    /// after the run of places that starts at `current`; where there is none, the places that
    /// a search of the rest of the file found (`rest`) are added, and the first place is
    /// taken. Nothing where nothing was found.
    pub fn next_match(&mut self, current: usize, rest: &Vec<usize>) -> (r: Option<usize>)
        requires
            increasing(old(self)@.found_pos),
            old(self)@.found_pos.len() > 0 && next_scan(old(self)@.found_pos, current as int, 0, 0) is None
                ==> encode_utf8(old(self)@.search_string).len() > 0,
        ensures
            increasing(final(self)@.found_pos),
            final(self).default_mode_view() == old(self).default_mode_view(),
            old(self)@.found_pos.len() == 0 ==> r is None && final(self)@ == old(self)@,
            old(self)@.found_pos.len() > 0 && next_scan(old(self)@.found_pos, current as int, 0, 0) is Some
                ==> r == next_scan(old(self)@.found_pos, current as int, 0, 0) && final(self)@ == old(self)@,
            old(self)@.found_pos.len() > 0 && next_scan(old(self)@.found_pos, current as int, 0, 0) is None
                ==> {
                &&& merged_places(final(self)@.found_pos, old(self)@.found_pos, rest@)
                &&& final(self)@ == (SearchView {
                    found_pos: final(self)@.found_pos,
                    searched_whole_file: true,
                    ..old(self)@
                })
                &&& final(self)@.found_pos.len() > 0
                &&& r == Some(final(self)@.found_pos[0])
            },
    {
        if self.found_pos.len() == 0 {
            return None;
        }
        match self.scan_up(current) {
            Some(b) => Some(b),
            None => {
                let ghost first = self@.found_pos[0];
                self.search_rest(rest);
                proof {
                    assert(old(self)@.found_pos.contains(first));
                    assert(self@.found_pos.contains(first));
                }
                Some(self.found_pos[0])
            },
        }
    }

    /// Where a move to the previous match from byte `current` lands: the last place found
    /// before the run of places that ends at `current`; where there is none, the places that
    /// a search of the rest of the file found (`rest`) are added, and the last place is taken
    /// if the whole file had been searched before, else the walk down is made once more.
    /// Nothing where nothing was found.
    pub fn previous_match(&mut self, current: usize, rest: &Vec<usize>) -> (r: Option<usize>)
        requires
            increasing(old(self)@.found_pos),
            old(self)@.found_pos.len() > 0 && prev_scan(
                old(self)@.found_pos,
                current as int,
                old(self)@.found_pos.len() - 1,
                0,
            ) is None ==> encode_utf8(old(self)@.search_string).len() > 0,
        ensures
            increasing(final(self)@.found_pos),
            final(self).default_mode_view() == old(self).default_mode_view(),
            old(self)@.found_pos.len() == 0 ==> r is None && final(self)@ == old(self)@,
            old(self)@.found_pos.len() > 0 && prev_scan(
                old(self)@.found_pos,
                current as int,
                old(self)@.found_pos.len() - 1,
                0,
            ) is Some ==> r == prev_scan(old(self)@.found_pos, current as int, old(self)@.found_pos.len() - 1, 0)
                && final(self)@ == old(self)@,
            old(self)@.found_pos.len() > 0 && prev_scan(
                old(self)@.found_pos,
                current as int,
                old(self)@.found_pos.len() - 1,
                0,
            ) is None ==> {
                let f = final(self)@.found_pos;
                &&& merged_places(f, old(self)@.found_pos, rest@)
                &&& final(self)@ == (SearchView {
                    found_pos: f,
                    searched_whole_file: true,
                    ..old(self)@
                })
                &&& f.len() > 0
                &&& r == if old(self)@.searched_whole_file {
                    Some(f.last())
                } else {
                    match prev_scan(f, current as int, f.len() - 1, 0) {
                        Some(b) => Some(b),
                        None => Some(f.last()),
                    }
                }
            },
    {
        if self.found_pos.len() == 0 {
            return None;
        }
        match self.scan_down(current) {
            Some(b) => Some(b),
            None => {
                let ghost first = self@.found_pos[0];
                let was = self.search_rest(rest);
                proof {
                    assert(old(self)@.found_pos.contains(first));
                    assert(self@.found_pos.contains(first));
                }
                if was {
                    return Some(self.found_pos[self.found_pos.len() - 1]);
                }
                match self.scan_down(current) {
                    Some(b) => Some(b),
                    None => {
                        let ghost f1 = self@.found_pos;
                        self.search_rest(rest);
                        proof {
                            assert forall|y: usize| rest@.contains(y) implies f1.contains(y) by {}
                        }
                        Some(self.found_pos[self.found_pos.len() - 1])
                    },
                }
            },
        }
    }
}


impl CommandMode {
    /// Where the cursor stands on the status line while a command is typed: past the name of
    /// the mode (seven characters), two more, and the typed characters before the edit place.
    pub fn influence_cursor(&self) -> (r: Option<usize>)
        requires
            self@.edit_pos + 9 <= usize::MAX,
        ensures
            r == Some((9 + self@.edit_pos) as usize),
    {
        Some(7 + 2 + self.edit_pos)
    }
}

impl PairMode {
    /// Where the cursor stands on the status line while a pair is typed: past the name of the
    /// mode (four characters), two more, and the typed characters before the edit place.
    pub fn influence_cursor(&self) -> (r: Option<usize>)
        requires
            self@.edit_pos + 6 <= usize::MAX,
        ensures
            r == Some((6 + self@.edit_pos) as usize),
    {
        Some(4 + 2 + self.edit_pos)
    }
}

impl SearchMode {
    /// Where the cursor stands on the status line while a query is typed: past the name of
    /// the mode (six characters), two more, and the typed characters before the edit place;
    /// nothing while the mode moves the cursor through the places found.
    pub fn influence_cursor(&self) -> (r: Option<usize>)
        requires
            self@.edit_pos + 8 <= usize::MAX,
        ensures
            r == if self@.moving_cursor {
                None
            } else {
                Some((8 + self@.edit_pos) as usize)
            },
    {
        if self.moving_cursor {
            return None;
        }
        Some(6 + 2 + self.edit_pos)
    }
}


proof fn lemma_next_scan_ahead(s: Seq<usize>, current: int, i: int, run: int)
    requires
        increasing(s),
        0 <= i,
        run >= 0,
        run == 0 || (0 < i <= s.len() && s[i - 1] == current + run - 1),
    ensures
        next_scan(s, current, i, run) matches Some(b) ==> b > current,
    decreases s.len() - i,
{
    if 0 <= i < s.len() {
        if run > 0 {
            assert(s[i - 1] < s[i]);
        }
        if s[i] < current {
            lemma_next_scan_ahead(s, current, i + 1, run);
        } else if s[i] - run == current {
            lemma_next_scan_ahead(s, current, i + 1, run + 1);
        }
    }
}

proof fn lemma_prev_scan_behind(s: Seq<usize>, current: int, i: int, run: int)
    requires
        increasing(s),
        i < s.len(),
        run >= 0,
        run == 0 || (-1 <= i && i + 1 < s.len() && s[i + 1] + run - 1 == current),
    ensures
        prev_scan(s, current, i, run) matches Some(b) ==> b < current,
    decreases i + 1,
{
    if 0 <= i < s.len() {
        if run > 0 {
            assert(s[i] < s[i + 1]);
        }
        if s[i] > current {
            lemma_prev_scan_behind(s, current, i - 1, run);
        } else if s[i] + run == current {
            lemma_prev_scan_behind(s, current, i - 1, run + 1);
        }
    }
}

/// A move to the next match that the places already found answer lands after the cursor:
/// the run of places at the cursor is passed over.
pub proof fn law_next_match_lies_ahead(s: Seq<usize>, current: int)
    requires
        increasing(s),
    ensures
        next_scan(s, current, 0, 0) matches Some(b) ==> b > current,
{
    lemma_next_scan_ahead(s, current, 0, 0);
}

/// A move to the previous match that the places already found answer lands before the
/// cursor: the run of places that ends at the cursor is passed over.
pub proof fn law_previous_match_lies_behind(s: Seq<usize>, current: int)
    requires
        increasing(s),
    ensures
        prev_scan(s, current, s.len() - 1, 0) matches Some(b) ==> b < current,
{
    lemma_prev_scan_behind(s, current, s.len() - 1, 0);
}

/// A normal selection whose cursor is not before its start selects from the start to the
/// cursor: its one command names the start's column and row, then the cursor's column and
/// row.
pub proof fn law_normal_selection_ends_at_the_cursor(start: (usize, usize), cursor: (usize, usize))
    requires
        cursor.1 > start.1 || (cursor.1 == start.1 && cursor.0 >= start.0),
    ensures
        selection_commands(SelectionType::Normal, start, cursor) == seq![
            "select "@ + decimal(start.0 as nat) + ","@ + decimal(start.1 as nat) + " "@ + decimal(cursor.0 as nat)
                + ","@ + decimal(cursor.1 as nat),
        ],
{
}

/// A normal selection does not depend on which end is the start: swapping the start and the
/// cursor gives the same command.
pub proof fn law_normal_selection_is_symmetric(a: (usize, usize), b: (usize, usize))
    ensures
        selection_commands(SelectionType::Normal, a, b) == selection_commands(SelectionType::Normal, b, a),
{
}

/// A line selection selects every row from the first of the start's and the cursor's rows to
/// the last, in order, one command for each.
pub proof fn law_line_selection_selects_each_row(start: (usize, usize), cursor: (usize, usize))
    ensures
        ({
            let lo = if cursor.1 <= start.1 { cursor.1 } else { start.1 };
            let hi = if cursor.1 <= start.1 { start.1 } else { cursor.1 };
            let cs = selection_commands(SelectionType::Line, start, cursor);
            &&& cs.len() == hi - lo + 1
            &&& forall|k: int| 0 <= k < cs.len() ==> #[trigger] cs[k] == "select row "@ + decimal((lo + k) as nat)
        }),
{
}

/// A block selection selects, on every row from the first of the start's and the cursor's
/// rows to the last, the columns from the first of their columns to the last.
pub proof fn law_block_selection_selects_each_row(start: (usize, usize), cursor: (usize, usize))
    ensures
        ({
            let lo = if cursor.1 < start.1 { cursor.1 } else { start.1 };
            let hi = if cursor.1 < start.1 { start.1 } else { cursor.1 };
            let left = if cursor.0 < start.0 { cursor.0 } else { start.0 };
            let right = if cursor.0 < start.0 { start.0 } else { cursor.0 };
            let cs = selection_commands(SelectionType::Block, start, cursor);
            &&& cs.len() == hi - lo + 1
            &&& forall|k: int|
                0 <= k < cs.len() ==> #[trigger] cs[k] == "select "@ + decimal(left as nat) + ","@ + decimal(
                    (lo + k) as nat,
                ) + " "@ + decimal(right as nat) + ","@ + decimal((lo + k) as nat)
        }),
{
}

} // verus!
