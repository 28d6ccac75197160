use vstd::prelude::*;
use crate::events::AppEvent;
use crate::file::str_eq;
use crate::modes::{first_word, second_word, split_command};

verus! {

/// What follows a save.
#[derive(Debug, Clone, Copy, PartialEq, Eq, Structural)]
pub enum AfterSave {
    /// Nothing.
    Stay,
    /// Close the pane, if the save succeeded.
    CloseIfSaved,
    /// Close the pane without asking, whether or not the save succeeded.
    ForceClose,
}

/// What an editor command asks for.
#[derive(Debug, Clone, PartialEq, Eq)]
pub enum EditorAction {
    /// Tell the application about the event.
    Send(AppEvent),
    /// Save the file (to the path, if one is given; overwriting, if forced), tell the user
    /// whether it worked, then do what follows.
    Save { path: Option<String>, force: bool, then: AfterSave },
    /// Nothing.
    Nothing,
}

/// A save to the optional path `arg`, forced or not, followed by `then` where no path is
/// given and by nothing where one is.
pub open spec fn save_action(arg: Option<Seq<char>>, force: bool, then: AfterSave) -> (Option<Seq<char>>, bool, AfterSave) {
    (arg, force, if arg is Some { AfterSave::Stay } else { then })
}

/// Whether `a` is the save `s`.
pub open spec fn is_save(a: EditorAction, s: (Option<Seq<char>>, bool, AfterSave)) -> bool {
    a matches EditorAction::Save { path, force, then } && force == s.1 && then == s.2 && (match path {
        Some(p) => s.0 == Some(p@),
        None => s.0 is None,
    })
}

/// What the editor command `name` with the optional argument `arg` asks for: `qa!` quits,
/// `q` closes, `q!` closes without asking, `e` opens the file named by the argument, `w` and
/// `w!` save, and `wq`, `w!q`, `w!q!` and `wq!` save and then close where no path is given.
pub open spec fn editor_action_is(a: EditorAction, name: Seq<char>, arg: Option<Seq<char>>) -> bool {
    if name == "qa!"@ {
        a == EditorAction::Send(AppEvent::ForceQuit)
    } else if name == "q"@ {
        a == EditorAction::Send(AppEvent::Close)
    } else if name == "q!"@ {
        a == EditorAction::Send(AppEvent::ForceClose)
    } else if name == "e"@ {
        match arg {
            Some(p) => a matches EditorAction::Send(AppEvent::OpenFile(s)) && s@ == p,
            None => a == EditorAction::Nothing,
        }
    } else if name == "w"@ {
        is_save(a, save_action(arg, false, AfterSave::Stay))
    } else if name == "w!"@ {
        is_save(a, save_action(arg, true, AfterSave::Stay))
    } else if name == "wq"@ {
        is_save(a, save_action(arg, false, AfterSave::CloseIfSaved))
    } else if name == "w!q"@ {
        is_save(a, save_action(arg, true, AfterSave::CloseIfSaved))
    } else if name == "w!q!"@ {
        is_save(a, save_action(arg, true, AfterSave::ForceClose))
    } else if name == "wq!"@ {
        is_save(a, save_action(arg, false, AfterSave::ForceClose))
    } else {
        a == EditorAction::Nothing
    }
}

/// A save to `arg`, forced or not, followed by `then` where no path is given.
fn save(arg: Option<String>, force: bool, then: AfterSave) -> (a: EditorAction)
    ensures
        is_save(
            a,
            save_action(
                match arg {
                    Some(s) => Some(s@),
                    None => None,
                },
                force,
                then,
            ),
        ),
{
    let after = if arg.is_some() {
        AfterSave::Stay
    } else {
        then
    };
    EditorAction::Save { path: arg, force, then: after }
}

/// What the editor command `name` with the optional argument `arg` asks for.
pub fn editor_commands(name: &str, arg: Option<String>) -> (a: EditorAction)
    ensures
        editor_action_is(
            a,
            name@,
            match arg {
                Some(s) => Some(s@),
                None => None,
            },
        ),
{
    if str_eq(name, "qa!") {
        EditorAction::Send(AppEvent::ForceQuit)
    } else if str_eq(name, "q") {
        EditorAction::Send(AppEvent::Close)
    } else if str_eq(name, "q!") {
        EditorAction::Send(AppEvent::ForceClose)
    } else if str_eq(name, "e") {
        match arg {
            Some(p) => EditorAction::Send(AppEvent::OpenFile(p)),
            None => EditorAction::Nothing,
        }
    } else if str_eq(name, "w") {
        save(arg, false, AfterSave::Stay)
    } else if str_eq(name, "w!") {
        save(arg, true, AfterSave::Stay)
    } else if str_eq(name, "wq") {
        save(arg, false, AfterSave::CloseIfSaved)
    } else if str_eq(name, "w!q") {
        save(arg, true, AfterSave::CloseIfSaved)
    } else if str_eq(name, "w!q!") {
        save(arg, true, AfterSave::ForceClose)
    } else if str_eq(name, "wq!") {
        save(arg, false, AfterSave::ForceClose)
    } else {
        EditorAction::Nothing
    }
}

/// What a typed editor command asks for: its first word names it, its second is the argument.
pub fn editor_command(command: &str) -> (a: EditorAction)
    ensures
        editor_action_is(a, first_word(command@), second_word(command@)),
{
    let (name, arg) = split_command(command);
    editor_commands(name.as_str(), arg)
}

} // verus!
