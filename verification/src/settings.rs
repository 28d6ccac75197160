use vstd::prelude::*;
use crate::editor_settings::{is_default_settings, EditorSettings};
use crate::keybindings::{default_keybindings, ModeKeybindings};

verus! {

/// All the settings of the editor.
pub struct Settings {
    /// The general settings for the editor (tab size, line numbers, ...)
    pub editor_settings: EditorSettings,
    /// The key bindings, by mode
    pub mode_keybindings: ModeKeybindings,
}

impl Default for Settings {
    fn default() -> (s: Settings)
        ensures
            is_default_settings(s.editor_settings),
            s.mode_keybindings@ == default_keybindings(),
    {
        Settings { editor_settings: EditorSettings::default(), mode_keybindings: ModeKeybindings::default() }
    }
}

} // verus!
