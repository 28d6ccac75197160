use vstd::prelude::*;
use vstd::string::StringExecFns;
use crate::file::str_eq;
use crate::style::{decimal, u8_to_decimal};

verus! {

/// How line numbers are shown.
#[derive(Debug, Clone, Copy, PartialEq, Eq, Structural)]
pub enum NumberLineStyle {
    /// No line numbers
    Hidden,
    /// Line numbers relative to the current line
    Relative,
    /// Line numbers relative to the first line
    Absolute,
}

/// The name of a line number style in a configuration file.
pub open spec fn number_line_name(n: NumberLineStyle) -> Seq<char> {
    match n {
        NumberLineStyle::Hidden => "None"@,
        NumberLineStyle::Relative => "Relative"@,
        NumberLineStyle::Absolute => "Absolute"@,
    }
}

impl NumberLineStyle {
    /// The name of the style in a configuration file.
    pub fn name(&self) -> (s: String)
        ensures
            s@ == number_line_name(*self),
    {
        match self {
            NumberLineStyle::Hidden => String::from_str("None"),
            NumberLineStyle::Relative => String::from_str("Relative"),
            NumberLineStyle::Absolute => String::from_str("Absolute"),
        }
    }
}

/// The font settings; only a graphical front end reads them.
#[derive(Debug, PartialEq, Eq)]
pub struct FontSettings {
    pub size: u8,
    pub family: String,
}

/// The general settings of the editor.
#[derive(Debug, PartialEq, Eq)]
pub struct EditorSettings {
    /// The style of the line numbers
    pub number_line: NumberLineStyle,
    /// The size of a tab
    pub tab_size: u8,
    /// Whether to use spaces instead of tabs
    pub use_spaces: bool,
    /// Whether to highlight matching brackets
    pub rainbow_delimiters: bool,
    /// The font settings
    pub font_settings: Option<FontSettings>,
    /// The mode that the editor starts in: "Normal" or "Insert".
    pub default_mode: String,
}

/// Whether `s` holds the default editor settings: no line numbers, tabs of four columns
/// written as spaces, no rainbow delimiters, no font settings, starting in the normal mode.
pub open spec fn is_default_settings(s: EditorSettings) -> bool {
    &&& s.number_line == NumberLineStyle::Hidden
    &&& s.tab_size == 4
    &&& s.use_spaces
    &&& !s.rainbow_delimiters
    &&& s.font_settings is None
    &&& s.default_mode@ == "Normal"@
}

/// Text for `b`.
pub open spec fn bool_text(b: bool) -> Seq<char> {
    if b {
        "true"@
    } else {
        "false"@
    }
}

/// How the editor settings are written in a configuration file.
pub open spec fn settings_text(s: EditorSettings) -> Seq<char> {
    "[EditorSettings]"@ + "\nnumber_line = \""@ + number_line_name(s.number_line) + "\""@
        + "\ntab_size = "@ + decimal(s.tab_size as nat) + "\nuse_spaces = "@ + bool_text(s.use_spaces)
        + "\nrainbow_delimiters = "@ + bool_text(s.rainbow_delimiters) + "\ndefault_mode = \""@
        + s.default_mode@ + "\""@
}

/// `b` as text.
fn bool_to_text(b: bool) -> (s: &'static str)
    ensures
        s@ == bool_text(b),
{
    if b {
        "true"
    } else {
        "false"
    }
}

impl Default for EditorSettings {
    fn default() -> (s: EditorSettings)
        ensures
            is_default_settings(s),
    {
        EditorSettings {
            number_line: NumberLineStyle::Hidden,
            tab_size: 4,
            use_spaces: true,
            rainbow_delimiters: false,
            font_settings: None,
            default_mode: String::from_str("Normal"),
        }
    }
}

impl EditorSettings {
    /// The settings as they are written in a configuration file.
    pub fn config_text(&self) -> (s: String)
        ensures
            s@ == settings_text(*self),
    {
        let mut s = String::from_str("[EditorSettings]");
        s.append("\nnumber_line = \"");
        s.append(self.number_line.name().as_str());
        s.append("\"");
        s.append("\ntab_size = ");
        s.append(u8_to_decimal(self.tab_size).as_str());
        s.append("\nuse_spaces = ");
        s.append(bool_to_text(self.use_spaces));
        s.append("\nrainbow_delimiters = ");
        s.append(bool_to_text(self.rainbow_delimiters));
        s.append("\ndefault_mode = \"");
        s.append(self.default_mode.as_str());
        s.append("\"");
        s
    }

    /// Takes from `user_settings` each setting that differs from what a user leaves it at:
    /// line numbers shown, a tab size other than zero, spaces, rainbow delimiters, font
    /// settings, and a default mode other than the normal one.
    pub fn merge_settings(&mut self, user_settings: EditorSettings)
        ensures
            final(self).number_line == if user_settings.number_line != NumberLineStyle::Hidden {
                user_settings.number_line
            } else {
                old(self).number_line
            },
            final(self).tab_size == if user_settings.tab_size != 0 {
                user_settings.tab_size
            } else {
                old(self).tab_size
            },
            final(self).use_spaces == (user_settings.use_spaces || old(self).use_spaces),
            final(self).rainbow_delimiters == (user_settings.rainbow_delimiters || old(self).rainbow_delimiters),
            final(self).font_settings == if user_settings.font_settings is Some {
                user_settings.font_settings
            } else {
                old(self).font_settings
            },
            final(self).default_mode@ == if user_settings.default_mode@ != "Normal"@ {
                user_settings.default_mode@
            } else {
                old(self).default_mode@
            },
    {
        if user_settings.number_line != NumberLineStyle::Hidden {
            self.number_line = user_settings.number_line;
        }
        if user_settings.tab_size != 0 {
            self.tab_size = user_settings.tab_size;
        }
        if user_settings.use_spaces {
            self.use_spaces = user_settings.use_spaces;
        }
        if user_settings.rainbow_delimiters {
            self.rainbow_delimiters = user_settings.rainbow_delimiters;
        }
        if user_settings.font_settings.is_some() {
            self.font_settings = user_settings.font_settings;
        }
        if !str_eq(user_settings.default_mode.as_str(), "Normal") {
            self.default_mode = user_settings.default_mode;
        }
    }
}

} // verus!
