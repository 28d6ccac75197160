use vstd::prelude::*;
use vstd::string::StringExecFns;
use crate::style::{decimal, u8_to_decimal};
use crate::styled::string_push;

verus! {

/// A key of the keyboard.
#[derive(Debug, Clone, Copy, PartialEq, Eq, Hash, Structural)]
pub enum Key {
    /// The backspace key.
    Backspace,
    /// The enter key.
    Enter,
    /// The left arrow key.
    Left,
    /// The right arrow key.
    Right,
    /// The up arrow key.
    Up,
    /// The down arrow key.
    Down,
    /// The home key.
    Home,
    /// The end key.
    End,
    /// The page up key.
    PageUp,
    /// The page down key.
    PageDown,
    /// The tab key.
    Tab,
    /// The back tab key.
    BackTab,
    /// The delete key.
    Delete,
    /// The insert key.
    Insert,
    /// The function keys.
    F(u8),
    /// A character.
    Char(char),
    /// Null
    Null,
    /// The caps lock pressed key.
    CapsLock,
    /// The scroll lock pressed key.
    ScrollLock,
    /// The num lock pressed key.
    NumLock,
    /// The Print Screen key.
    PrintScreen,
    /// The Pause key.
    Pause,
    /// The Menu key.
    Menu,
    /// keypad begin
    KeypadBegin,
    /// A media key
    Media(MediaKey),
    /// The escape key.
    Esc,
}

/// A media key of the keyboard.
#[derive(Debug, Clone, Copy, PartialEq, Eq, Hash, Structural)]
pub enum MediaKey {
    /// The play key.
    Play,
    /// The pause key.
    Pause,
    /// The Play/Pause key.
    PlayPause,
    /// The reverse key.
    Reverse,
    /// The stop key.
    Stop,
    /// The fast forward key.
    FastForward,
    /// The rewind key.
    Rewind,
    /// The track next key.
    TrackNext,
    /// The track previous key.
    TrackPrevious,
    /// The record key.
    Record,
    /// The volume down key.
    LowerVolume,
    /// The volume up key.
    RaiseVolume,
    /// The mute key.
    MuteVolume,
}

/// The name of a media key.
pub open spec fn media_name(m: MediaKey) -> Seq<char> {
    match m {
        MediaKey::Play => "Play"@,
        MediaKey::Pause => "Pause"@,
        MediaKey::PlayPause => "Play/Pause"@,
        MediaKey::Reverse => "Reverse"@,
        MediaKey::Stop => "Stop"@,
        MediaKey::FastForward => "FastForward"@,
        MediaKey::Rewind => "Rewind"@,
        MediaKey::TrackNext => "TrackNext"@,
        MediaKey::TrackPrevious => "TrackPrevious"@,
        MediaKey::Record => "Record"@,
        MediaKey::LowerVolume => "LowerVolume"@,
        MediaKey::RaiseVolume => "RaiseVolume"@,
        MediaKey::MuteVolume => "MuteVolume"@,
    }
}

/// The name of a key: a function key is `F` and its number, a character is itself.
pub open spec fn key_name(k: Key) -> Seq<char> {
    match k {
        Key::Backspace => "Backspace"@,
        Key::Enter => "Enter"@,
        Key::Left => "Left"@,
        Key::Right => "Right"@,
        Key::Up => "Up"@,
        Key::Down => "Down"@,
        Key::Home => "Home"@,
        Key::End => "End"@,
        Key::PageUp => "PageUp"@,
        Key::PageDown => "PageDown"@,
        Key::Tab => "Tab"@,
        Key::BackTab => "BackTab"@,
        Key::Delete => "Delete"@,
        Key::Insert => "Insert"@,
        Key::F(n) => "F"@ + decimal(n as nat),
        Key::Char(c) => seq![c],
        Key::Null => "Null"@,
        Key::CapsLock => "CapsLock"@,
        Key::ScrollLock => "ScrollLock"@,
        Key::NumLock => "NumLock"@,
        Key::PrintScreen => "PrintScreen"@,
        Key::Pause => "Pause"@,
        Key::Menu => "Menu"@,
        Key::KeypadBegin => "KeypadBegin"@,
        Key::Media(m) => "Media("@ + media_name(m) + ")"@,
        Key::Esc => "Esc"@,
    }
}

impl MediaKey {
    /// The name of the media key.
    pub fn to_string(&self) -> (s: String)
        ensures
            s@ == media_name(*self),
    {
        match self {
            MediaKey::Play => String::from_str("Play"),
            MediaKey::Pause => String::from_str("Pause"),
            MediaKey::PlayPause => String::from_str("Play/Pause"),
            MediaKey::Reverse => String::from_str("Reverse"),
            MediaKey::Stop => String::from_str("Stop"),
            MediaKey::FastForward => String::from_str("FastForward"),
            MediaKey::Rewind => String::from_str("Rewind"),
            MediaKey::TrackNext => String::from_str("TrackNext"),
            MediaKey::TrackPrevious => String::from_str("TrackPrevious"),
            MediaKey::Record => String::from_str("Record"),
            MediaKey::LowerVolume => String::from_str("LowerVolume"),
            MediaKey::RaiseVolume => String::from_str("RaiseVolume"),
            MediaKey::MuteVolume => String::from_str("MuteVolume"),
        }
    }
}

impl Key {
    /// The name of the key.
    pub fn to_string(&self) -> (s: String)
        ensures
            s@ == key_name(*self),
    {
        match self {
            Key::Backspace => String::from_str("Backspace"),
            Key::Enter => String::from_str("Enter"),
            Key::Left => String::from_str("Left"),
            Key::Right => String::from_str("Right"),
            Key::Up => String::from_str("Up"),
            Key::Down => String::from_str("Down"),
            Key::Home => String::from_str("Home"),
            Key::End => String::from_str("End"),
            Key::PageUp => String::from_str("PageUp"),
            Key::PageDown => String::from_str("PageDown"),
            Key::Tab => String::from_str("Tab"),
            Key::BackTab => String::from_str("BackTab"),
            Key::Delete => String::from_str("Delete"),
            Key::Insert => String::from_str("Insert"),
            Key::F(n) => {
                let mut s = String::from_str("F");
                s.append(u8_to_decimal(*n).as_str());
                s
            },
            Key::Char(c) => {
                let mut s = String::new();
                string_push(&mut s, *c);
                s
            },
            Key::Null => String::from_str("Null"),
            Key::CapsLock => String::from_str("CapsLock"),
            Key::ScrollLock => String::from_str("ScrollLock"),
            Key::NumLock => String::from_str("NumLock"),
            Key::PrintScreen => String::from_str("PrintScreen"),
            Key::Pause => String::from_str("Pause"),
            Key::Menu => String::from_str("Menu"),
            Key::KeypadBegin => String::from_str("KeypadBegin"),
            Key::Media(m) => {
                let mut s = String::from_str("Media(");
                s.append(m.to_string().as_str());
                s.append(")");
                s
            },
            Key::Esc => String::from_str("Esc"),
        }
    }
}

/// The modifier keys held with a key, one bit each: shift, control, alt.
#[derive(Debug, Clone, Copy, PartialEq, Eq, Hash, Structural)]
pub struct KeyModifiers {
    pub bits: u8,
}

impl KeyModifiers {
    /// No modifier.
    pub fn none() -> (m: KeyModifiers)
        ensures
            m.bits == 0,
    {
        KeyModifiers { bits: 0 }
    }

    /// The shift key.
    pub fn shift() -> (m: KeyModifiers)
        ensures
            m.bits == 1,
    {
        KeyModifiers { bits: 1 }
    }

    /// The control key.
    pub fn ctrl() -> (m: KeyModifiers)
        ensures
            m.bits == 2,
    {
        KeyModifiers { bits: 2 }
    }

    /// The alt key.
    pub fn alt() -> (m: KeyModifiers)
        ensures
            m.bits == 4,
    {
        KeyModifiers { bits: 4 }
    }

    /// No modifier.
    pub fn empty() -> (m: KeyModifiers)
        ensures
            m.bits == 0,
    {
        KeyModifiers { bits: 0 }
    }

    /// Whether every modifier of `other` is held.
    pub fn contains(&self, other: KeyModifiers) -> (b: bool)
        ensures
            b == (self.bits & other.bits == other.bits),
    {
        self.bits & other.bits == other.bits
    }

    /// The modifiers of both.
    pub fn union(self, other: KeyModifiers) -> (m: KeyModifiers)
        ensures
            m.bits == self.bits | other.bits,
    {
        KeyModifiers { bits: self.bits | other.bits }
    }
}

/// A key pressed with modifier keys.
#[derive(Debug, Clone, Copy, PartialEq, Eq, Hash, Structural)]
pub struct KeyEvent {
    pub key: Key,
    pub modifiers: KeyModifiers,
}

/// How a key event is written: `C-` with control, `M-` with alt and `S-` with shift, in that
/// order, then the key's name.
pub open spec fn event_text(e: KeyEvent) -> Seq<char> {
    (if e.modifiers.bits & 2 == 2 { "C-"@ } else { Seq::empty() }) + (if e.modifiers.bits & 4 == 4 {
        "M-"@
    } else {
        Seq::empty()
    }) + (if e.modifiers.bits & 1 == 1 { "S-"@ } else { Seq::empty() }) + key_name(e.key)
}

/// What `char::is_uppercase` answers for a character: whether it has the Unicode `Uppercase`
/// property.
pub uninterp spec fn spec_is_uppercase(c: char) -> bool;

/// Calls `char::is_uppercase` of std.
/// Claimed: the answer is the named property of `c`, and depends on `c` alone; among the
/// ASCII characters exactly `A` to `Z` are uppercase.
#[verifier::external_body]
fn char_is_uppercase(c: char) -> (b: bool)
    ensures
        b == spec_is_uppercase(c),
        (c as u32) < 128 ==> (b <==> ('A' <= c && c <= 'Z')),
{
    c.is_uppercase()
}

/// The modifiers of a key event read from a terminal: shift counts except on an uppercase
/// character, which already shows it; control and alt count as they are.
pub open spec fn terminal_modifiers(key: Key, shift: bool, ctrl: bool, alt: bool) -> u8 {
    let s: u8 = if shift && !(key matches Key::Char(c) && spec_is_uppercase(c)) { 1 } else { 0 };
    let c: u8 = if ctrl { 2 } else { 0 };
    let a: u8 = if alt { 4 } else { 0 };
    s | c | a
}

impl KeyEvent {
    /// The event of `key` pressed with `modifiers`.
    pub fn new(key: Key, modifiers: KeyModifiers) -> (e: KeyEvent)
        ensures
            e == (KeyEvent { key, modifiers }),
    {
        KeyEvent { key, modifiers }
    }

    /// The event of `key` pressed alone.
    pub fn from_key(key: Key) -> (e: KeyEvent)
        ensures
            e == (KeyEvent { key, modifiers: KeyModifiers { bits: 0 } }),
    {
        KeyEvent::new(key, KeyModifiers::empty())
    }

    /// The event of `key` read from a terminal with the shift, control and alt keys held as
    /// given.
    pub fn from_terminal(key: Key, shift: bool, ctrl: bool, alt: bool) -> (e: KeyEvent)
        ensures
            e == (KeyEvent { key, modifiers: KeyModifiers { bits: terminal_modifiers(key, shift, ctrl, alt) } }),
    {
        let sb: u8 = if shift {
            match key {
                Key::Char(x) => if char_is_uppercase(x) {
                    0
                } else {
                    1
                },
                _ => 1,
            }
        } else {
            0
        };
        let cb: u8 = if ctrl { 2 } else { 0 };
        let ab: u8 = if alt { 4 } else { 0 };
        let modifiers = KeyModifiers { bits: sb | cb | ab };
        KeyEvent::new(key, modifiers)
    }

    /// The event as it is written.
    pub fn to_string(&self) -> (s: String)
        ensures
            s@ == event_text(*self),
    {
        let mut s = String::new();
        if self.modifiers.contains(KeyModifiers::ctrl()) {
            s.append("C-");
        }
        if self.modifiers.contains(KeyModifiers::alt()) {
            s.append("M-");
        }
        if self.modifiers.contains(KeyModifiers::shift()) {
            s.append("S-");
        }
        s.append(self.key.to_string().as_str());
        assert(s@ =~= event_text(*self));
        s
    }
}

} // verus!
