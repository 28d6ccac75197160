use vstd::prelude::*;
use crate::key::KeyEvent;

verus! {

/// The components of the screen.
#[derive(Debug, Clone, Copy, PartialEq, Eq, Hash, Structural)]
pub enum Id {
    Buffer,
    Status,
    NumberLine,
    Gutter,
    Input,
}

/// What a pane tells the application.
#[derive(Debug, Clone, PartialEq, Eq, Hash)]
pub enum AppEvent {
    Edit,
    StatusChanged,
    Scroll,
    OpenFile(String),
    Close,
    ForceClose,
    ForceQuit,
}

/// What the components tell the model.
#[derive(Debug, Clone, PartialEq, Eq)]
pub enum Message {
    AppClose,
    Close,
    ForceClose,
    Redraw,
    OpenFile(String),
    MoveCursor(Option<(u16, u16)>),
    Scroll(Option<(u16, u16)>),
    Key(KeyEvent),
}

/// What the model asks of the application.
pub enum ModelMessage {
    Close,
    ForceQuit,
    OpenFile(String),
}

/// The layer that receives the input of the user and hands it to the model.
pub struct InputLayer;

/// The message for an application event: closing, quitting and opening a file are passed on,
/// the other events are not.
pub open spec fn message_for(ev: AppEvent) -> Option<Message> {
    match ev {
        AppEvent::Close => Some(Message::Close),
        AppEvent::ForceQuit => Some(Message::AppClose),
        AppEvent::ForceClose => Some(Message::ForceClose),
        AppEvent::OpenFile(p) => Some(Message::OpenFile(p)),
        _ => None,
    }
}

impl InputLayer {
    /// The input layer.
    pub fn new() -> (l: Self) {
        InputLayer
    }

    /// The message for an application event.
    pub fn on_app_event(&self, ev: AppEvent) -> (m: Option<Message>)
        ensures
            m == message_for(ev),
    {
        match ev {
            AppEvent::Close => Some(Message::Close),
            AppEvent::ForceQuit => Some(Message::AppClose),
            AppEvent::ForceClose => Some(Message::ForceClose),
            AppEvent::OpenFile(p) => Some(Message::OpenFile(p)),
            _ => None,
        }
    }

    /// The message for a key pressed.
    pub fn on_key(&self, key: KeyEvent) -> (m: Message)
        ensures
            m == Message::Key(key),
    {
        Message::Key(key)
    }

    /// The message for a change of the window's size: draw again.
    pub fn on_resize(&self) -> (m: Message)
        ensures
            m == Message::Redraw,
    {
        Message::Redraw
    }
}

/// The arguments of the program.
pub struct Args {
    /// The filepath to open
    pub file: Option<String>,
    /// Whether to write the default settings files and stop
    pub generate_default_settings: bool,
    /// Whether to leave the user's settings files unread
    pub ignore_user_settings: bool,
}

impl Args {
    /// The path of the file to open, if one was given.
    pub fn get_path(&self) -> (p: Option<String>)
        ensures
            p matches Some(s) ==> self.file matches Some(f) && s@ == f@,
            p is None ==> self.file is None,
    {
        match &self.file {
            Some(path) => Some(path.clone()),
            None => None,
        }
    }
}

} // verus!
