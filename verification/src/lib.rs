pub mod buffer;
pub mod chars;
pub mod editor_settings;
pub mod rect;
pub mod rope;
pub mod settings;
pub mod style;
pub mod styled;
pub mod file;
pub mod cursor;
pub mod file_cursor;
pub mod key;
pub mod keybindings;
pub mod default_bindings;
pub mod lsp;
pub mod modes;
pub mod status;
pub mod text_buffer;
pub mod colors;
pub mod events;
pub mod commands;
pub mod config;
pub mod style_config;
pub mod keybinding_config;
pub mod words;
pub mod line_edit;
pub mod registers;
pub mod pane_commands;
pub mod color_names;
pub mod lsp_message;
pub mod text_pane;
pub mod colors_config;
pub mod delimiters;
pub mod display;
pub mod selection;
