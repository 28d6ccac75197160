# sevi

A modal text editor whose editing core is a verified library.

- `src/` is the library, checked by Verus: the text buffer with its undo history
  (`buffer`, `rope`, `words`, `line_edit`), files, their selections and the cursor (`file`,
  `selection`, `cursor`, `text_pane`, `text_buffer`), keys and key bindings (`key`, `keybindings`, `default_bindings`,
  `keybinding_config`), the modes and the commands they send to the pane (`modes`,
  `pane_commands`, `commands`, `events`), styles, colors and the drawing of text (`style`,
  `styled`, `display`, `delimiters`, `color_names`, `colors`, `style_config`,
  `colors_config`), settings (`settings`,
  `editor_settings`, `config`), registers (`registers`) and what a language server
  sends (`lsp`, `lsp_message`).
- `app/` is the terminal program around it: argument handling, configuration files,
  drawing and the key loop.
- `tests/` runs the library on concrete values.

The calls into `crop`, `toml` and `arboard` stand in `src/` behind small trusted
wrappers whose contracts are stated next to them.
