# hidemaru

The text engine of a small Windows text editor, verified with Verus, and the
editor's window around it.

- `src/` is the verified library:
  - `edit.rs`: `TextChange` and its mathematical view `Edit`; `compute_delta`,
    the minimal change between two texts, and the laws of making and taking
    back edits.
  - `engine.rs`: `TextEngine`, a rope-backed text with undo and redo
    history, regular-expression search and replacement, and loading of file
    contents; the laws relating undo, redo and recorded changes.
  - `decode.rs`: reading file bytes as UTF-8, falling back to Shift_JIS.
  - `display.rs`: the column ruler and the line-number column.
  - `rope_text.rs`, `pattern.rs`: the contracts of the `ropey` and `regex`
    calls the engine makes; `offsets.rs`: char and UTF-8 byte offsets.
  - `replace_action.rs`: the commands of the replace dialog.
- `app/` is the program: the window, its dialogs, and file reading and
  writing, built on `native-windows-gui`.
- `tests/` runs the library on concrete values.
