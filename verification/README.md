# cxxpect_editor

A small native editor for `.cxxp` contracts, whose logic is a library
verified with Verus.

- `src/` is the verified library:
  - `document` — the open document: path, text, saved snapshot, revision,
    line ending, and when it is dirty.
  - `text` — char indices, UTF-8 byte offsets, line counts, cursor line and
    column, range overlap.
  - `highlight` — cutting the text into comment, string, keyword and plain
    tokens, and underlining the tokens that diagnostics cover.
  - `search` — "find next" with wrap-around and "replace all".
  - `verification` — the debounce of verification requests and the
    rejection of stale results.
  - `session` — what each command does, and the confirmation asked before
    unsaved changes would be lost.
  - `diagnostics`, `editor`, `status`, `format` — the diagnostics list, the
    gutter, the status bar texts and decimal numbers.
  - `unicode` — the Unicode character classes that the standard library
    answers.
- `app/` is the program around it: the egui window, file dialogs, file I/O,
  the verifier worker thread and the persisted settings.
- `tests/` runs the library on concrete values.
