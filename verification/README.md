# accepted

A modal text editor for the terminal, with vi-like keys, tabs, snippets,
completion from a language server, compiling and test runs, and remote
editing (rmate). The editing logic is written in Verus and proved against
its contracts; the program around it does the terminal, file, process and
network work.

## Layout

- `src/` — the verified library.
  - `edit_core/` — the text model (lines, cursors), edits with undo and
    redo, and the rope store behind it.
  - `mode.rs`, `buffer_mode.rs`, `buffer_tab.rs` — the modes and what each
    key does, the macro that `.` repeats, and the tabs.
  - `text_object.rs`, `search.rs`, `indent.rs`, `parenthesis.rs` — text
    objects, search and indentation.
  - `draw/`, `buffer_draw.rs`, `mode_draw.rs` — the screen model: what
    drawing puts in each cell, where the cursor goes, and the escape
    sequences a frame is sent with.
  - `completion.rs`, `completers.rs`, `lsp.rs`, `fuzzy.rs`, `snippets.rs` —
    completion offers, the language server's wire format, the fuzzy file
    opener and snippets.
  - `compiler.rs`, `test_run.rs`, `config.rs`, `paths.rs`, `rmate.rs` —
    compiler messages, the test command, settings, and the rmate protocol.
- `tests/` — tests of the library.
- `app/` — the program: terminal input and output, files, child
  processes (compiler, language server, test runs), the clipboard, and the
  rmate server.
