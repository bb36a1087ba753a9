# newts

A terminal notebook: cells of shell, Rust, Python, JavaScript, TypeScript,
C, C++ and Go, kept as markdown, edited with vim-like keys, and run by a
local server.

## Layout

- `src/` — the library, verified with Verus.
  - `keys.rs`: what every key does in every mode, as a state machine whose
    outside work (running a cell, saving, the external editor) is returned
    as an `Effect`; `state.rs`: the editor's state and its operations.
  - `markdown.rs`, `markdown_laws.rs`: the notebook's markdown form and the
    proof that a notebook reads back from it.
  - `kernel.rs`, `go_kernel.rs`, `scripts.rs`: the programs assembled for a
    run in each language.
  - `api.rs`, `files.rs`, `runner.rs`, `terminal.rs`: the server's replies,
    the file tree, command-line runs, saved terminal sessions.
  - `view.rs`, `colors.rs`, `cursor.rs`, `search.rs`: the texts and colours
    the editor shows, cursor positions, smart-case search.
  - `lite.rs`: the light editor, which keeps JSON notebooks in the
    application directory and runs cells through the script server.
  - `laws.rs`: properties that span several keys or functions.
  - `text.rs`, `numparse.rs`, `paths.rs`: characters, numbers and paths.
  - `pattern.rs`, `ids.rs`: the regular expressions and cell identifiers,
    through the `regex` and `uuid` crates.
- `tests/` — tests of the library.
- `app/` — the program: command line, terminal loops, HTTP servers, kernel
  processes.
