# codex_potter_tui

The core of the CodexPotter terminal user interface, written in Verus.

- `src/` is the library. Every function states what it returns or changes, and
  Verus proves it. Outside crates are called through a few functions whose
  contracts are believed; each says above it what it claims of the outside code.
  They stand in `text.rs`, `width.rs`, `layout.rs`, `history_cell.rs`,
  `toml_doc.rs`, `codex_config.rs` and `bottom_pane/word_boundary.rs`.
- `tests/` runs the library with the outside crates linked.
- `app/` is ordinary Rust around the library: files, the terminal and the loops
  that wait for events. It performs the actions that the library asks for.

The proof functions whose names begin with `law_` state what holds of the
library as a whole.
