# rustrace

Rules, parsers and state machines of a local workspace for Rust assignments that
records what was edited and which tools were run.

The library under `src/` is written in Verus: a function states what it does, and
Verus proves it. What belongs to other crates (hashing, JSON, grapheme clusters,
cell widths, parsing with Tree-sitter) and what vstd does not specify of the
standard library is called through trusted functions, marked
`#[verifier::external_body]`. Of those nothing is proved: their contracts say what
is taken for granted, and all proofs about their callers rest on it.

- Text and display: `text`, `order`, `glyph`, `style`, `display`, `json`.
- Commands: `cargo_policy`, `cargo_command`, `command_process`, `process_run`,
  `console`, `console_line`.
- Diagnostics of Cargo: `cargo_message`, `diagnostics`, `diagnostics_laws`.
- Indicators of a recorded attempt: `attempt`, `attempt_laws`, `process_rule`,
  `process_indicators`, `process_display`, `event_list`.
- The language server: `lsp_json`, `lsp_parse`, `protocol` and its parts,
  `resolution`, `language_service`, `stopping`.
- Recording and replaying one file: the `milestone` modules.
- The editor: `editor` with its grammars, edits, highlighting, time budgets, scrolling and
  drawing.
- The program: `cli`, `environment`, `doctor`, `config`, `ghostty`.

`app/` holds what touches the machine: processes, files, the terminal and the
configuration. It performs what the library decides and hands the outcome back.
`tests/` runs the library.
