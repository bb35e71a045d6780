# Castor

Castor is a local session manager for Gemini CLI conversation history: it lists,
searches, exports, validates and cleans up the session files under
`~/.gemini/tmp`, with soft delete into a trash directory, an append-only audit
log, and a terminal interface.

The library in `src/` is written in Verus and verified; the program in `app/`
does the file system, terminal and command-line work around it.

## Layout

- `src/model/` — sessions and their validation, the scanner's rules, the
  metadata cache and the registry with its id index.
- `src/ops/` — deletion and restore as plans of file steps, Markdown export,
  search, pruning, storage statistics and the doctor report.
- `src/tui/` — the interface state (grouping, ordering, navigation), key
  handling, what each panel shows, themes, and the laws about them.
- `src/utils/` — text, paths, JSON, time, icons and table cells.
- `src/cli.rs`, `src/config.rs`, `src/audit/`, `src/error.rs` — the command
  line, settings, audit entries and errors.
- `app/` — `main`, configuration and cache files, scanning the disk, carrying
  out plans, printing tables and running the terminal interface.
- `tests/` — tests of the library.

## Trust

Calls into other crates (serde_json, chrono, unicode-width, directories)
and a few std functions go through small trusted wrappers whose contracts are
stated in their doc comments; everything else in `src/` is proved. The
clock is read through `std::time::SystemTime`, and random batch ids are drawn
by `app/` and handed to the library.
