# lazymvn

The logic of a terminal UI for Maven projects, written in Verus. Verus
checks every function in `src/` against its contract; most public functions
state exactly what they return, a few small helpers state nothing beyond
freedom from panics and overflow, and the calls into outside crates and a
few std functions go through trusted wrappers (marked
`#[verifier::external_body]`) whose contracts are assumed, not proved.

- `src/strings.rs`: text helpers shared by the rest (search, trimming,
  joining, ordering of texts) and the wrappers of the std string calls.
- `src/ui/search`: searching the output: matching, highlighting, status line.
- `src/ui/state`: the state logic of the UI: profiles and flags, per-module
  preferences, output metrics and scrolling, the search session, tab
  bookkeeping, command updates, list filters, auto-reload decisions,
  launcher arguments.
- `src/ui/panes`: what the panes and popups show: layout, titles, items,
  help list, tab bar.
- `src/ui/theme.rs`: the styles, as values.
- `src/utils`: log colouring (log lines and XML), display width, git branch
  parsing, loading progress, log formatting and rotation plans, file
  patterns of the watcher.
- `app/`: what cannot be verified: terminal rendering with ratatui, file and
  process I/O, the logger, file watching.
- `tests/`: tests of the library, run against the real outside crates.

The outside crates (regex, unicode-width, globset, fuzzy-matcher, ratatui)
are called from `src/` through small trusted wrappers whose doc comments say
what is assumed of them.
