# loom_cli

The verified core of the Loom command-line interface, written in Verus.

- `src/` is the library: the terminal UI's state machine, text composer,
  viewport, panels, approval overlay, diff and streaming views, and the
  text, orderings and decisions of the `skills`, `curator`, `session`,
  `task`, `tool`, `memory`, `mcp` and `skill-usage` subcommands. Every
  function in it has a contract proved by Verus, except the small trusted
  wrappers (marked `#[verifier::external_body]`) around calls into std,
  serde_json, serde_yaml and unicode-width, whose contracts Verus takes as
  given. Laws that relate several operations are public proof functions
  named `law_*`.
- `tests/` runs the library on concrete inputs.
- `app/` is the unverified shell around it: the terminal (crossterm and
  ratatui), the event loop (tokio), signals, desktop notifications and
  file access.
