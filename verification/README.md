# magma

magma is a terminal workspace: tabs of split terminal panes, a git pane
with staging and a hunk-by-hunk patch review, a structured-log viewer, a
file tree, and an agent that watches the workspace and proposes actions
planned by a language model.

This crate is its library, written in Verus: every function in `src/`
carries a `requires`/`ensures` contract, and the properties that span
several calls are stated and proved as `law_*` proof functions beside the
code they speak of. Verus proves every contract except those of the few
`#[verifier::external_body]` wrappers (`String::push`, `str::to_lowercase`,
`{:?}` formatting of a string, and `serde_json`'s parser, printer and value
conversions in `src/json.rs`): their contracts are trusted, each stated in
its doc comment, and the proofs that call them rest on them.

## Layout

- `src/text.rs`: the character-level string work the parsers share.
- `src/git.rs`, `src/commands.rs`: git's output read into values, and the
  argument list of each git command.
- `src/patch.rs`, `src/staging.rs`, `src/keys.rs`: the patch review, the
  staging view and what their keys do.
- `src/logs.rs`, `src/screen.rs`: the log viewer: levels, filters, scrolling
  and the words on its screen.
- `src/files.rs`, `src/theme.rs`, `src/settings.rs`, `src/shell.rs`,
  `src/persist.rs`: file kinds and listing order, colours and profiles, the
  settings search, the shell around the panes, and the saved workspace.
- `src/render.rs`: the custom renderer's pixel drawing.
- `src/agent.rs`, `src/observer.rs`, `src/runtime.rs`, `src/model.rs`,
  `src/context.rs`, `src/memory.rs`, `src/json.rs`: the agent: its actions,
  what it notices, how a request goes from plan to effect, the model's rate
  limit and replies, the context it sends, what it remembers, and the JSON
  documents it reads (through `serde_json`).
- `tests/`: tests on concrete values, run against the compiled library.
- `app/`: the program around the library: arguments, files, processes,
  threads, the terminal interface and the model's HTTP calls.
