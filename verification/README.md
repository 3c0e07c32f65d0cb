# agent

The core of a coding agent, with its rules proved by Verus: sessions and their
transcripts, the permission gate around tools, plan mode, plugins and
marketplaces, MCP servers, language-server tools, token accounting and the
stability of the prompt prefix.

- `src/` is the library. Every function in it has a contract over mathematical
  models of its data (`Seq`, `Map`, views of the types), and the public proof
  functions state what holds of several functions together. What the library
  takes from other crates and from the standard library without proof stands in
  `src/outside.rs` and at the head of `src/text.rs`.
- `tests/` runs the library on concrete values.
- `app/` is ordinary Rust around the library: files, processes, channels, the
  network and the serialised forms of the types. It performs what the library
  asks for and reports back what came of it.

The library knows of files only what its callers tell it. A path check, for
instance, takes the path as written and its canonical form, and the caller looks
at the disk. In the same way the session actor (`src/actor.rs`, `src/runs.rs`,
`src/startup.rs`) is a state machine from commands and outcomes to actions.
