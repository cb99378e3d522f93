# configuratarr

Desired-state configuration for media servers (Audiobookshelf, Bindery,
autobrr): the decisions that turn a declared configuration and a live read into
the writes that make the server match, verified with Verus.

## Layout

- `src/json.rs` — the JSON model the decisions work on, with its equality
  (objects as maps, numbers by kind) proved against a mathematical view.
- `src/numeric.rs` — comparing JSON numbers as IEEE doubles, in exact integer
  arithmetic.
- `src/text.rs`, `src/render.rs`, `src/wire.rs` — strings (decimal rendering,
  sorting, joining), compact JSON text (through `serde_json`), and building
  wire objects from typed declarations.
- `src/sync.rs` — what the resources share: envelopes, id registration,
  key-by-key comparison, singleton steps, keyed create/update/leave steps and
  pruning.
- `src/audiobookshelf`, `src/bindery`, `src/autobrr` — one module per resource:
  its comparison, its write bodies, its decision, and the laws it keeps
  (idempotence after a write, what is never compared, what is never sent).
- `app/` — the HTTP drivers: read, ask the library, write.
- `tests/` — the scenarios, run against the compiled library.
