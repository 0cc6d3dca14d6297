# spacebot

The verified core of an agent system in which every model process has a role of
its own: channels talk to users, branches think, workers work, and the cortex
watches over all of them and keeps the memory bulletin.

The library holds the decisions: which messages wait for others and which events
a channel handles, what stands in a history after a turn, what becomes of results
that come in the background, when a bulletin is due, what a task leaves behind,
who may cancel what, and how each request of the HTTP API reads or changes the
configuration. Every function has a contract that Verus proves.

- `src/` is the library. `agent/` holds the processes of an agent, `api/` the
  edits and reads of the configuration document, `config/` the defaults of the
  configuration file, and the modules beside them what these share.
- `src/toml_doc.rs`, `src/clock.rs`, `src/json.rs`, `src/ids.rs`,
  `src/base64_bytes.rs`, `src/api/server.rs`, `src/messages.rs` and `src/text.rs`
  hold the calls into other crates and into the standard library. Their contracts
  are believed, not proved, and say so.
- `tests/` runs the library with the crates that it calls.
- `app/` is ordinary Rust around the library: buses, tasks and timers, the HTTP
  server, files, and the shapes that values have on the wire.

Public proof functions whose names begin with `law_` state what holds of the
library as a whole.
