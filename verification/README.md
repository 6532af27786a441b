# uclip

The library of a cross-platform universal clipboard: the domain types, the
sans-I/O sync engine (Lamport clocks, last-writer-wins, echo suppression),
the clipboard backend abstraction and the polling watcher, written in Verus
with their contracts.

- `src/lib.rs` — device ids, paths, settings, device info.
- `src/clipboard.rs` — clip content, the backend trait, the in-memory
  backend, the backend specification string.
- `src/proto.rs` — wire protocol messages.
- `src/engine.rs` — the sync engine, its step functions and their laws.
- `src/suppress.rs` — the echo suppression map.
- `src/watcher.rs` — the polling watcher.
- `app/` — the `uclip` command line: OS and file backends, directory
  discovery, TOML and JSON forms of the types, threads and Ctrl-C.
