# vgrep

Local semantic search over a project's files. This crate is the verified
core of vgrep, written in Verus: the functions in `src/` carry contracts
that Verus proves, apart from a few small trusted wrappers around outside
crates and std, whose doc comments say what their contracts claim.

- `src/config.rs` — configuration values, defaults under environment
  overrides, server host validation, and the paths under `~/.vgrep`
  (configuration file, models directory, per-project database named by a
  SHA-256 hash of the project path), and the messages its errors carry.
- `src/filter.rs` — which files are indexed: extension whitelist (ASCII case
  insensitive), glob patterns that keep files out and that let files in.
- `src/ranking.rs` — ranking of search hits: integer keys that order `f32`
  scores from their bits, best chunk per file, highest score first, cut to
  the number of results asked for.
- `src/client.rs` — the HTTP requests sent to a vgrep server, reading the
  raw response, and the error message of a failed request.
- `src/tui.rs` — the decisions of the interactive search screen and the
  labels of its results.
- `src/logging.rs` — which filter decides what is logged.
- `src/models.rs` — model file checks, their messages, and token limits of
  the embedder.
- `src/paths.rs`, `src/text.rs` — paths and text as character sequences.

`app/` holds the unverified parts around the library: reading and writing
the configuration file, the TCP connection, the terminal screen, logging and
file helpers. `tests/` runs the library on concrete values.
