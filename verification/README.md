# amlang

A triple store of nodes — atoms, structures (s-expressions) and triples —
with per-context designations (names for nodes), and the agent state that
works on top of it: positions, designation chains, imports between
environments, and the reading of environments from their sectioned text
form.

Layout:

- `src/` — the library, verified with Verus.
  - `env/` — environments: the model of an environment (`EnvModel`), the
    in-memory environment, overlays, the meta environment of environments.
  - `environment/` — the earlier environment interface and its in-memory form.
  - `agent/` — agent state (`EnvState`), contexts, prelude nodes, headers,
    the environment serializer, interpreters' state.
  - `builtin.rs`, `builtins.rs` — built-in procedures.
  - `reader.rs` — reading structures from text, with its grammar stated.
- `tests/` — tests of the library.
- `app/` — serde forms of the library's data and reading from files.
