# node_ide

The core of a visual node-edge workflow IDE, written in Verus: every
function in `src/` carries a contract that Verus proves.

- `runtime/` — the lifecycle state machine of nodes in their two modes, the
  What/How port protocol and its resolution grid, nodes and their runs,
  edges, graph validation (cycles, occupied inputs, port compatibility),
  topological order and graph runs.
- `migration/` — the schema steps of the project file (1 → 4) over a JSON
  document model, and the registry that applies them in version order.
- `persistence/` — the project, its errors, and the choice of the backup to
  restore.
- `state.rs` — the application state and its commands; each command keeps a
  well-formed graph well formed.
- `cli.rs`, `ipc.rs` — the decisions behind the command line and the
  desktop commands: request parsing, headless runs, event coalescing.
- `json.rs`, `text.rs`, `seqs.rs`, `ids.rs` — the JSON model, decimal and
  UUID text, sequence search, and random ids.

`app/` is the command-line program around the library: argument parsing,
files, backups, and the JSON wire format. `tests/` holds the tests.
