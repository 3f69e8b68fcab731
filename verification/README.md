# luther_workflow

The verified core of the Luther workflow runner, written in Verus.

- `src/` is the library. Its verified functions carry `requires`/`ensures`
  contracts that Verus proves: run metadata and its status machine, issue leases
  and the SQL statements that claim and move them, recovery epochs, launch
  provenance and effect/operation bindings with their digests, checkpoints,
  registry rows read back into records, the monitor's restart policy,
  heartbeats and IPC answers, the monitor
  snapshot, and the plain-text reports of the command line (`status`,
  `runs list|show|ps|tail|checkpoints`, `daemon queue`). Public `proof fn`s
  state the laws that tie these together (round trips of encodings,
  unambiguous byte framings, placeholder counts that match bound values,
  what a filter keeps, and so on).
- Calls into other crates and into std (SHA-256, RFC 3339 rendering and
  parsing, JSON string lists, lossy UTF-8 decoding, monotonic instants) stand
  behind small trusted wrappers whose doc comments say what is assumed of
  them. The wall clock is read in `app/` and handed to the library as a
  value.
- `app/` is the ordinary Rust around the library: the `luther` command line,
  SQLite access, heartbeat and lock files, the monitor socket, process
  liveness checks, and the restart policy's floating-point backoff.
- `tests/` exercises the library on concrete values.
