# elisym_cli

The agent runner library of the elisym command line, verified with Verus.

- `src/cli/` — agent configuration (name rules, paths, secrets held in and
  cleared from a configuration), the encryption of secrets (Argon2id key,
  AES-256-GCM, Base58 fields, a byte-level JSON encoding of the bundle) and
  the heartbeat messages.
- `src/runtime.rs` — the protocol fee and the paid-job flow as a state
  machine: each step takes what the runner observed and gives the actions to
  carry out next.
- `src/runner.rs` — the job runner's own decisions: taking jobs in, reporting
  crashed tasks, and shutting down on Ctrl+C with a 30-second grace period.
- `src/tui/` — the dashboard state updated by runtime events, and the text of
  its cells, titles and durations, and the keys it reacts to.
- `src/util.rs` — decimal and SOL amount text, padding, byte prefixes.
- `app/` — the program around the library: configuration files (TOML),
  the job runner's I/O loop, drawing with ratatui, sounds.
