# rtk-core

A token-saving companion for coding agents: it rewrites commands before they
run (adding quieting flags) and compresses their output afterwards, keeping
errors, counts and file names while dropping progress noise.

The library in `src/` is written in Verus and every function in it is proved;
public functions state their results in contracts (the constructors of the
field-less command modules need none: each type has one value).

- `src/lib.rs`: the entry points `compress`, `summarize`, `estimate_tokens`
  and the input checks.
- `src/commands/`: one module per command family (git, cargo, go, pytest,
  psql, curl, aws, ...), command detection, and the pre-execution flag
  optimizer (`pre_execution.rs`).
- `src/filter/`: the generic strategies (error lines only, grouping by
  pattern, statistics).
- `src/daemon/`: the decisions of the daemon: request routing, the
  per-model compression policy, the fallback cut, the prompt sent to a
  language model and the handling of its reply.
- `src/config/`: configuration values and the per-model policy rules.
- `src/json.rs`: what serde_json reads in a JSON text, and records read
  from it (go test events, ruff diagnostics, aws responses).
- `src/tee/`: tee-file names, headers, time stamps and rotation plans.
- `src/tracking/`: token accounting for the history database.
- `src/laws.rs`: properties of the library as a whole, proved for every input.
- `src/text.rs`: text helpers with their specifications.

`app/` is the program around the library: the command line, the JSON-RPC
daemon and its transport, configuration files, the SQLite history, tee files
on disk and the HTTP client of the language model. `tests/` holds the tests.
