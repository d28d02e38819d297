# wezterm_parallel

A framework that runs several development processes side by side in WezTerm:
it keeps workspaces and tasks, answers requests on a Unix socket, serves a
WebSocket dashboard, and watches memory, health and alerts.

The library in `src/` holds the framework's logic, each function with a
contract proved by Verus:

- `config`: the configuration, its defaults, validation, search paths,
  environment and command-line overrides, and the file watch.
- `ipc`: the messages on the socket and the answers to them.
- `commander`: the shared task file.
- `dashboard`: connected clients and their subscriptions, task boards.
- `error`: user-facing errors, their guidance and automatic recovery.
- `logging`: levels, log strategies, and the human-readable, JSON, logfmt
  and template formats.
- `monitoring`: health checks, alerts, error analysis, analytics counts, and
  the parsing of `/proc` files and command output.
- `metrics`: request tracking, per-workspace and framework figures, process
  histories, and the decisions of metrics storage.
- `performance`: buffer pool, string interner, memory monitor, a small data
  cache, background task queue and batching, and the performance metrics
  collector (response-time window, error and operation counts, sample
  history and its summary, memory and response-time alerts).
- `text`, `tokens`, `assoc`: text, line and word helpers and small maps.

`app/` is the program around it: argument handling, files and sockets, the
WebSocket server, threads, and the floating-point figures (percentages,
averages and scores). `tests/` exercises the library.

Verify with Verus; build and test with cargo.
