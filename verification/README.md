# pulse

A host telemetry tripwire: a snapshot holds a host's process tree and IPv4 TCP
connection table; `watch::diff` reports the drift of a current snapshot from a
baseline (new processes, new external connections, reparented or orphaned
processes) and the classifier grades it `Okay` / `Warn` / `Alert`.

Layout:

- `src/` — the library, verified with Verus: `text` (decimal text),
  `snapshot` (records, IPv4 parsing and address classes, TCP row rendering),
  `watch` (the drift and its laws), `verdict` (the classifier and its rules),
  `cli` (command-line decisions).
- `app/` — the `pulse` program: argument and file I/O, JSON, and the Win32
  enumeration of processes and sockets.
- `tests/` — tests of the library.
