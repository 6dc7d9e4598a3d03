# synesthesia

Data in, terminal weather out: live machine activity (demo streams, text
lines, NDJSON, tshark rows, Linux procfs, scheduler and TCP collector pulses)
normalized into one event shape and drawn as a terminal instrument.

## Layout

- `src/` is the library, verified with Verus. Every public function states
  what it returns in its contract, and the laws that relate several
  functions are public proof functions named `law_*`.
  - `event` — the normalized event, exact quantities, labels, validation.
  - `source` — the sources: demo generator, line, NDJSON and tshark
    readers, procfs parsing and process tracking, scheduler and TCP kernel
    records, helper wire formats and their aggregation.
  - `flight` — the bounded incident recorder as a state machine whose steps
    say what to write, incident metadata, and replay.
  - `trigger` — trigger rules and the two-of-three window debounce.
  - `doctor` — the readiness report built from a diagnostic snapshot, its
    text rendering and the probes' decisions.
  - `cli`, `controls`, `view`, `render`, `text`, `parse` — options, keys,
    status helpers, the text of a snapshot grid, the xterm-256 palette and
    string utilities.
- `tests/` exercises the library on concrete values.
- `app/` is the program around the library: command-line parsing, terminal
  drawing, file, process and pipe I/O, threads, and everything computed on
  floating-point numbers (the temporal model, rendering geometry, replay
  timing and rate triggers).
