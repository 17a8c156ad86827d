# greentic_dw

Digital Worker contracts for Greentic, written in Verus: the capability model
(declarations, profiles, resolution, pack sections and component
compatibility), the worker manifest and its tenancy and locale rules, runtime
lifecycle transitions, deep-agent plans, context packages, delegation and
reflection records, the deep-worker dispatch decisions, and the wizard's
question assembly and answer handling. Every function of the library carries
a contract that Verus proves.

Layout:

- `src/` — the verified library, one module per concern (`cap_*` for
  capabilities, `manifest`, `runtime`, `planning`, `context`, `delegation`,
  `reflection`, `invoker`, `wizard`, `design_flow`, `composition` and others).
  `text` and `table` hold the string and keyed-list building blocks the
  other modules share.
- `tests/` — tests of the library on concrete values.
- `app/` — the `greentic-dw` command line: argument parsing, file and
  network I/O, JSON and CBOR encoding, and the NATS dispatch service. It
  takes its decisions from the library.
