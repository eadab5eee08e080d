# Gareji Core

Gareji Core is the local trust kernel of Gareji: it decides which agent runs may execute,
keeps an immutable ledger of Progress Checkpoints with independent per-destination delivery
state, holds explicit project registrations and their active Work item references, serves
them over a bounded newline-delimited JSON bridge, and drives the idempotent first-run setup
of a local installation.

The library under `src/` is written in Verus. Every function there carries a contract, and
the properties that span several operations are stated and proved as `law_*` proof
functions next to the operations they speak about.

- `policy`: capability policy and the capability gate.
- `runner`: bounded Runner requests and reports, and the executor that invokes a Runner
  Adapter only after approval.
- `codex`: the decisions of the Codex CLI Runner Adapter.
- `progress`: checkpoint validation, the checkpoint ledger and its delivery passes.
- `registry`: project registrations and active-work references.
- `bridge`, `board`, `board_adapter`, `contracts`, `cli`, `framing`: the Core bridge, the
  Board seam and the line framing of both protocols.
- `setup`: setup, diagnosis and status reports, the step machines of Setup and Doctor, and
  their terminal rendering.

`app/` holds the command-line programs around the library: argument parsing, SQLite storage,
child processes, the filesystem, and the JSON forms of the library's values. `tests/` holds
the tests.
