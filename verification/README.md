# Model collaboration engine

Coordinates several models within explicit budgets and permissions, and keeps evidence of every
call that can be checked afterwards.

- `src/` is the verified library. The rules of routing, planning, execution, accounting and
  configuration are Verus functions whose contracts say exactly what they decide; the laws that
  hold across them are public proof functions.
- `app/` performs what the library decides: SQLite storage, HTTP transport, the asynchronous
  engine, serialized forms and the Python module (built with the `python` feature).
- `tests/` run the library on concrete values.

## How a run is decided

Each part of a run is a machine. A step takes what happened and gives the next state and what to
do next; its contract is an exact function of the two.

| Machine | Module | Decides |
| --- | --- | --- |
| `Run` | `engine::run` | admission, the wait for a slot, the saved end |
| `Preparation` | `engine::preparation` | planning, fallback, decision, assessment, the plan |
| `Execution` | `engine::rounds` | rounds, evaluation, criticism, upgrades, the result |
| `Node` | `engine::node` | routing, calls, tool turns, replacement of failed models |
| `Shutdown` | `engine::shutdown` | grace, cancellation, the end of the store |

The laws of the machines hold for every sequence of events: calls are paid for in order
(`engine::discipline`, `engine::preparation::discipline`), rounds are bounded
(`engine::rounds`), a task that was started is finished (`engine::run`). The ledger's laws are in
`store::settlement`: an account is the sum of its calls, stays within its call limit, and within
its budget as long as no call costs more than was set aside for it.

## Numbers

The library holds binary floating point numbers by their bits and compares them; sums and products
of them come from `app::scoring` as arguments. Serialized forms of the contracts also come as
arguments where only their size or checksum counts.
