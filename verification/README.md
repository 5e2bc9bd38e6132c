# aptos_core

Pieces of the state logic of a blockchain node, verified with Verus.

- `src/aggregator`: aggregators, that is bounded counters which transactions
  change by deltas without reading them, and the aggregators of a transaction.
- `src/available_copies`: the analysis which finds, for each instruction of a
  function, the copies of locals that are available there.
- `src/pipeline`: the stages of a pipeline which executes and commits blocks,
  their queues and their signals.
- `src/checkpoint.rs`: the steps of making a checkpoint of a database.
- `src/data_client.rs`: the errors of a client of storage services.

Functions whose names begin with `law_` state what holds of several operations
together. `app/` holds what surrounds the library: threads, files, command
lines and wire formats. `tests/` runs the library on concrete values.
