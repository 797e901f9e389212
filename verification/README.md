# sisa_messaging

Durable message consumption, with its decisions verified by Verus: a bounded consumer over a
transactional inbox, and an Apache Iggy publisher and consumer-group source.

- `src/` is the library. It performs no I/O. What needs a broker or a database is a state machine
  that names the next operation and takes its outcome back.
  - `consumer/`: settings, startup checks, the per-delivery workflow, settlement, partition
    coordination, and the accounting of a run.
  - `inbox/`: receipts, failure reduction, dead letters, maintenance.
  - `provider/`: the Iggy envelope mapping, publication, error classification, and source.
- `app/` runs the library: tasks, timers, telemetry, and the Iggy connection.
- `tests/` run the library on concrete values.

## What is proved

- A delivery is acknowledged only after its commit succeeded or the inbox reported its message as
  completed; a partition advances only past a durably completed or dead record
  (`consumer/process_laws.rs`, `consumer/partition_laws.rs`).
- A workflow gives up every transaction that it begins, once, and records a failure only outside any
  transaction: a handler's after its rollback was confirmed, an undecodable body's before one begins.
- A partition never has two coordinators at a time, and an outdated one cannot clear its successor.
- The source skips no record: a position moves only past a record whose settlement reported it as
  advanced (`provider/source/history.rs`). A shut-down client closes it for good, and withdrawn
  partitions are reported before any further record (`provider/source/laws.rs`).
- A published envelope is received as it was sent (`provider/round_trip.rs`), whatever the order of
  its headers (`provider/mapper/order.rs`).
- The first fatal failure of a run is the one that it reports, and no more deliveries are in flight,
  nor transactions open, than its capacity (`consumer/worker.rs`).

What the library believes of outside code is declared where it is used: `provider/sdk.rs` and
`provider/client.rs` for the Iggy SDK, `consumer/telemetry.rs` for OpenTelemetry, `ids.rs` for
UUIDs, and `text.rs` and `duration.rs` for the standard library.
