# microvm-blueprint-lib

Lifecycle orchestration of microVMs, verified with Verus.

- `src/lifecycle.rs`: the lifecycle state machine over an abstract table of VMs
  (create, start, stop, snapshot, destroy) and what each operation answers.
- `src/provider.rs`: the `VmProvider` and `VmQuery` contracts, stated over that
  state machine, and `InMemoryVmProvider`, which keeps its VMs sorted by identifier.
- `src/jobs.rs`, `src/runner.rs`: job identifiers, `LifecycleJob`, `JobRunner` and the
  answer a job call gives.
- `src/query.rs`: which reply (and HTTP status) a query result becomes.
- `src/errors.rs`, `src/model.rs`, `src/order.rs`: errors and their messages, the read
  model, and the byte order on identifiers.
- `src/laws.rs`: properties of the lifecycle that hold for every table and job.
- `app/`: the runnable service: Tangle job handlers and router, the HTTP query
  service, the process-wide provider and the serializable copies of the read model.
