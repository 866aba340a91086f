# stellar_k8s

The decision logic of a Kubernetes operator for Stellar nodes, written in
Verus: each function states what it returns in its contract, and Verus
proves the code against it.

- `src/` is the verified library: disaster-recovery failover, cross-region
  sync, topology analysis, maintenance windows, the Horizon cache, the
  Soroban cache's eviction plan, metrics, audit and compliance records,
  chaos-experiment judging, incident root-cause analysis and timelines,
  the snapshot restore-and-test run and its temporary validator's objects,
  the SQL clauses read from slow queries, performance phases, spot-instance
  draining and configuration defaults. The metrics registry and its gauges
  and counters are kept here too, behind wrappers over prometheus-client. Calls into outside crates (regex,
  chrono, flate2, sha2, ed25519-dalek, lru, prometheus-client, ...) go
  through small trusted wrappers whose contracts are stated next to them.
- `tests/` exercises the library on concrete values.
- `app/` holds what the library leaves to its callers: file and clock
  access, configuration loading, serialisation, the process-wide registry
  instance with its histograms and floating-point gauges, and the
  floating-point scoring, forecasting and anomaly detection.
