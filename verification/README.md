# rust_py_monitor — verified core

The Rust core of a process and HTTP-request monitor for Python applications.

- `src/` is the verified library:
  - `request_metrics` — the bounded, oldest-first request store (ring buffer
    with a capacity of at least one entry);
  - `aggregator` — which requests count as errors, and counting them;
  - `multiproc` — the per-worker shard layout, folding a request into a
    shard, merging the shards of live workers, shard file names, and the
    decisions that switch multi-worker mode on and off;
  - `prometheus` — the metric families and the text exposition layout;
  - `text`, `clock` — string helpers and the Unix clock.
- `app/` is the Python extension module around it: the process-wide state,
  file mapping of shards, process snapshots through `sysinfo`, and every
  floating-point computation (averages, percentiles, histogram quantiles,
  alert thresholds, number formatting).
- `tests/` exercises the library.
