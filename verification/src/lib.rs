//! Verified core of a process and HTTP-request monitor: a bounded request
//! store, the per-worker shard layout used to share counters between worker
//! processes, and the Prometheus text exposition layout.

pub mod aggregator;
pub mod clock;
pub mod multiproc;
pub mod prometheus;
pub mod request_metrics;
pub mod text;
