//! Cooperative coordination primitives for batch-style workloads: a
//! hierarchical liveness/deadline token (`Alive`), a fan-out channel with
//! last-value retention (`Boardcast`), a bounded multi-consumer work
//! distributor (`Dispatcher`), the batch orchestration routine (`parallel`),
//! and a few small helpers (an LRU map, counters, string formatting).

pub mod channel;
pub mod format;
pub mod lru;
pub mod runner;
pub mod scan;
pub mod sys;
pub mod trace;
