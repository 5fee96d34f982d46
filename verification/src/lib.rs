//! A micro-benchmark harness core: a deterministic synthetic workload,
//! a sequential and a concurrency-bounded scheduling strategy over a
//! shared task-id space, and the measurement record wrapped around a run.

pub mod artifact;
pub mod codec;
pub mod digits;
pub mod gate;
pub mod measure;
pub mod outcome;
pub mod plan;
pub mod record;
pub mod schedule;
pub mod workload;
