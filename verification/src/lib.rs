//! Per-zone VFS activity rate engine.
//!
//! Given two time-stamped snapshots of per-instance counter groups, this
//! library computes throughput, queue depth, latency and utilization
//! metrics across irregular sampling intervals, zone appearance and
//! disappearance, and counter units. Reading the kernel counters,
//! argument parsing and terminal output live outside the library; the
//! library works on plain counter values and hands back rows of exact
//! rational metrics.

use vstd::prelude::*;

pub mod fields;
pub mod metrics;
pub mod rows;
pub mod sampler;
pub mod snapshot;
pub mod stats;

verus! {

} // verus!
