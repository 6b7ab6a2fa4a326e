//! Load testing and network health monitoring, with the decisions made on
//! plain integer values: the scheduling of a load test under a concurrency
//! cap, its aggregate result, packet-loss tallies, and a sliding-window
//! latency anomaly detector.
use vstd::prelude::*;

pub mod load;
pub mod monitor;
pub mod probe;
pub mod wide;

verus! {

} // verus!
