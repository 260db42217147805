//! A per-core packet mirroring runtime: composable batch pipelines
//! (Source, Parse, Transform, Filter, Sink) over receive/transmit
//! queue pairs, merged round-robin onto one polling loop per core,
//! with interval throughput statistics. Every stage, the merge and the
//! reporting arithmetic carry proved contracts: frame order is kept
//! from receive to transmit, filtered frames never reach the wire, and
//! reported deltas are exact.

pub mod batch;
pub mod bootstrap;
pub mod clock;
pub mod mac;
pub mod merge;
pub mod pipeline;
pub mod port;
pub mod stats;
pub mod worker;
