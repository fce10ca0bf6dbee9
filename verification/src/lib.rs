//! The core of a host-metrics broadcast service: one sampler publishes
//! snapshots to single-slot topics, and any number of connections follow a
//! topic at their own pace, each seeing the newest value and never blocking
//! the sampler.

pub mod connection;
pub mod guarantees;
pub mod memory;
pub mod sampler;
pub mod topic;
