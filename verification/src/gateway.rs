//! Shard identities and the supervision of their connections.

pub mod schedule;
pub mod shard;
pub mod shard_queuer;
pub mod shard_runners;
