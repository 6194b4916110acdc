//! Building blocks of a sharded chat-gateway client: the queuer that spaces out
//! shard boots and retries failed ones, the registry of running shards, the
//! builder for edits of webhook messages, and the plain data that travels with
//! them.
//!
//! Everything here is synchronous and free of I/O. A driver owns the sockets,
//! the clock and the task spawner; it feeds what it observed to the types of
//! this crate and carries out what they answer.

pub mod builder;
pub mod client;
pub mod constants;
pub mod error;
pub mod framework;
pub mod gateway;
pub mod model;
pub mod utils;
