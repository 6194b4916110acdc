//! What turns messages into commands.

pub mod standard;
