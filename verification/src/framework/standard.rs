//! The standard command framework.

pub mod configuration;
pub mod parse;
pub mod stream;
pub mod structures;
