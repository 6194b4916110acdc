//! The data that the service sends and takes.

pub mod application;
pub mod channel;
pub mod guild;
pub mod id;
pub mod misc;
pub mod permissions;
pub mod timestamp;
pub mod user;
