//! Talking to Discord over its local IPC channel.

pub mod client;
pub mod protocol;
