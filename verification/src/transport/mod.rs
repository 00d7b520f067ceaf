//! The transport that the protocols share: JSON-RPC messages and their routing.

pub mod codec;
pub mod format;
pub mod message_handler;
pub mod msgs;
pub mod protocol;
