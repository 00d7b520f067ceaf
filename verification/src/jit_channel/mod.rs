//! The JIT channel protocol: a channel opened in answer to, and paid for by, an
//! incoming payment.

pub mod channel_manager;
pub mod msgs;
pub mod steps;
pub mod utils;
