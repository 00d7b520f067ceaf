//! The core of a Lightning Service Provider's liquidity protocols: the LSPS0
//! transport and the LSPS2 protocol for channels that are opened just in time.
//!
//! A JIT channel lets a node without inbound liquidity hand out an invoice
//! that, when paid, has the LSP open a channel to the node and forward the
//! payment over it, less an opening fee.
//!
//! The library does no input or output. Its entry is
//! [`transport::message_handler::LiquidityManager`]: the messages of peers,
//! the calls of the user and the news of the node go in, together with the
//! instant and the random bytes that a step may need; the messages to send,
//! the events for the user and the orders for the node come out. Every step
//! is specified by a function from the state before to the state after, and
//! verified against it.

pub mod error;
pub mod events;
pub mod features;
pub mod jit_channel;
pub mod json;
pub mod node;
pub mod time;
pub mod transport;
pub mod utils;
