//! A client core for a text publish/subscribe protocol (`PUB`, `SUB`, `MSG`, ...).
//!
//! The library holds the logic of the client and no I/O: the wire codec, the
//! frame parser, the subscription registry, the outbound queue, the keepalive
//! counter and the connection state machine. A driver owns the socket, feeds
//! the received bytes to the [`parser::Parser`], hands each frame to the
//! [`client::Client`] and writes out the bytes that the client returns.

pub mod backoff;
pub mod client;
pub mod handshake;
pub mod keepalive;
pub mod parser;
pub mod registry;
pub mod wire;
pub mod writer;
