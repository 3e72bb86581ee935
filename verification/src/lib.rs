//! Verified core of a small chat relay.
//!
//! Clients connect over a persistent duplex channel and broadcast text
//! payloads to every connected client; a persistence worker decodes each
//! payload and appends it to a durable history table, which a paginated
//! history endpoint reads back newest-first.
//!
//! This crate holds the logic of that pipeline — the fan-out broadcaster,
//! the wire-format decoder, the history store semantics, the endpoint
//! parameter handling and the response encoding — with machine-checked
//! contracts. Process wiring
//! (the HTTP/WebSocket server, the async runtime, the embedded database
//! engine) lives outside, in ordinary Rust that calls into this crate.

pub mod broadcaster;
pub mod encode;
pub mod history;
pub mod msg;
pub mod session;
pub mod store;
pub mod wire;
pub mod worker;
