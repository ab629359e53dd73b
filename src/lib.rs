//! A TLS 1.3 client endpoint core: record framing, traffic-key bookkeeping,
//! the handshake state machine and the connection buffers, with the transport
//! and the cryptographic primitives left to the caller.

pub mod error;
pub mod record;
pub mod key_schedule;
pub mod connection;
pub mod handshake;
pub mod messages;
