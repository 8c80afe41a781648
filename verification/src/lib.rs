//! Core of an encrypted remote-execution server: sessions, authenticated
//! framing, handshake, per-client server state, and shutdown coordination.
//!
//! Everything here is pure logic over plain values; sockets, timers and
//! process management live outside the library and talk to it through
//! byte frames and events.

pub mod channel;
pub mod codec;
pub mod handshake;
pub mod message;
pub mod server;
pub mod session;
pub mod shutdown;
pub mod state;
pub mod textenc;
pub mod transport;
pub mod wire;
