//! A TCP proxy pair that disguises an arbitrary byte tunnel as a vanilla
//! TLS session to a well-known public server.
//!
//! The verified core is the framed handshake-interception logic:
//! TLS record-layer framing, the running HMAC used to authenticate the
//! client inside the ClientHello session-id field, the server-side
//! handshake splicer state machine, and the client-side handshake forger.
//! Socket handling lives outside the library.

pub mod record;
pub mod frame;
pub mod crypto;
pub mod hello;
pub mod splicer;
pub mod forger;
pub mod opts;
