//! Server-side engine of a length-prefixed, versioned binary game protocol:
//! field codec, packet framing, packet layouts, the per-connection phase
//! machine, the transport cipher and the game coordinator's player table.

pub mod error;
pub mod varint;
pub mod codec;
pub mod field;
pub mod fields;
pub mod identifier;
pub mod packet;
pub mod protocol;
pub mod server;
pub mod auth;
pub mod transport;
pub mod connection;
pub mod game;
