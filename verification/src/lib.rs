//! Secure session core for a peer-to-peer encrypted messaging transport:
//! ephemeral key exchange, directional key derivation, an authenticated
//! channel with sequence/nonce discipline, the framing that carries sealed
//! payloads over a byte stream, a handshake state machine, and a registry of
//! live peer sessions.

pub mod channel;
pub mod codec;
pub mod crypto;
pub mod error;
pub mod handshake;
pub mod kdf;
pub mod registry;
