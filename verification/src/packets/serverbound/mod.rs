//! Packets that a client sends.
pub mod handshake;
