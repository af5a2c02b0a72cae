//! The RakNet offline handshake.
pub mod listener;
pub mod motd;
pub mod protocol;
