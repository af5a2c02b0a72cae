//! Verified building blocks of a RakNet (Minecraft Bedrock) server: the wire
//! formats of the offline handshake packets and the decisions that answer them.

pub mod buffer;
pub mod wire;
pub mod error;
pub mod raknet;
pub mod text;
