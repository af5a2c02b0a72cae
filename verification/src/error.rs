//! Errors of the network layer.
use vstd::prelude::*;

verus! {

#[verifier::external_type_specification]
#[verifier::external_body]
pub struct ExIoError(std::io::Error);

/// What can go wrong while reading, writing or answering a packet.
#[derive(Debug)]
pub enum NetworkError {
    /// A failure described in words.
    Custom(String),
    /// A failure of the operating system's I/O.
    Io(std::io::Error),
    /// A packet ended before a field that had to follow: `expected` bytes
    /// were needed where `actual` were left.
    BufferTooShort { expected: usize, actual: usize },
    /// The sixteen offline-message magic bytes did not match.
    InvalidMagicBytes,
    /// A server message of the given length exceeded the given limit.
    MotdTooLong(usize, usize),
}

/// A result of the network layer.
pub type Result<T> = core::result::Result<T, NetworkError>;

} // verus!
