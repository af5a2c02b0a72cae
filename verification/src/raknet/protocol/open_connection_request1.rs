//! The client's first open-connection request.
use crate::buffer::{buffer_contents, buffer_get_u8, buffer_remaining, buffer_take};
use crate::error::{NetworkError, Result};
use crate::raknet::protocol::{is_magic, magic};
use bytes::BytesMut;
use vstd::prelude::*;

verus! {

/// The first open-connection request: the client's RakNet protocol version
/// and the MTU that its padded packet suggests.
#[derive(Clone, Copy, Debug)]
pub struct OpenConnectionRequest1 {
    pub protocol_version: u8,
    pub estimated_mtu: u16,
}

impl OpenConnectionRequest1 {
    /// Whether `s` holds a whole request: seventeen bytes, the first sixteen
    /// being the magic.
    pub open spec fn spec_accepts(s: Seq<u8>) -> bool {
        s.len() >= 17 && s.take(16) == magic()
    }

    /// The request that `s` spells, for a payload of `payload_size` bytes.
    pub open spec fn spec_decode(s: Seq<u8>, payload_size: usize) -> OpenConnectionRequest1 {
        OpenConnectionRequest1 { protocol_version: s[16], estimated_mtu: payload_size as u16 }
    }

    /// The error for a buffer `s` that does not hold a whole request.
    pub open spec fn spec_failure(s: Seq<u8>, e: NetworkError) -> bool {
        if s.len() < 17 {
            e matches NetworkError::BufferTooShort { expected, actual } && expected == 17 && actual
                == s.len()
        } else {
            e is InvalidMagicBytes
        }
    }

    /// How many bytes a failed read has taken.
    pub open spec fn spec_failure_consumed(s: Seq<u8>) -> int {
        if s.len() < 17 { 0 } else { 16 }
    }

    /// Reads a request from the front of `buf`; `payload_size` is the size of
    /// the packet's payload, which becomes the estimated MTU (cut to 16 bits).
    ///
    /// With fewer than seventeen bytes it fails with `BufferTooShort` and
    /// leaves the buffer as it was. If the first sixteen bytes are not the
    /// magic it fails with `InvalidMagicBytes`, having taken them. Otherwise
    /// it takes seventeen bytes, the last being the protocol version.
    pub fn deserialize(buf: &mut BytesMut, payload_size: usize) -> (r: Result<Self>)
        ensures
            ({
                let s = buffer_contents(*old(buf));
                let f = buffer_contents(*final(buf));
                &&& Self::spec_accepts(s) ==> r == Ok::<Self, NetworkError>(
                    Self::spec_decode(s, payload_size),
                ) && f == s.skip(17)
                &&& !Self::spec_accepts(s) ==> (r matches Err(e) && Self::spec_failure(s, e)) && f
                    == s.skip(Self::spec_failure_consumed(s))
            }),
    {
        let remaining = buffer_remaining(buf);
        if remaining < 16 + 1 {
            return Err(NetworkError::BufferTooShort { expected: 16 + 1, actual: remaining });
        }
        let ghost s = buffer_contents(*buf);
        let magic_read = buffer_take::<16>(buf);
        if !is_magic(&magic_read) {
            return Err(NetworkError::InvalidMagicBytes);
        }
        let protocol_version = buffer_get_u8(buf);
        let estimated_mtu = payload_size as u16;
        proof {
            assert(s.skip(16).skip(1) =~= s.skip(17));
        }
        Ok(Self { protocol_version, estimated_mtu })
    }
}

/// Bytes after a request do not change what is read.
pub proof fn lemma_open_connection_request1_prefix(s: Seq<u8>, t: Seq<u8>, payload_size: usize)
    requires
        OpenConnectionRequest1::spec_accepts(s),
    ensures
        OpenConnectionRequest1::spec_accepts(s + t),
        OpenConnectionRequest1::spec_decode(s + t, payload_size) == OpenConnectionRequest1::spec_decode(
            s,
            payload_size,
        ),
{
    let u = s + t;
    assert(u.take(16) =~= s.take(16));
    assert(u[16] == s[16]);
}

/// What a request holds: the protocol version is byte sixteen, right after
/// the magic, and the estimated MTU is the payload size modulo 65536.
pub proof fn lemma_open_connection_request1_bytes(s: Seq<u8>, payload_size: usize)
    requires
        OpenConnectionRequest1::spec_accepts(s),
    ensures
        s.len() >= 17,
        s.take(16) == magic(),
        OpenConnectionRequest1::spec_decode(s, payload_size).protocol_version == s[16],
        OpenConnectionRequest1::spec_decode(s, payload_size).estimated_mtu == payload_size % 65536,
{
    assert(payload_size as u16 == payload_size % 65536) by (bit_vector);
}

} // verus!
