//! The client's request to open a connection.
use crate::buffer::{buffer_contents, buffer_get_u64, buffer_get_u8, buffer_remaining};
use crate::error::{NetworkError, Result};
use crate::wire::{lemma_u64_bytes_roundtrip, u64_from_be, u64_to_be};
use bytes::BytesMut;
use vstd::prelude::*;

verus! {

/// A connection request: who asks, when, and whether it wants security.
#[derive(Debug, Clone)]
pub struct ConnectionRequest {
    pub client_guid: u64,
    pub request_timestamp: u64,
    pub use_security: bool,
}

/// The number of bytes a connection request occupies.
pub const CONNECTION_REQUEST_SIZE: usize = 17;

impl ConnectionRequest {
    /// The request that the first seventeen bytes of `s` spell: the client
    /// GUID, the timestamp, and a security flag that is set by any non-zero byte.
    pub open spec fn spec_decode(s: Seq<u8>) -> ConnectionRequest {
        ConnectionRequest {
            client_guid: u64_from_be(s),
            request_timestamp: u64_from_be(s.skip(8)),
            use_security: s[16] != 0,
        }
    }

    /// Whether `s` holds a whole request.
    pub open spec fn spec_accepts(s: Seq<u8>) -> bool {
        s.len() >= 17
    }

    /// The error for a buffer `s` that does not hold a whole request.
    pub open spec fn spec_failure(s: Seq<u8>, e: NetworkError) -> bool {
        e matches NetworkError::BufferTooShort { expected, actual } && expected == 17 && actual
            == s.len()
    }

    /// Reads a connection request from the front of `buf`.
    ///
    /// With fewer than seventeen bytes it fails with `BufferTooShort` and
    /// leaves the buffer as it was; otherwise it takes exactly seventeen bytes.
    pub fn deserialize(buf: &mut BytesMut) -> (r: Result<Self>)
        ensures
            ({
                let s = buffer_contents(*old(buf));
                let f = buffer_contents(*final(buf));
                &&& Self::spec_accepts(s) ==> r == Ok::<Self, NetworkError>(Self::spec_decode(s))
                    && f == s.skip(17)
                &&& !Self::spec_accepts(s) ==> (r matches Err(e) && Self::spec_failure(s, e)) && f
                    == s
            }),
    {
        let remaining = buffer_remaining(buf);
        if remaining < CONNECTION_REQUEST_SIZE {
            return Err(
                NetworkError::BufferTooShort { expected: CONNECTION_REQUEST_SIZE, actual: remaining },
            );
        }
        let ghost s = buffer_contents(*buf);
        let client_guid = buffer_get_u64(buf);
        let request_timestamp = buffer_get_u64(buf);
        let use_security_byte = buffer_get_u8(buf);
        let use_security = use_security_byte != 0;
        proof {
            assert(s.skip(8).skip(8) =~= s.skip(16));
            assert(s.skip(16).skip(1) =~= s.skip(17));
        }
        Ok(Self { client_guid, request_timestamp, use_security })
    }
}

/// Bytes after a request do not change what is read.
pub proof fn lemma_connection_request_prefix(s: Seq<u8>, t: Seq<u8>)
    requires
        ConnectionRequest::spec_accepts(s),
    ensures
        ConnectionRequest::spec_accepts(s + t),
        ConnectionRequest::spec_decode(s + t) == ConnectionRequest::spec_decode(s),
{
    let u = s + t;
    assert(forall|i: int| 0 <= i < 17 ==> u[i] == s[i]);
    assert(u.skip(8)[0] == s.skip(8)[0] && u.skip(8)[1] == s.skip(8)[1] && u.skip(8)[2] == s.skip(8)[2]
        && u.skip(8)[3] == s.skip(8)[3] && u.skip(8)[4] == s.skip(8)[4] && u.skip(8)[5] == s.skip(8)[5]
        && u.skip(8)[6] == s.skip(8)[6] && u.skip(8)[7] == s.skip(8)[7]);
}

/// What a request holds, read off its bytes: the client GUID is the first
/// eight bytes big-endian, the timestamp the next eight, and the security
/// flag is set exactly when byte sixteen is not zero.
pub proof fn lemma_connection_request_bytes(s: Seq<u8>)
    requires
        ConnectionRequest::spec_accepts(s),
    ensures
        s.len() >= 17,
        u64_to_be(ConnectionRequest::spec_decode(s).client_guid) == s.subrange(0, 8),
        u64_to_be(ConnectionRequest::spec_decode(s).request_timestamp) == s.subrange(8, 16),
        ConnectionRequest::spec_decode(s).use_security <==> s[16] != 0,
{
    lemma_u64_bytes_roundtrip(s);
    lemma_u64_bytes_roundtrip(s.skip(8));
    assert(s.take(8) =~= s.subrange(0, 8));
    assert(s.skip(8).take(8) =~= s.subrange(8, 16));
}

} // verus!
