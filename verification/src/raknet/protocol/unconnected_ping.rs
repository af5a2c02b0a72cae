//! A client's offline ping, asking who is there.
use crate::buffer::{buffer_contents, buffer_get_u64, buffer_remaining, buffer_take};
use crate::error::{NetworkError, Result};
use crate::wire::{lemma_u64_bytes_roundtrip, u64_from_be, u64_to_be};
use bytes::BytesMut;
use vstd::prelude::*;

verus! {

/// An offline ping: the client's clock and its GUID.
#[derive(Clone, Copy)]
pub struct UnconnectedPing {
    pub time: u64,
    pub guid: u64,
}

impl UnconnectedPing {
    /// The ping that the first thirty-two bytes of `s` spell: the time, sixteen
    /// bytes of magic that are not checked, and the GUID.
    pub open spec fn spec_decode(s: Seq<u8>) -> UnconnectedPing {
        UnconnectedPing { time: u64_from_be(s), guid: u64_from_be(s.skip(24)) }
    }

    /// Whether `s` holds a whole ping.
    pub open spec fn spec_accepts(s: Seq<u8>) -> bool {
        s.len() >= 32
    }

    /// The error for a buffer that does not hold a whole ping.
    pub open spec fn spec_failure(s: Seq<u8>, e: NetworkError) -> bool {
        e matches NetworkError::Custom(m) && m@ == "Buffer too short for UnconnectedPing"@
    }

    /// Reads a ping from the front of `buf`.
    ///
    /// With fewer than thirty-two bytes it fails and leaves the buffer as it
    /// was; otherwise it takes exactly thirty-two bytes.
    pub fn deserialize(buf: &mut BytesMut) -> (r: Result<Self>)
        ensures
            ({
                let s = buffer_contents(*old(buf));
                let f = buffer_contents(*final(buf));
                &&& Self::spec_accepts(s) ==> r == Ok::<Self, NetworkError>(Self::spec_decode(s))
                    && f == s.skip(32)
                &&& !Self::spec_accepts(s) ==> (r matches Err(e) && Self::spec_failure(s, e)) && f
                    == s
            }),
    {
        if buffer_remaining(buf) < 32 {
            return Err(NetworkError::Custom(String::from_str("Buffer too short for UnconnectedPing")));
        }
        let ghost s = buffer_contents(*buf);
        let time = buffer_get_u64(buf);
        let _magic = buffer_take::<16>(buf);
        let guid = buffer_get_u64(buf);
        proof {
            assert(s.skip(8).skip(16) =~= s.skip(24));
            assert(s.skip(24).skip(8) =~= s.skip(32));
        }
        Ok(Self { time, guid })
    }
}

/// Bytes after a ping do not change what is read.
pub proof fn lemma_unconnected_ping_prefix(s: Seq<u8>, t: Seq<u8>)
    requires
        UnconnectedPing::spec_accepts(s),
    ensures
        UnconnectedPing::spec_accepts(s + t),
        UnconnectedPing::spec_decode(s + t) == UnconnectedPing::spec_decode(s),
{
    let u = s + t;
    assert(forall|i: int| 0 <= i < 32 ==> u[i] == s[i]);
    assert(forall|i: int| 0 <= i < 8 ==> u.skip(24)[i] == s.skip(24)[i]);
    assert(u.skip(24)[0] == s.skip(24)[0] && u.skip(24)[1] == s.skip(24)[1] && u.skip(24)[2] == s.skip(24)[2]
        && u.skip(24)[3] == s.skip(24)[3] && u.skip(24)[4] == s.skip(24)[4] && u.skip(24)[5] == s.skip(24)[5]
        && u.skip(24)[6] == s.skip(24)[6] && u.skip(24)[7] == s.skip(24)[7]);
}

/// What a ping holds, read off its bytes: the time is the first eight bytes
/// big-endian and the GUID the last eight of its thirty-two.
pub proof fn lemma_unconnected_ping_bytes(s: Seq<u8>)
    requires
        UnconnectedPing::spec_accepts(s),
    ensures
        s.len() >= 32,
        u64_to_be(UnconnectedPing::spec_decode(s).time) == s.subrange(0, 8),
        u64_to_be(UnconnectedPing::spec_decode(s).guid) == s.subrange(24, 32),
{
    lemma_u64_bytes_roundtrip(s);
    lemma_u64_bytes_roundtrip(s.skip(24));
    assert(s.take(8) =~= s.subrange(0, 8));
    assert(s.skip(24).take(8) =~= s.subrange(24, 32));
}

} // verus!
