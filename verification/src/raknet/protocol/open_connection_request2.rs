//! The client's second open-connection request.
use crate::buffer::{
    buffer_advance, buffer_contents, buffer_get_u16, buffer_get_u64, buffer_get_u8,
    buffer_has_remaining, buffer_remaining, buffer_take,
};
use crate::error::{NetworkError, Result};
use crate::raknet::protocol::{is_magic, magic};
use crate::text::{decimal, message_with_number};
use crate::wire::{
    lemma_u16_bytes_roundtrip, lemma_u64_bytes_roundtrip, u16_from_be, u16_to_be, u64_from_be, u64_to_be,
};
use bytes::BytesMut;
use vstd::prelude::*;

verus! {

/// The second open-connection request: the MTU the client settled on and
/// its GUID.
#[derive(Debug, Clone, Copy)]
pub struct OpenConnectionRequest2 {
    pub mtu_size: u16,
    pub client_guid: u64,
}

/// How many bytes follow the version byte of the server address in this
/// request: an IPv4 address and port, or an IPv6 address and port.
pub open spec fn server_address_len(ip_version: u8) -> int {
    if ip_version == 4 { 6 } else { 18 }
}

impl OpenConnectionRequest2 {
    /// The request that `s` spells once its server address, which starts at
    /// byte sixteen, has been skipped.
    pub open spec fn spec_decode(s: Seq<u8>) -> OpenConnectionRequest2 {
        let rest = s.skip(17 + server_address_len(s[16]));
        OpenConnectionRequest2 { mtu_size: u16_from_be(rest), client_guid: u64_from_be(rest.skip(2)) }
    }

    /// The number of bytes a well-formed request in `s` occupies.
    pub open spec fn spec_len(s: Seq<u8>) -> int {
        27 + server_address_len(s[16])
    }

    /// Whether `s` begins with the magic.
    pub open spec fn spec_magic_ok(s: Seq<u8>) -> bool {
        s.len() >= 16 && s.take(16) == magic()
    }

    /// Whether `s` has a known IP version where the server address starts.
    pub open spec fn spec_version_ok(s: Seq<u8>) -> bool {
        s.len() >= 17 && (s[16] == 4 || s[16] == 6)
    }

    /// Whether `s` holds a whole request.
    pub open spec fn spec_accepts(s: Seq<u8>) -> bool {
        Self::spec_magic_ok(s) && Self::spec_version_ok(s) && s.len() >= Self::spec_len(s)
    }

    /// The error for a buffer `s` that does not hold a whole request: the
    /// first thing found missing or wrong.
    pub open spec fn spec_failure(s: Seq<u8>, e: NetworkError) -> bool {
        if s.len() < 16 {
            e matches NetworkError::BufferTooShort { expected, actual } && expected == 16 && actual
                == s.len()
        } else if !Self::spec_magic_ok(s) {
            e is InvalidMagicBytes
        } else if s.len() == 16 {
            e matches NetworkError::Custom(m) && m@
                == "Buffer too short for server address IP version"@
        } else if !Self::spec_version_ok(s) {
            e matches NetworkError::Custom(m) && m@ == "Unknown IP version "@ + decimal(s[16] as nat)
                + " in OCR2 ServerAddress"@
        } else if s.len() < 17 + server_address_len(s[16]) {
            e matches NetworkError::Custom(m) && m@ == "Buffer too short for IPv"@ + decimal(
                s[16] as nat,
            ) + " server address details"@
        } else {
            e matches NetworkError::BufferTooShort { expected, actual } && expected == 10 && actual
                == s.len() - 17 - server_address_len(s[16])
        }
    }

    /// How many bytes a failed read has taken.
    pub open spec fn spec_failure_consumed(s: Seq<u8>) -> int {
        if s.len() < 16 {
            0
        } else if !Self::spec_magic_ok(s) || s.len() == 16 {
            16
        } else if !Self::spec_version_ok(s) || s.len() < 17 + server_address_len(s[16]) {
            17
        } else {
            17 + server_address_len(s[16])
        }
    }

    /// Reads a request from the front of `buf`: the magic, the server address
    /// (skipped), the MTU and the client GUID.
    ///
    /// Each failure names the first thing found missing or wrong, and leaves
    /// the buffer with what the reading had taken up to that point.
    pub fn deserialize(buf: &mut BytesMut) -> (r: Result<Self>)
        ensures
            ({
                let s = buffer_contents(*old(buf));
                let f = buffer_contents(*final(buf));
                &&& Self::spec_accepts(s) ==> r == Ok::<Self, NetworkError>(Self::spec_decode(s))
                    && f == s.skip(Self::spec_len(s))
                &&& !Self::spec_accepts(s) ==> (r matches Err(e) && Self::spec_failure(s, e)) && f
                    == s.skip(Self::spec_failure_consumed(s))
            }),
    {
        let ghost s = buffer_contents(*buf);
        let remaining = buffer_remaining(buf);
        if remaining < 16 {
            return Err(NetworkError::BufferTooShort { expected: 16, actual: remaining });
        }
        let magic_read = buffer_take::<16>(buf);
        if !is_magic(&magic_read) {
            return Err(NetworkError::InvalidMagicBytes);
        }
        if !buffer_has_remaining(buf) {
            return Err(
                NetworkError::Custom(String::from_str("Buffer too short for server address IP version")),
            );
        }
        if buffer_remaining(buf) < 1 {
            return Err(
                NetworkError::Custom(String::from_str("Buffer too short for server address IP version")),
            );
        }
        let ip_ver = buffer_get_u8(buf);
        proof {
            assert(s.skip(16).skip(1) =~= s.skip(17));
        }
        let skip_len: usize = if ip_ver == 4 {
            4 + 2
        } else if ip_ver == 6 {
            16 + 2
        } else {
            return Err(
                NetworkError::Custom(
                    message_with_number("Unknown IP version ", ip_ver as u64, " in OCR2 ServerAddress"),
                ),
            );
        };
        if buffer_remaining(buf) < skip_len {
            return Err(
                NetworkError::Custom(
                    message_with_number("Buffer too short for IPv", ip_ver as u64, " server address details"),
                ),
            );
        }
        buffer_advance(buf, skip_len);
        proof {
            assert(s.skip(17).skip(skip_len as int) =~= s.skip(17 + skip_len));
        }
        let remaining = buffer_remaining(buf);
        if remaining < 2 + 8 {
            return Err(NetworkError::BufferTooShort { expected: 2 + 8, actual: remaining });
        }
        let mtu_size = buffer_get_u16(buf);
        let client_guid = buffer_get_u64(buf);
        proof {
            let rest = s.skip(17 + skip_len);
            assert(rest.skip(2).skip(8) =~= s.skip(Self::spec_len(s)));
        }
        Ok(Self { mtu_size, client_guid })
    }
}

/// Bytes after a request do not change what is read, nor how much.
pub proof fn lemma_open_connection_request2_prefix(s: Seq<u8>, t: Seq<u8>)
    requires
        OpenConnectionRequest2::spec_accepts(s),
    ensures
        OpenConnectionRequest2::spec_accepts(s + t),
        OpenConnectionRequest2::spec_len(s + t) == OpenConnectionRequest2::spec_len(s),
        OpenConnectionRequest2::spec_decode(s + t) == OpenConnectionRequest2::spec_decode(s),
{
    let u = s + t;
    assert(u.take(16) =~= s.take(16));
    assert(u[16] == s[16]);
    let k = 17 + server_address_len(s[16]);
    let a = u.skip(k);
    let b = s.skip(k);
    assert(forall|i: int| 0 <= i < 10 ==> a[i] == b[i]);
    assert(a[0] == b[0] && a[1] == b[1]);
    assert(a.skip(2)[0] == b.skip(2)[0] && a.skip(2)[1] == b.skip(2)[1] && a.skip(2)[2] == b.skip(2)[2]
        && a.skip(2)[3] == b.skip(2)[3] && a.skip(2)[4] == b.skip(2)[4] && a.skip(2)[5] == b.skip(2)[5]
        && a.skip(2)[6] == b.skip(2)[6] && a.skip(2)[7] == b.skip(2)[7]);
}

/// What a well-formed request holds, read off its bytes: after the magic,
/// the version byte (`4` or `6`) and the server address (six or eighteen
/// bytes), come the MTU in two big-endian bytes and the client GUID in eight,
/// and the request ends there.
pub proof fn lemma_open_connection_request2_bytes(s: Seq<u8>)
    requires
        OpenConnectionRequest2::spec_accepts(s),
    ensures
        s.take(16) == magic(),
        s[16] == 4 || s[16] == 6,
        ({
            let k: int = if s[16] == 4 { 6 } else { 18 };
            let v = OpenConnectionRequest2::spec_decode(s);
            &&& s.len() >= 27 + k
            &&& OpenConnectionRequest2::spec_len(s) == 27 + k
            &&& u16_to_be(v.mtu_size) == s.subrange(17 + k, 19 + k)
            &&& u64_to_be(v.client_guid) == s.subrange(19 + k, 27 + k)
        }),
{
    let k: int = if s[16] == 4 { 6 } else { 18 };
    let rest = s.skip(17 + k);
    lemma_u16_bytes_roundtrip(rest);
    lemma_u64_bytes_roundtrip(rest.skip(2));
    assert(rest.take(2) =~= s.subrange(17 + k, 19 + k));
    assert(rest.skip(2).take(8) =~= s.subrange(19 + k, 27 + k));
}

} // verus!
