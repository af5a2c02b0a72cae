//! The server's second reply in the handshake, and reading a socket address.
use crate::buffer::{
    buffer_contents, buffer_get_u16, buffer_get_u8, buffer_limit, buffer_put_slice,
    buffer_put_u16, buffer_put_u64, buffer_put_u8, buffer_remaining, buffer_take,
};
use crate::error::{NetworkError, Result};
use crate::raknet::protocol::address::{encoded_address_len, starts_with_address, RakNetAddress};
use crate::raknet::protocol::open_connection_reply1::flag_byte;
use crate::raknet::protocol::{magic, magic_bytes};
use crate::text::{decimal, message_with_number};
use crate::wire::{lemma_u16_bytes_roundtrip, u16_from_be, u16_to_be, u64_to_be};
use bytes::BytesMut;
use vstd::prelude::*;

verus! {

/// The second open-connection reply: the server's GUID, the client's
/// address as the server sees it, the MTU, and whether encryption is on.
#[derive(Debug, Clone, Copy)]
pub struct OpenConnectionReply2 {
    pub server_guid: u64,
    pub client_address: RakNetAddress,
    pub mtu_size: u16,
    pub use_encryption: bool,
}

impl OpenConnectionReply2 {
    /// The bytes of the reply: the magic, the GUID, the client address, the
    /// MTU and the encryption flag.
    pub open spec fn spec_encode(self) -> Seq<u8> {
        magic() + u64_to_be(self.server_guid) + self.client_address.spec_encode() + u16_to_be(
            self.mtu_size,
        ) + seq![flag_byte(self.use_encryption)]
    }

    /// Appends the reply to `buf`; it always succeeds.
    pub fn serialize(&self, buf: &mut BytesMut) -> (r: Result<()>)
        requires
            buffer_contents(*old(buf)).len() + self.spec_encode().len() <= buffer_limit(),
        ensures
            r is Ok,
            buffer_contents(*final(buf)) == buffer_contents(*old(buf)) + self.spec_encode(),
    {
        let ghost s = buffer_contents(*buf);
        buffer_put_slice(buf, magic_bytes());
        buffer_put_u64(buf, self.server_guid);
        self.client_address.serialize(buf);
        buffer_put_u16(buf, self.mtu_size);
        buffer_put_u8(buf, if self.use_encryption { 1 } else { 0 });
        assert(buffer_contents(*buf) =~= s + self.spec_encode());
        Ok(())
    }
}

/// The error for a buffer `s` that does not begin with a complete address.
pub open spec fn spec_address_failure(s: Seq<u8>, e: NetworkError) -> bool {
    if s.len() == 0 {
        e matches NetworkError::BufferTooShort { expected, actual } && expected == 1 && actual == 0
    } else if s[0] == 4 {
        e matches NetworkError::BufferTooShort { expected, actual } && expected == 6 && actual
            == s.len() - 1
    } else if s[0] == 6 {
        e matches NetworkError::BufferTooShort { expected, actual } && expected == 18 && actual
            == s.len() - 1
    } else {
        e matches NetworkError::Custom(m) && m@ == "Invalid IP version "@ + decimal(s[0] as nat)
            + " in RakNet SocketAddress"@
    }
}

/// Reads a socket address from the front of `buf`: a version byte, then four
/// octets and a port for version `4`, or sixteen octets and a port for
/// version `6`.
///
/// On success the address read is the one whose encoding begins the buffer,
/// and exactly that encoding is taken. An empty buffer fails with
/// `BufferTooShort` and is left as it was; any other failure has taken the
/// version byte.
pub fn deserialize_raknet_socket_address(buf: &mut BytesMut) -> (r: Result<RakNetAddress>)
    ensures
        ({
            let s = buffer_contents(*old(buf));
            let f = buffer_contents(*final(buf));
            &&& starts_with_address(s) ==> {
                &&& r matches Ok(a)
                &&& a.spec_encode().is_prefix_of(s)
                &&& f == s.skip(encoded_address_len(s[0]))
            }
            &&& !starts_with_address(s) ==> {
                &&& r matches Err(e) && spec_address_failure(s, e)
                &&& f == s.skip(if s.len() == 0 { 0int } else { 1int })
            }
        }),
{
    let ghost s = buffer_contents(*buf);
    let remaining = buffer_remaining(buf);
    if remaining < 1 {
        return Err(NetworkError::BufferTooShort { expected: 1, actual: remaining });
    }
    let ip_version = buffer_get_u8(buf);
    if ip_version == 4 {
        let remaining = buffer_remaining(buf);
        if remaining < 4 + 2 {
            return Err(NetworkError::BufferTooShort { expected: 6, actual: remaining });
        }
        let ip_bytes = buffer_take::<4>(buf);
        let port = buffer_get_u16(buf);
        let a = RakNetAddress::V4 { ip: ip_bytes, port };
        proof {
            lemma_u16_bytes_roundtrip(s.skip(5));
            assert(s.skip(1).skip(4) =~= s.skip(5));
            assert(s.skip(5).skip(2) =~= s.skip(7));
            assert(a.spec_encode() =~= s.subrange(0, 7));
        }
        Ok(a)
    } else if ip_version == 6 {
        let remaining = buffer_remaining(buf);
        if remaining < 16 + 2 {
            return Err(NetworkError::BufferTooShort { expected: 18, actual: remaining });
        }
        let ip_bytes = buffer_take::<16>(buf);
        let port = buffer_get_u16(buf);
        let a = RakNetAddress::V6 { ip: ip_bytes, port };
        proof {
            lemma_u16_bytes_roundtrip(s.skip(17));
            assert(s.skip(1).skip(16) =~= s.skip(17));
            assert(s.skip(17).skip(2) =~= s.skip(19));
            assert(a.spec_encode() =~= s.subrange(0, 19));
        }
        Ok(a)
    } else {
        Err(
            NetworkError::Custom(
                message_with_number("Invalid IP version ", ip_version as u64, " in RakNet SocketAddress"),
            ),
        )
    }
}

} // verus!
