//! The server's answer to an offline ping.
use crate::buffer::{buffer_contents, buffer_limit, buffer_put_slice, buffer_put_u16, buffer_put_u64};
use crate::error::{NetworkError, Result};
use crate::raknet::motd::Motd;
use crate::raknet::protocol::{magic, magic_bytes};
use crate::wire::{lemma_u16_roundtrip, u16_from_be, u16_to_be, u64_to_be};
use bytes::BytesMut;
use vstd::prelude::*;

verus! {

/// The longest server message a pong can carry: its length travels in 16 bits.
pub const MAX_MOTD_LEN: usize = 65535;

/// An offline pong: the ping's time echoed, the server's GUID, and its message.
#[derive(Clone, Debug)]
pub struct UnconnectedPong {
    pub time: u64,
    pub guid: u64,
    pub motd: Motd,
}

impl UnconnectedPong {
    /// What precedes the message: the time, the GUID and the magic.
    pub open spec fn spec_header(&self) -> Seq<u8> {
        u64_to_be(self.time) + u64_to_be(self.guid) + magic()
    }

    /// The bytes of the pong: the header, the message's length in two
    /// bytes, and the message.
    pub open spec fn spec_encode(&self) -> Seq<u8> {
        self.spec_header() + u16_to_be(self.motd.spec_bytes().len() as u16) + self.motd.spec_bytes()
    }

    /// Appends the pong to `buf`.
    ///
    /// A message longer than 65535 bytes fails with `MotdTooLong`; by then
    /// the header has been written.
    pub fn serialize(&self, buf: &mut BytesMut) -> (r: Result<()>)
        requires
            buffer_contents(*old(buf)).len() + 32 <= buffer_limit(),
            self.motd.spec_bytes().len() <= 65535 ==> buffer_contents(*old(buf)).len() + 34
                + self.motd.spec_bytes().len() <= buffer_limit(),
        ensures
            self.motd.spec_bytes().len() > 65535 ==> {
                &&& r matches Err(NetworkError::MotdTooLong(len, max))
                &&& len == self.motd.spec_bytes().len() && max == 65535
                &&& buffer_contents(*final(buf)) == buffer_contents(*old(buf)) + self.spec_header()
            },
            self.motd.spec_bytes().len() <= 65535 ==> {
                &&& r is Ok
                &&& buffer_contents(*final(buf)) == buffer_contents(*old(buf)) + self.spec_encode()
            },
    {
        let ghost s = buffer_contents(*buf);
        buffer_put_u64(buf, self.time);
        buffer_put_u64(buf, self.guid);
        buffer_put_slice(buf, magic_bytes());
        assert(buffer_contents(*buf) =~= s + self.spec_header());
        let motd_text = self.motd.to_string();
        let motd_bytes = motd_text.as_str().as_bytes();
        assert(motd_bytes@ == self.motd.spec_bytes());
        if motd_bytes.len() > MAX_MOTD_LEN {
            return Err(NetworkError::MotdTooLong(motd_bytes.len(), MAX_MOTD_LEN));
        }
        buffer_put_u16(buf, motd_bytes.len() as u16);
        buffer_put_slice(buf, motd_bytes);
        assert(buffer_contents(*buf) =~= s + self.spec_encode());
        Ok(())
    }
}

/// The layout of a pong, read off its bytes: the time, the GUID and the
/// magic fill the first thirty-two bytes; the next two, read big-endian,
/// count exactly the bytes that follow them; and those bytes are the UTF-8
/// encoding of the server message.
pub proof fn lemma_unconnected_pong_layout(p: UnconnectedPong)
    requires
        vstd::utf8::encode_utf8(p.motd.spec_text()).len() <= 65535,
    ensures
        ({
            let e = p.spec_encode();
            &&& e.len() >= 34
            &&& e.subrange(0, 8) == u64_to_be(p.time)
            &&& e.subrange(8, 16) == u64_to_be(p.guid)
            &&& e.subrange(16, 32) == magic()
            &&& u16_from_be(e.subrange(32, 34)) == e.len() - 34
            &&& e.subrange(34, e.len() as int) == vstd::utf8::encode_utf8(p.motd.spec_text())
        }),
{
    let text = vstd::utf8::encode_utf8(p.motd.spec_text());
    let e = p.spec_encode();
    let n = text.len() as u16;
    assert(n == text.len());
    lemma_u16_roundtrip(n, Seq::<u8>::empty());
    assert(u16_to_be(n) + Seq::<u8>::empty() =~= u16_to_be(n));
    assert(e.subrange(0, 8) =~= u64_to_be(p.time));
    assert(e.subrange(8, 16) =~= u64_to_be(p.guid));
    assert(e.subrange(16, 32) =~= magic());
    assert(e.subrange(32, 34) =~= u16_to_be(n));
    assert(e.subrange(34, e.len() as int) =~= text);
}

} // verus!
