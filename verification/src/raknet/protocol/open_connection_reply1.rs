//! The server's first reply in the handshake.
use crate::buffer::{buffer_contents, buffer_limit, buffer_put_slice, buffer_put_u16, buffer_put_u64, buffer_put_u8};
use crate::error::Result;
use crate::raknet::protocol::{magic, magic_bytes};
use crate::wire::{u16_to_be, u64_to_be};
use bytes::BytesMut;
use vstd::prelude::*;

verus! {

/// The first open-connection reply: the server's GUID, whether it uses
/// security, and the MTU it agrees to.
#[derive(Debug, Clone, Copy)]
pub struct OpenConnectionReply1 {
    pub server_guid: u64,
    pub use_security: bool,
    pub mtu_size: u16,
}

/// A flag as one byte: `1` for set, `0` for clear.
pub open spec fn flag_byte(b: bool) -> u8 {
    if b { 1 } else { 0 }
}

impl OpenConnectionReply1 {
    /// The bytes of the reply: the magic, the GUID, the security flag and the MTU.
    pub open spec fn spec_encode(self) -> Seq<u8> {
        magic() + u64_to_be(self.server_guid) + seq![flag_byte(self.use_security)] + u16_to_be(
            self.mtu_size,
        )
    }

    /// Appends the reply to `buf`; it always succeeds.
    pub fn serialize(&self, buf: &mut BytesMut) -> (r: Result<()>)
        requires
            buffer_contents(*old(buf)).len() + self.spec_encode().len() <= buffer_limit(),
        ensures
            r is Ok,
            buffer_contents(*final(buf)) == buffer_contents(*old(buf)) + self.spec_encode(),
    {
        let ghost s = buffer_contents(*buf);
        buffer_put_slice(buf, magic_bytes());
        buffer_put_u64(buf, self.server_guid);
        buffer_put_u8(buf, if self.use_security { 1 } else { 0 });
        buffer_put_u16(buf, self.mtu_size);
        assert(buffer_contents(*buf) =~= s + self.spec_encode());
        Ok(())
    }
}

} // verus!
