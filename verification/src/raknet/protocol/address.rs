//! Socket addresses as RakNet writes them: a version byte, the address
//! octets, and the port.
use crate::buffer::{buffer_contents, buffer_limit, buffer_put_slice, buffer_put_u16, buffer_put_u8};
use crate::wire::{lemma_u16_big_endian, lemma_u16_roundtrip, u16_from_be, u16_to_be};
use bytes::BytesMut;
use vstd::prelude::*;

verus! {

/// An IPv4 or IPv6 socket address, as the handshake carries it.
#[derive(Debug, Clone, Copy, PartialEq, Eq)]
pub enum RakNetAddress {
    V4 { ip: [u8; 4], port: u16 },
    V6 { ip: [u8; 16], port: u16 },
}

impl RakNetAddress {
    /// The bytes of an address: `4`, the four octets and the port for IPv4;
    /// `6`, the sixteen octets and the port for IPv6. Ports are big-endian.
    pub open spec fn spec_encode(self) -> Seq<u8> {
        match self {
            RakNetAddress::V4 { ip, port } => seq![4u8] + ip@ + u16_to_be(port),
            RakNetAddress::V6 { ip, port } => seq![6u8] + ip@ + u16_to_be(port),
        }
    }

    /// The unspecified IPv4 address `0.0.0.0:0`.
    pub open spec fn spec_unspecified_v4() -> RakNetAddress {
        RakNetAddress::V4 { ip: [0u8, 0u8, 0u8, 0u8], port: 0 }
    }

    /// `0.0.0.0:0`, which fills the unused address slots of a reply.
    pub fn unspecified_v4() -> (a: RakNetAddress)
        ensures
            a == Self::spec_unspecified_v4(),
    {
        RakNetAddress::V4 { ip: [0u8, 0u8, 0u8, 0u8], port: 0 }
    }

    /// Appends the address to `buf`.
    pub fn serialize(&self, buf: &mut BytesMut)
        requires
            buffer_contents(*old(buf)).len() + self.spec_encode().len() <= buffer_limit(),
        ensures
            buffer_contents(*final(buf)) == buffer_contents(*old(buf)) + self.spec_encode(),
    {
        let ghost s = buffer_contents(*buf);
        match self {
            RakNetAddress::V4 { ip, port } => {
                buffer_put_u8(buf, 4);
                buffer_put_slice(buf, ip.as_slice());
                buffer_put_u16(buf, *port);
            },
            RakNetAddress::V6 { ip, port } => {
                buffer_put_u8(buf, 6);
                buffer_put_slice(buf, ip.as_slice());
                buffer_put_u16(buf, *port);
            },
        }
        assert(buffer_contents(*buf) =~= s + self.spec_encode());
    }
}

/// How many bytes an address takes, read from its version byte `v`: seven
/// for IPv4, nineteen for IPv6.
pub open spec fn encoded_address_len(v: u8) -> int {
    if v == 4 { 7 } else { 19 }
}

/// Whether `s` begins with a complete address: a known version byte followed
/// by enough bytes for it.
pub open spec fn starts_with_address(s: Seq<u8>) -> bool {
    &&& s.len() >= 1
    &&& (s[0] == 4 || s[0] == 6)
    &&& s.len() >= encoded_address_len(s[0])
}

/// Reading back what `serialize` wrote: a buffer that begins with the
/// encoding of `a` begins with a complete address, and `a` is the only
/// address whose encoding it begins with.
pub proof fn lemma_address_roundtrip(a: RakNetAddress, rest: Seq<u8>)
    ensures
        starts_with_address(a.spec_encode() + rest),
        forall|b: RakNetAddress|
            #![trigger b.spec_encode()]
            b.spec_encode().is_prefix_of(a.spec_encode() + rest) ==> b == a,
{
    let s = a.spec_encode() + rest;
    assert forall|b: RakNetAddress|
        #![trigger b.spec_encode()]
        b.spec_encode().is_prefix_of(s) implies b == a by {
        let eb = b.spec_encode();
        let ea = a.spec_encode();
        assert(eb[0] == s.subrange(0, eb.len() as int)[0]);
        assert(eb[0] == s[0]);
        match (a, b) {
            (RakNetAddress::V4 { ip: ia, port: pa }, RakNetAddress::V4 { ip: ib, port: pb }) => {
                assert(forall|i: int| 0 <= i < 7 ==> ea[i] == #[trigger] eb[i]) by { assert(forall|i: int| 0 <= i < 7 ==> #[trigger] eb[i] == s.subrange(0, 7)[i]); }
                assert(ia@ =~= ea.subrange(1, 5));
                assert(ib@ =~= eb.subrange(1, 5));
                assert(ia =~= ib);
                lemma_u16_roundtrip(pa, seq![]);
                lemma_u16_roundtrip(pb, seq![]);
                assert(u16_to_be(pa) =~= ea.subrange(5, 7));
                assert(u16_to_be(pb) =~= eb.subrange(5, 7));
                assert(u16_to_be(pa) + seq![] =~= u16_to_be(pa));
                assert(u16_to_be(pb) + seq![] =~= u16_to_be(pb));
            },
            (RakNetAddress::V6 { ip: ia, port: pa }, RakNetAddress::V6 { ip: ib, port: pb }) => {
                assert(forall|i: int| 0 <= i < 19 ==> ea[i] == #[trigger] eb[i]) by { assert(forall|i: int| 0 <= i < 19 ==> #[trigger] eb[i] == s.subrange(0, 19)[i]); }
                assert(ia@ =~= ea.subrange(1, 17));
                assert(ib@ =~= eb.subrange(1, 17));
                assert(ia =~= ib);
                assert(u16_to_be(pa) =~= ea.subrange(17, 19));
                assert(u16_to_be(pb) =~= eb.subrange(17, 19));
                lemma_u16_roundtrip(pa, seq![]);
                lemma_u16_roundtrip(pb, seq![]);
                assert(u16_to_be(pa) + seq![] =~= u16_to_be(pa));
                assert(u16_to_be(pb) + seq![] =~= u16_to_be(pb));
            },
            _ => {},
        }
    }
}

/// The bytes of an address: the version byte, the octets in order, and the
/// port most significant byte first; seven bytes for IPv4, nineteen for IPv6.
pub proof fn lemma_address_bytes(a: RakNetAddress)
    ensures
        ({
            let e = a.spec_encode();
            match a {
                RakNetAddress::V4 { ip, port } => {
                    &&& e.len() == 7
                    &&& e[0] == 4
                    &&& e.subrange(1, 5) == ip@
                    &&& e[5] as int * 256 + e[6] as int == port
                },
                RakNetAddress::V6 { ip, port } => {
                    &&& e.len() == 19
                    &&& e[0] == 6
                    &&& e.subrange(1, 17) == ip@
                    &&& e[17] as int * 256 + e[18] as int == port
                },
            }
        }),
{
    let e = a.spec_encode();
    match a {
        RakNetAddress::V4 { ip, port } => {
            lemma_u16_big_endian(e.subrange(5, 7), port);
            assert(e.subrange(1, 5) =~= ip@);
        },
        RakNetAddress::V6 { ip, port } => {
            lemma_u16_big_endian(e.subrange(17, 19), port);
            assert(e.subrange(1, 17) =~= ip@);
        },
    }
}

/// The unspecified address `0.0.0.0:0` is written as `4` and six zeros.
pub proof fn lemma_unspecified_v4_bytes()
    ensures
        RakNetAddress::spec_unspecified_v4().spec_encode() == seq![4u8, 0u8, 0u8, 0u8, 0u8, 0u8, 0u8],
{
    broadcast use vstd::array::group_array_axioms;
    lemma_u16_big_endian(seq![0u8, 0u8], 0);
    let ip = [0u8, 0u8, 0u8, 0u8];
    assert(ip@ =~= seq![0u8, 0u8, 0u8, 0u8]);
    assert(RakNetAddress::spec_unspecified_v4().spec_encode() =~= seq![4u8, 0u8, 0u8, 0u8, 0u8, 0u8, 0u8]);
}

} // verus!
