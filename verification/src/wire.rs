//! Big-endian integers on the wire, and the facts that tie reading to writing.
use vstd::prelude::*;

verus! {

/// The number that the first two bytes of `s` spell, most significant first.
pub open spec fn u16_from_be(s: Seq<u8>) -> u16 {
    (s[0] as u16) << 8 | (s[1] as u16)
}

/// The two bytes of `v`, most significant first.
pub open spec fn u16_to_be(v: u16) -> Seq<u8> {
    seq![(v >> 8) as u8, v as u8]
}

/// The number that the first eight bytes of `s` spell, most significant first.
pub open spec fn u64_from_be(s: Seq<u8>) -> u64 {
    (s[0] as u64) << 56 | (s[1] as u64) << 48 | (s[2] as u64) << 40 | (s[3] as u64) << 32 | (
    s[4] as u64) << 24 | (s[5] as u64) << 16 | (s[6] as u64) << 8 | (s[7] as u64)
}

/// The eight bytes of `v`, most significant first.
pub open spec fn u64_to_be(v: u64) -> Seq<u8> {
    seq![
        (v >> 56) as u8,
        (v >> 48) as u8,
        (v >> 40) as u8,
        (v >> 32) as u8,
        (v >> 24) as u8,
        (v >> 16) as u8,
        (v >> 8) as u8,
        v as u8,
    ]
}

/// Writing a `u16` and reading it back, with anything after it, gives it back.
pub proof fn lemma_u16_roundtrip(v: u16, rest: Seq<u8>)
    ensures
        u16_from_be(u16_to_be(v) + rest) == v,
{
    let s = u16_to_be(v) + rest;
    assert(s[0] == (v >> 8) as u8 && s[1] == v as u8);
    assert((((v >> 8) as u8) as u16) << 8 | ((v as u8) as u16) == v) by (bit_vector);
}

/// Writing a `u64` and reading it back, with anything after it, gives it back.
pub proof fn lemma_u64_roundtrip(v: u64, rest: Seq<u8>)
    ensures
        u64_from_be(u64_to_be(v) + rest) == v,
{
    let s = u64_to_be(v) + rest;
    assert(s[0] == (v >> 56) as u8 && s[1] == (v >> 48) as u8 && s[2] == (v >> 40) as u8 && s[3]
        == (v >> 32) as u8 && s[4] == (v >> 24) as u8 && s[5] == (v >> 16) as u8 && s[6] == (v
        >> 8) as u8 && s[7] == v as u8);
    assert((((v >> 56) as u8) as u64) << 56 | (((v >> 48) as u8) as u64) << 48 | (((v >> 40) as u8)
        as u64) << 40 | (((v >> 32) as u8) as u64) << 32 | (((v >> 24) as u8) as u64) << 24 | (((v
        >> 16) as u8) as u64) << 16 | (((v >> 8) as u8) as u64) << 8 | ((v as u8) as u64) == v)
        by (bit_vector);
}

/// Reading a `u16` and writing it again gives the two bytes that were read.
pub proof fn lemma_u16_bytes_roundtrip(s: Seq<u8>)
    requires
        s.len() >= 2,
    ensures
        u16_to_be(u16_from_be(s)) == s.take(2),
{
    let b0 = s[0];
    let b1 = s[1];
    let v = u16_from_be(s);
    assert(v == (b0 as u16) << 8 | (b1 as u16));
    assert(((((b0 as u16) << 8 | (b1 as u16)) >> 8) as u8) == b0 && ((((b0 as u16) << 8 | (
    b1 as u16))) as u8) == b1) by (bit_vector);
    assert(u16_to_be(v) =~= s.take(2));
}

/// Reading a `u64` and writing it again gives the eight bytes that were read.
pub proof fn lemma_u64_bytes_roundtrip(s: Seq<u8>)
    requires
        s.len() >= 8,
    ensures
        u64_to_be(u64_from_be(s)) == s.take(8),
{
    let (b0, b1, b2, b3, b4, b5, b6, b7) = (s[0], s[1], s[2], s[3], s[4], s[5], s[6], s[7]);
    let v = u64_from_be(s);
    assert(v == (b0 as u64) << 56 | (b1 as u64) << 48 | (b2 as u64) << 40 | (b3 as u64) << 32 | (
    b4 as u64) << 24 | (b5 as u64) << 16 | (b6 as u64) << 8 | (b7 as u64));
    assert(v == (b0 as u64) << 56 | (b1 as u64) << 48 | (b2 as u64) << 40 | (b3 as u64) << 32 | (
    b4 as u64) << 24 | (b5 as u64) << 16 | (b6 as u64) << 8 | (b7 as u64) ==> (v >> 56) as u8 == b0
        && (v >> 48) as u8 == b1 && (v >> 40) as u8 == b2 && (v >> 32) as u8 == b3 && (v >> 24) as u8
        == b4 && (v >> 16) as u8 == b5 && (v >> 8) as u8 == b6 && v as u8 == b7) by (bit_vector);
    assert(u64_to_be(v) =~= s.take(8));
}

/// Big-endian means most significant first: two bytes spell
/// `256 * first + second`, and a number's two bytes are its quotient and
/// remainder by 256.
pub proof fn lemma_u16_big_endian(s: Seq<u8>, v: u16)
    requires
        s.len() >= 2,
    ensures
        u16_from_be(s) as int == s[0] as int * 256 + s[1] as int,
        u16_to_be(v) == seq![(v / 256) as u8, (v % 256) as u8],
{
    let (b0, b1) = (s[0], s[1]);
    assert(((b0 as u16) << 8 | (b1 as u16)) as int == b0 as int * 256 + b1 as int) by (bit_vector);
    assert((v >> 8) as u8 == (v / 256) as u8 && v as u8 == (v % 256) as u8) by (bit_vector);
    assert(u16_to_be(v) =~= seq![(v / 256) as u8, (v % 256) as u8]);
}

/// Eight bytes spell, most significant first, the sum of each byte times
/// 256 to the power of the number of bytes after it.
pub proof fn lemma_u64_big_endian(s: Seq<u8>)
    requires
        s.len() >= 8,
    ensures
        u64_from_be(s) as int == s[0] as int * 0x100000000000000 + s[1] as int * 0x1000000000000
            + s[2] as int * 0x10000000000 + s[3] as int * 0x100000000 + s[4] as int * 0x1000000
            + s[5] as int * 0x10000 + s[6] as int * 0x100 + s[7] as int,
{
    let (b0, b1, b2, b3, b4, b5, b6, b7) = (s[0], s[1], s[2], s[3], s[4], s[5], s[6], s[7]);
    assert(((b0 as u64) << 56 | (b1 as u64) << 48 | (b2 as u64) << 40 | (b3 as u64) << 32 | (
    b4 as u64) << 24 | (b5 as u64) << 16 | (b6 as u64) << 8 | (b7 as u64)) as int == b0 as int
        * 0x100000000000000 + b1 as int * 0x1000000000000 + b2 as int * 0x10000000000 + b3 as int
        * 0x100000000 + b4 as int * 0x1000000 + b5 as int * 0x10000 + b6 as int * 0x100
        + b7 as int) by (bit_vector);
}

} // verus!
