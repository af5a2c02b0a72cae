//! The byte buffer that packets are read from and written to.
//!
//! Packets travel in a `bytes::BytesMut`. Verus sees the buffer only through
//! `buffer_contents`, the sequence of bytes that it holds, and through the
//! wrappers below, one for each method of the `bytes` crate that this library
//! calls. Each wrapper states what that method does to the contents.
use bytes::BytesMut;
use vstd::prelude::*;

verus! {

#[verifier::external_type_specification]
#[verifier::external_body]
pub struct ExBytesMut(BytesMut);

/// The bytes that a buffer holds, first to last; reads take from the front,
/// writes append at the back.
pub uninterp spec fn buffer_contents(b: BytesMut) -> Seq<u8>;

/// The largest number of bytes a buffer may hold: `BytesMut` grows through
/// `Vec`, whose allocations are limited to `isize::MAX` bytes.
pub open spec fn buffer_limit() -> int {
    isize::MAX as int
}

/// `BytesMut::new`: an empty buffer.
#[verifier::external_body]
pub(crate) fn buffer_new() -> (b: BytesMut)
    ensures
        buffer_contents(b) == Seq::<u8>::empty(),
{
    BytesMut::new()
}

/// `<BytesMut as From<&[u8]>>::from`: a buffer that holds a copy of `data`.
#[verifier::external_body]
pub(crate) fn buffer_from_slice(data: &[u8]) -> (b: BytesMut)
    ensures
        buffer_contents(b) == data@,
{
    BytesMut::from(data)
}

/// `Buf::remaining` on `BytesMut`: the number of bytes left to read, which is
/// the buffer's length.
#[verifier::external_body]
pub(crate) fn buffer_remaining(b: &BytesMut) -> (n: usize)
    ensures
        n == buffer_contents(*b).len(),
{
    bytes::Buf::remaining(b)
}

/// `Buf::has_remaining`: whether any byte is left to read.
#[verifier::external_body]
pub(crate) fn buffer_has_remaining(b: &BytesMut) -> (r: bool)
    ensures
        r == (buffer_contents(*b).len() > 0),
{
    bytes::Buf::has_remaining(b)
}

/// `Buf::get_u8`: takes the first byte off the front. It panics on an empty
/// buffer, which `requires` leaves out.
#[verifier::external_body]
pub(crate) fn buffer_get_u8(b: &mut BytesMut) -> (v: u8)
    requires
        buffer_contents(*old(b)).len() >= 1,
    ensures
        v == buffer_contents(*old(b))[0],
        buffer_contents(*final(b)) == buffer_contents(*old(b)).skip(1),
{
    bytes::Buf::get_u8(b)
}

/// `Buf::get_u16`: takes two bytes off the front and reads them as a
/// big-endian number. It panics on fewer than two bytes.
#[verifier::external_body]
pub(crate) fn buffer_get_u16(b: &mut BytesMut) -> (v: u16)
    requires
        buffer_contents(*old(b)).len() >= 2,
    ensures
        v == crate::wire::u16_from_be(buffer_contents(*old(b))),
        buffer_contents(*final(b)) == buffer_contents(*old(b)).skip(2),
{
    bytes::Buf::get_u16(b)
}

/// `Buf::get_u64`: takes eight bytes off the front and reads them as a
/// big-endian number. It panics on fewer than eight bytes.
#[verifier::external_body]
pub(crate) fn buffer_get_u64(b: &mut BytesMut) -> (v: u64)
    requires
        buffer_contents(*old(b)).len() >= 8,
    ensures
        v == crate::wire::u64_from_be(buffer_contents(*old(b))),
        buffer_contents(*final(b)) == buffer_contents(*old(b)).skip(8),
{
    bytes::Buf::get_u64(b)
}

/// `Buf::copy_to_slice` into an array of `N` bytes: takes `N` bytes off the
/// front and returns them. It panics on fewer than `N` bytes.
#[verifier::external_body]
pub(crate) fn buffer_take<const N: usize>(b: &mut BytesMut) -> (out: [u8; N])
    requires
        buffer_contents(*old(b)).len() >= N,
    ensures
        out@ == buffer_contents(*old(b)).take(N as int),
        buffer_contents(*final(b)) == buffer_contents(*old(b)).skip(N as int),
{
    let mut out = [0u8; N];
    bytes::Buf::copy_to_slice(b, &mut out);
    out
}

/// `Buf::advance` on `BytesMut`: drops `n` bytes from the front. It panics
/// when `n` exceeds the length.
#[verifier::external_body]
pub(crate) fn buffer_advance(b: &mut BytesMut, n: usize)
    requires
        n <= buffer_contents(*old(b)).len(),
    ensures
        buffer_contents(*final(b)) == buffer_contents(*old(b)).skip(n as int),
{
    bytes::Buf::advance(b, n)
}

/// `BufMut::put_u8`: appends one byte. Growing past `isize::MAX` bytes panics.
#[verifier::external_body]
pub(crate) fn buffer_put_u8(b: &mut BytesMut, v: u8)
    requires
        buffer_contents(*old(b)).len() + 1 <= buffer_limit(),
    ensures
        buffer_contents(*final(b)) == buffer_contents(*old(b)).push(v),
{
    bytes::BufMut::put_u8(b, v)
}

/// `BufMut::put_u16`: appends the two big-endian bytes of `v`.
#[verifier::external_body]
pub(crate) fn buffer_put_u16(b: &mut BytesMut, v: u16)
    requires
        buffer_contents(*old(b)).len() + 2 <= buffer_limit(),
    ensures
        buffer_contents(*final(b)) == buffer_contents(*old(b)) + crate::wire::u16_to_be(v),
{
    bytes::BufMut::put_u16(b, v)
}

/// `BufMut::put_u64`: appends the eight big-endian bytes of `v`.
#[verifier::external_body]
pub(crate) fn buffer_put_u64(b: &mut BytesMut, v: u64)
    requires
        buffer_contents(*old(b)).len() + 8 <= buffer_limit(),
    ensures
        buffer_contents(*final(b)) == buffer_contents(*old(b)) + crate::wire::u64_to_be(v),
{
    bytes::BufMut::put_u64(b, v)
}

/// `BufMut::put` with a byte slice as the source: appends the slice's bytes.
#[verifier::external_body]
pub(crate) fn buffer_put_slice(b: &mut BytesMut, data: &[u8])
    requires
        buffer_contents(*old(b)).len() + data@.len() <= buffer_limit(),
    ensures
        buffer_contents(*final(b)) == buffer_contents(*old(b)) + data@,
{
    bytes::BufMut::put(b, data)
}

} // verus!
