//! The byte buffers of the `bytes` crate, seen through their contents.
use vstd::prelude::*;
use bytes::{Buf, BufMut, BytesMut};

verus! {

#[verifier::external_type_specification]
#[verifier::external_body]
pub struct ExBytesMut(bytes::BytesMut);

/// A big-endian `u16` made of two bytes.
pub open spec fn be16(hi: u8, lo: u8) -> nat {
    hi as nat * 256 + lo as nat
}

/// The two bytes of `v` in big-endian order.
pub open spec fn be16_bytes(v: nat) -> Seq<u8> {
    seq![(v / 256) as u8, (v % 256) as u8]
}

/// What a `BytesMut` holds: its readable bytes, first to last.
pub uninterp spec fn buf_contents(b: BytesMut) -> Seq<u8>;

/// `BytesMut::with_capacity`: a new buffer that holds nothing. The
/// allocation panics past `isize::MAX` bytes, which `requires` rules out.
#[verifier::external_body]
pub(crate) fn buf_with_capacity(capacity: usize) -> (b: BytesMut)
    requires
        capacity <= isize::MAX,
    ensures
        buf_contents(b) == Seq::<u8>::empty(),
{
    BytesMut::with_capacity(capacity)
}

/// `BytesMut::len`: the number of bytes the buffer holds.
#[verifier::external_body]
pub(crate) fn buf_len(b: &BytesMut) -> (n: usize)
    ensures
        n == buf_contents(*b).len(),
{
    b.len()
}

/// Indexing a `BytesMut` (through its `Deref` to `[u8]`): the byte at `i`.
#[verifier::external_body]
pub(crate) fn buf_byte(b: &BytesMut, i: usize) -> (v: u8)
    requires
        i < buf_contents(*b).len(),
    ensures
        v == buf_contents(*b)[i as int],
{
    b[i]
}

/// `Buf::advance` on a `BytesMut`: drops the first `n` bytes.
/// The crate panics when `n` exceeds the length, which `requires` rules out.
#[verifier::external_body]
pub(crate) fn buf_advance(b: &mut BytesMut, n: usize)
    requires
        n <= buf_contents(*old(b)).len(),
    ensures
        buf_contents(*final(b)) == buf_contents(*old(b)).skip(n as int),
{
    b.advance(n)
}

/// `BytesMut::extend_from_slice`: appends the bytes of `s`.
/// The crate panics when the length would pass `isize::MAX`.
#[verifier::external_body]
pub(crate) fn buf_extend(b: &mut BytesMut, s: &[u8])
    requires
        buf_contents(*old(b)).len() + s@.len() <= isize::MAX,
    ensures
        buf_contents(*final(b)) == buf_contents(*old(b)) + s@,
{
    b.extend_from_slice(s)
}

/// `BufMut::put_u8` on a `BytesMut`: appends one byte.
#[verifier::external_body]
pub(crate) fn buf_put_u8(b: &mut BytesMut, v: u8)
    requires
        buf_contents(*old(b)).len() + 1 <= isize::MAX,
    ensures
        buf_contents(*final(b)) == buf_contents(*old(b)).push(v),
{
    b.put_u8(v)
}

/// `BufMut::put_u16` on a `BytesMut`: appends `v` in big-endian order.
#[verifier::external_body]
pub(crate) fn buf_put_u16(b: &mut BytesMut, v: u16)
    requires
        buf_contents(*old(b)).len() + 2 <= isize::MAX,
    ensures
        buf_contents(*final(b)) == buf_contents(*old(b)) + be16_bytes(v as nat),
{
    b.put_u16(v)
}

/// `BufMut::put_bytes` on a `BytesMut`: appends `n` copies of `v`.
#[verifier::external_body]
pub(crate) fn buf_put_bytes(b: &mut BytesMut, v: u8, n: usize)
    requires
        buf_contents(*old(b)).len() + n <= isize::MAX,
    ensures
        buf_contents(*final(b)) == buf_contents(*old(b)) + Seq::new(n as nat, |_i: int| v),
{
    b.put_bytes(v, n)
}

/// `BytesMut::split_to`: takes the first `n` bytes out into a new buffer.
/// The crate panics when `n` exceeds the length, which `requires` rules out.
#[verifier::external_body]
pub(crate) fn buf_split_to(b: &mut BytesMut, n: usize) -> (head: BytesMut)
    requires
        n <= buf_contents(*old(b)).len(),
    ensures
        buf_contents(head) == buf_contents(*old(b)).take(n as int),
        buf_contents(*final(b)) == buf_contents(*old(b)).skip(n as int),
{
    b.split_to(n)
}

/// `BytesMut::clear`: the buffer holds nothing afterwards.
#[verifier::external_body]
pub(crate) fn buf_clear(b: &mut BytesMut)
    ensures
        buf_contents(*final(b)) == Seq::<u8>::empty(),
{
    b.clear()
}

/// The bytes of a `BytesMut` (`AsRef<[u8]>`), copied into a `Vec`.
#[verifier::external_body]
pub(crate) fn buf_to_vec(b: &BytesMut) -> (v: Vec<u8>)
    ensures
        v@ == buf_contents(*b),
{
    b.as_ref().to_vec()
}

} // verus!
