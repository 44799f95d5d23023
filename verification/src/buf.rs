//! The byte buffers of the `bytes` crate, as the decoder and the encoder use
//! them.
//!
//! Verus cannot look inside `Bytes` and `BytesMut`. Each buffer is therefore
//! described by the byte sequence it holds, and every method the library
//! calls on it is reached through a small function whose contract is taken on
//! trust from the `bytes` sources.

use bytes::{Buf, BufMut, Bytes, BytesMut};
use vstd::prelude::*;

verus! {

#[verifier::external_type_specification]
#[verifier::external_body]
pub struct ExBytes(bytes::Bytes);

#[verifier::external_type_specification]
#[verifier::external_body]
pub struct ExBytesMut(bytes::BytesMut);

/// The bytes that `buf` still holds: those from its read cursor to its end.
pub uninterp spec fn unread(buf: Bytes) -> Seq<u8>;

/// The bytes that have been written into `buf`, first to last.
pub uninterp spec fn written(buf: BytesMut) -> Seq<u8>;

/// The number that the bytes of `s` spell in little-endian order.
pub open spec fn le_value(s: Seq<u8>) -> nat
    decreases s.len(),
{
    if s.len() == 0 {
        0
    } else {
        s[0] as nat + 256 * le_value(s.skip(1))
    }
}

/// The two's-complement reading of a 32-bit pattern.
pub open spec fn as_signed32(u: nat) -> int {
    if u < 0x8000_0000 {
        u as int
    } else {
        u - 0x1_0000_0000
    }
}

/// The bit pattern of a 16-bit signed number, as an unsigned one.
pub open spec fn as_unsigned16(n: i16) -> int {
    if n >= 0 {
        n as int
    } else {
        n + 0x1_0000
    }
}

/// The two bytes of a 16-bit pattern, low byte first.
pub open spec fn le_bytes16(u: int) -> Seq<u8> {
    seq![(u % 256) as u8, (u / 256) as u8]
}

/// `Buf::remaining` on `Bytes`: the count of unread bytes.
#[verifier::external_body]
pub(crate) fn remaining(buf: &Bytes) -> (n: usize)
    ensures
        n == unread(*buf).len(),
{
    buf.remaining()
}

/// `Buf::bytes` on `Bytes`: all unread bytes as one slice. The cursor stays.
#[verifier::external_body]
pub(crate) fn peek(buf: &Bytes) -> (s: &[u8])
    ensures
        s@ == unread(*buf),
{
    buf.bytes()
}

/// `Buf::advance` on `Bytes`: drops the first `cnt` unread bytes. The method
/// panics when fewer are left, which the precondition rules out.
#[verifier::external_body]
pub(crate) fn advance(buf: &mut Bytes, cnt: usize)
    requires
        cnt <= unread(*old(buf)).len(),
    ensures
        unread(*final(buf)) == unread(*old(buf)).skip(cnt as int),
{
    buf.advance(cnt)
}

/// `Buf::get_u8`: returns the first unread byte and steps over it.
#[verifier::external_body]
pub(crate) fn get_u8(buf: &mut Bytes) -> (v: u8)
    requires
        1 <= unread(*old(buf)).len(),
    ensures
        v == unread(*old(buf))[0],
        unread(*final(buf)) == unread(*old(buf)).skip(1),
{
    buf.get_u8()
}

/// `Buf::get_u16_le`: reads two bytes as a little-endian number and steps
/// over them.
#[verifier::external_body]
pub(crate) fn get_u16_le(buf: &mut Bytes) -> (v: u16)
    requires
        2 <= unread(*old(buf)).len(),
    ensures
        v == le_value(unread(*old(buf)).take(2)),
        unread(*final(buf)) == unread(*old(buf)).skip(2),
{
    buf.get_u16_le()
}

/// `Buf::get_u32_le`: reads four bytes as a little-endian number and steps
/// over them.
#[verifier::external_body]
pub(crate) fn get_u32_le(buf: &mut Bytes) -> (v: u32)
    requires
        4 <= unread(*old(buf)).len(),
    ensures
        v == le_value(unread(*old(buf)).take(4)),
        unread(*final(buf)) == unread(*old(buf)).skip(4),
{
    buf.get_u32_le()
}

/// `Buf::get_i32_le`: reads four bytes as a little-endian two's-complement
/// number and steps over them.
#[verifier::external_body]
pub(crate) fn get_i32_le(buf: &mut Bytes) -> (v: i32)
    requires
        4 <= unread(*old(buf)).len(),
    ensures
        v == as_signed32(le_value(unread(*old(buf)).take(4))),
        unread(*final(buf)) == unread(*old(buf)).skip(4),
{
    buf.get_i32_le()
}

/// `Buf::get_uint_le`: reads `nbytes` bytes as a little-endian number and
/// steps over them. The method panics for more than eight bytes, or when
/// fewer than `nbytes` are left.
#[verifier::external_body]
pub(crate) fn get_uint_le(buf: &mut Bytes, nbytes: usize) -> (v: u64)
    requires
        nbytes <= 8,
        nbytes <= unread(*old(buf)).len(),
    ensures
        v == le_value(unread(*old(buf)).take(nbytes as int)),
        unread(*final(buf)) == unread(*old(buf)).skip(nbytes as int),
{
    buf.get_uint_le(nbytes)
}

/// `Buf::copy_to_slice`: fills `dst` with the first `dst.len()` unread bytes
/// and steps over them. The method panics when fewer are left.
#[verifier::external_body]
pub(crate) fn copy_to_slice(buf: &mut Bytes, dst: &mut Vec<u8>)
    requires
        old(dst).len() <= unread(*old(buf)).len(),
    ensures
        final(dst)@ == unread(*old(buf)).take(old(dst).len() as int),
        unread(*final(buf)) == unread(*old(buf)).skip(old(dst).len() as int),
{
    buf.copy_to_slice(&mut dst[..])
}

/// `BytesMut::with_capacity`: a buffer with nothing written into it. The
/// allocation panics for a capacity beyond `isize::MAX`.
#[verifier::external_body]
pub(crate) fn with_capacity(capacity: usize) -> (buf: BytesMut)
    requires
        capacity <= isize::MAX,
    ensures
        written(buf) == Seq::<u8>::empty(),
{
    BytesMut::with_capacity(capacity)
}

/// `BufMut::put_slice` on `BytesMut`: appends `src`. The buffer grows as
/// needed; growing panics once the length would pass `isize::MAX`.
#[verifier::external_body]
pub(crate) fn put_slice(buf: &mut BytesMut, src: &[u8])
    requires
        written(*old(buf)).len() + src@.len() <= isize::MAX,
    ensures
        written(*final(buf)) == written(*old(buf)) + src@,
{
    buf.put_slice(src)
}

/// `BufMut::put_u8` on `BytesMut`: appends one byte.
#[verifier::external_body]
pub(crate) fn put_u8(buf: &mut BytesMut, n: u8)
    requires
        written(*old(buf)).len() + 1 <= isize::MAX,
    ensures
        written(*final(buf)) == written(*old(buf)).push(n),
{
    buf.put_u8(n)
}

/// `BufMut::put_u16_le` on `BytesMut`: appends the two bytes of `n`, low
/// byte first.
#[verifier::external_body]
pub(crate) fn put_u16_le(buf: &mut BytesMut, n: u16)
    requires
        written(*old(buf)).len() + 2 <= isize::MAX,
    ensures
        written(*final(buf)) == written(*old(buf)) + le_bytes16(n as int),
{
    buf.put_u16_le(n)
}

/// `BufMut::put_i16_le` on `BytesMut`: appends the two bytes of the
/// two's-complement pattern of `n`, low byte first.
#[verifier::external_body]
pub(crate) fn put_i16_le(buf: &mut BytesMut, n: i16)
    requires
        written(*old(buf)).len() + 2 <= isize::MAX,
    ensures
        written(*final(buf)) == written(*old(buf)) + le_bytes16(as_unsigned16(n)),
{
    buf.put_i16_le(n)
}

/// `BytesMut::freeze`: the written bytes as a read-only buffer whose cursor
/// stands at the first of them.
#[verifier::external_body]
pub(crate) fn freeze(buf: BytesMut) -> (frozen: Bytes)
    ensures
        unread(frozen) == written(buf),
{
    buf.freeze()
}

} // verus!
