//! The byte buffers of the `bytes` crate, as the rest of the library sees them.
//!
//! `BytesMut` is a growable buffer and `Bytes` a frozen one. Verus sees neither
//! inside, so each gets a name for the bytes it holds, and `BytesMut` a second
//! name for the room that the calls which made or grew it promised. The actual
//! capacity of a buffer is never below that promised room.
use vstd::prelude::*;

verus! {

#[verifier::external_type_specification]
#[verifier::external_body]
pub struct ExBytesMut(bytes::BytesMut);

#[verifier::external_type_specification]
#[verifier::external_body]
pub struct ExBytes(bytes::Bytes);

/// The bytes that a growable buffer holds, in order.
pub uninterp spec fn buffer_contents(b: bytes::BytesMut) -> Seq<u8>;

/// The number of bytes that the calls which made or grew a buffer promised it
/// can hold without reallocating.
pub uninterp spec fn buffer_room(b: bytes::BytesMut) -> nat;

/// The bytes that a frozen buffer holds, in order.
pub uninterp spec fn frozen_contents(b: bytes::Bytes) -> Seq<u8>;

/// The two bytes of a 16-bit signed integer, most significant first
/// (two's complement).
pub open spec fn i16_be_bytes(x: i16) -> Seq<u8> {
    let bits: int = if x < 0 { x + 65536 } else { x as int };
    seq![(bits / 256) as u8, (bits % 256) as u8]
}

/// `BytesMut::with_capacity`: an empty buffer that can hold at least
/// `capacity` bytes without reallocating.
#[verifier::external_body]
pub(crate) fn buffer_with_capacity(capacity: usize) -> (res: bytes::BytesMut)
    requires
        capacity <= isize::MAX,
    ensures
        buffer_contents(res) == Seq::<u8>::empty(),
        buffer_room(res) == capacity,
{
    bytes::BytesMut::with_capacity(capacity)
}

/// `BytesMut::len`: the number of bytes held.
#[verifier::external_body]
pub(crate) fn buffer_len(b: &bytes::BytesMut) -> (res: usize)
    ensures
        res == buffer_contents(*b).len(),
{
    b.len()
}

/// `BytesMut::is_empty`: whether no byte is held.
#[verifier::external_body]
pub(crate) fn buffer_is_empty(b: &bytes::BytesMut) -> (res: bool)
    ensures
        res == (buffer_contents(*b).len() == 0),
{
    b.is_empty()
}

/// `Deref` of `BytesMut`: the held bytes as a slice.
#[verifier::external_body]
pub(crate) fn buffer_as_slice(b: &bytes::BytesMut) -> (res: &[u8])
    ensures
        res@ == buffer_contents(*b),
{
    &b[..]
}

/// `BytesMut::reserve`: makes room for `additional` more bytes; the held bytes
/// stay as they are. The new capacity must not pass `isize::MAX`.
#[verifier::external_body]
pub(crate) fn buffer_reserve(b: &mut bytes::BytesMut, additional: usize)
    requires
        buffer_contents(*old(b)).len() + additional <= isize::MAX,
    ensures
        buffer_contents(*final(b)) == buffer_contents(*old(b)),
        buffer_room(*final(b)) >= buffer_contents(*old(b)).len() + additional,
{
    b.reserve(additional)
}

/// `BufMut::put` with a byte slice: appends the slice. It panics where the
/// capacity is too small, which the promised room rules out.
#[verifier::external_body]
pub(crate) fn buffer_put(b: &mut bytes::BytesMut, src: &[u8])
    requires
        buffer_contents(*old(b)).len() + src@.len() <= buffer_room(*old(b)),
    ensures
        buffer_contents(*final(b)) == buffer_contents(*old(b)) + src@,
        buffer_room(*final(b)) == buffer_room(*old(b)),
{
    bytes::BufMut::put(b, src)
}

/// `BufMut::put_i16::<BigEndian>`: appends the two bytes of `n`, most
/// significant first.
#[verifier::external_body]
#[allow(deprecated)]
pub(crate) fn buffer_put_i16_be(b: &mut bytes::BytesMut, n: i16)
    requires
        buffer_contents(*old(b)).len() + 2 <= buffer_room(*old(b)),
    ensures
        buffer_contents(*final(b)) == buffer_contents(*old(b)) + i16_be_bytes(n),
        buffer_room(*final(b)) == buffer_room(*old(b)),
{
    bytes::BufMut::put_i16::<bytes::BigEndian>(b, n)
}

/// `BytesMut::split_to`: hands out the first `at` bytes and keeps the rest.
/// Its documentation has it panic where `at` passes the length.
#[verifier::external_body]
pub(crate) fn buffer_split_to(b: &mut bytes::BytesMut, at: usize) -> (res: bytes::BytesMut)
    requires
        at <= buffer_contents(*old(b)).len(),
    ensures
        buffer_contents(res) == buffer_contents(*old(b)).take(at as int),
        buffer_contents(*final(b)) == buffer_contents(*old(b)).skip(at as int),
{
    b.split_to(at)
}

/// `BytesMut::freeze`: the same bytes, frozen.
#[verifier::external_body]
pub(crate) fn buffer_freeze(b: bytes::BytesMut) -> (res: bytes::Bytes)
    ensures
        frozen_contents(res) == buffer_contents(b),
{
    b.freeze()
}

/// `Deref` of `Bytes`: the held bytes as a slice.
#[verifier::external_body]
pub(crate) fn frozen_as_slice(b: &bytes::Bytes) -> (res: &[u8])
    ensures
        res@ == frozen_contents(*b),
{
    &b[..]
}

} // verus!
