use vstd::prelude::*;

use bytes::Buf;
use bytes::BytesMut;

verus! {

#[verifier::external_type_specification]
#[verifier::external_body]
pub struct ExBytesMut(BytesMut);

/// The bytes a buffer currently holds, oldest first.
pub uninterp spec fn bytes_view(b: BytesMut) -> Seq<u8>;

/// Relies on bytes::BytesMut::with_capacity: the new buffer holds no bytes.
#[verifier::external_body]
pub(crate) fn buf_new() -> (r: BytesMut)
    ensures
        bytes_view(r) == Seq::<u8>::empty(),
{
    BytesMut::with_capacity(4096)
}

/// Relies on bytes::BytesMut::len: the number of bytes the buffer holds.
#[verifier::external_body]
pub(crate) fn buf_len(b: &BytesMut) -> (r: usize)
    ensures
        r == bytes_view(*b).len(),
{
    b.len()
}

/// Relies on the slice indexing that bytes::BytesMut offers through Deref:
/// the byte at the given position.
#[verifier::external_body]
pub(crate) fn buf_get(b: &BytesMut, i: usize) -> (r: u8)
    requires
        i < bytes_view(*b).len(),
    ensures
        r == bytes_view(*b)[i as int],
{
    b[i]
}

/// Relies on bytes::Buf::advance for BytesMut: the first `n` bytes are
/// discarded and the rest keep their order. It panics when `n` exceeds the
/// length, so that case is excluded.
#[verifier::external_body]
pub(crate) fn buf_advance(b: &mut BytesMut, n: usize)
    requires
        n <= bytes_view(*old(b)).len(),
    ensures
        bytes_view(*final(b)) == bytes_view(*old(b)).skip(n as int),
{
    b.advance(n)
}

/// Relies on bytes::BytesMut::split_to: the first `n` bytes leave the buffer
/// and are returned, the rest stay. It panics when `n` exceeds the length, so
/// that case is excluded. The split-off half is copied out as a plain vector.
#[verifier::external_body]
pub(crate) fn buf_split_to(b: &mut BytesMut, n: usize) -> (r: Vec<u8>)
    requires
        n <= bytes_view(*old(b)).len(),
    ensures
        r@ == bytes_view(*old(b)).take(n as int),
        bytes_view(*final(b)) == bytes_view(*old(b)).skip(n as int),
{
    b.split_to(n).to_vec()
}

/// Relies on bytes::BytesMut::clear: the buffer holds no bytes afterwards.
#[verifier::external_body]
pub(crate) fn buf_clear(b: &mut BytesMut)
    ensures
        bytes_view(*final(b)) == Seq::<u8>::empty(),
{
    b.clear()
}

/// Relies on bytes::BytesMut::extend_from_slice: the given bytes are appended
/// after the ones already held.
#[verifier::external_body]
pub(crate) fn buf_put_slice(b: &mut BytesMut, data: &[u8])
    ensures
        bytes_view(*final(b)) == bytes_view(*old(b)) + data@,
{
    b.extend_from_slice(data)
}

} // verus!
