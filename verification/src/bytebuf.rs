//! A growable receive/transmit byte buffer backed by `bytes::BytesMut`,
//! used through trusted contracts over the bytes it holds.

use bytes::BytesMut;
use vstd::prelude::*;

verus! {

#[verifier::external_type_specification]
#[verifier::external_body]
pub struct ExBytesMut(BytesMut);

/// The bytes the buffer currently holds, in order.
pub uninterp spec fn buf_contents(b: BytesMut) -> Seq<u8>;

/// Relies on bytes::BytesMut::new: it creates an empty buffer.
#[verifier::external_body]
pub(crate) fn buf_new() -> (r: BytesMut)
    ensures
        buf_contents(r) == Seq::<u8>::empty(),
{
    BytesMut::new()
}

/// Relies on bytes::BytesMut::len: the number of bytes held.
#[verifier::external_body]
pub(crate) fn buf_len(b: &BytesMut) -> (r: usize)
    ensures
        r == buf_contents(*b).len(),
{
    b.len()
}

/// Relies on BytesMut's Deref to `[u8]`: the bytes held, as a slice.
#[verifier::external_body]
pub(crate) fn buf_bytes(b: &BytesMut) -> (r: &[u8])
    ensures
        r@ == buf_contents(*b),
{
    b
}

/// Relies on bytes::BytesMut::extend_from_slice: it appends the bytes.
#[verifier::external_body]
pub(crate) fn buf_extend(b: &mut BytesMut, data: &[u8])
    ensures
        buf_contents(*final(b)) == buf_contents(*old(b)) + data@,
{
    b.extend_from_slice(data);
}

/// Relies on bytes::Buf::advance for BytesMut: it discards the first
/// `n` bytes (it panics past the end, which the contract rules out).
#[verifier::external_body]
pub(crate) fn buf_advance(b: &mut BytesMut, n: usize)
    requires
        n <= buf_contents(*old(b)).len(),
    ensures
        buf_contents(*final(b)) == buf_contents(*old(b)).skip(n as int),
{
    bytes::Buf::advance(b, n);
}

} // verus!
