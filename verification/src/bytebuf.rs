//! Trusted view of `bytes::BytesMut`, the growable contiguous byte buffer
//! that the transport uses for its read and write buffers.
//!
//! The contents of a buffer are named by the spec function `buf_bytes`; every
//! operation the library calls is wrapped here with a contract over that name.

use vstd::prelude::*;
use bytes::BytesMut;

verus! {

#[verifier::external_type_specification]
#[verifier::external_body]
pub struct ExBytesMut(BytesMut);

/// The bytes a `BytesMut` holds, head first.
pub uninterp spec fn buf_bytes(b: BytesMut) -> Seq<u8>;

/// Relies on `bytes::BytesMut::with_capacity`: returns an empty buffer.
#[verifier::external_body]
pub fn buf_new(capacity: usize) -> (r: BytesMut)
    ensures
        buf_bytes(r) == Seq::<u8>::empty(),
{
    BytesMut::with_capacity(capacity)
}

/// Relies on `bytes::BytesMut::len`: the number of bytes held.
#[verifier::external_body]
pub fn buf_len(b: &BytesMut) -> (r: usize)
    ensures
        r == buf_bytes(*b).len(),
{
    b.len()
}

/// Relies on `bytes::BytesMut::is_empty`: true exactly when no bytes are held.
#[verifier::external_body]
pub fn buf_is_empty(b: &BytesMut) -> (r: bool)
    ensures
        r <==> buf_bytes(*b).len() == 0,
{
    b.is_empty()
}

/// Relies on `bytes::BytesMut::reserve`: grows capacity only, the contents
/// are untouched.
#[verifier::external_body]
pub fn buf_reserve(b: &mut BytesMut, additional: usize)
    ensures
        buf_bytes(*final(b)) == buf_bytes(*old(b)),
{
    b.reserve(additional)
}

/// Relies on `bytes::BytesMut::extend_from_slice`: appends the slice at the
/// tail.
#[verifier::external_body]
pub fn buf_extend(b: &mut BytesMut, data: &[u8])
    ensures
        buf_bytes(*final(b)) == buf_bytes(*old(b)) + data@,
{
    b.extend_from_slice(data)
}

/// Relies on `bytes::BytesMut::split_to`: removes and returns the first `at`
/// bytes, keeping the rest. `split_to` panics when `at` exceeds the length,
/// so that case is excluded here.
#[verifier::external_body]
pub fn buf_split_to(b: &mut BytesMut, at: usize) -> (r: BytesMut)
    requires
        at <= buf_bytes(*old(b)).len(),
    ensures
        buf_bytes(r) == buf_bytes(*old(b)).take(at as int),
        buf_bytes(*final(b)) == buf_bytes(*old(b)).skip(at as int),
{
    b.split_to(at)
}

/// Relies on `<BytesMut as Deref>::deref`: a view of the held bytes as a
/// slice, head first.
#[verifier::external_body]
pub fn buf_slice(b: &BytesMut) -> (r: &[u8])
    ensures
        r@ == buf_bytes(*b),
{
    &b[..]
}

} // verus!
