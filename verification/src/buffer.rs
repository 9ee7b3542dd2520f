use vstd::prelude::*;

verus! {

#[verifier::external_type_specification]
#[verifier::external_body]
pub struct ExBytesMut(bytes::BytesMut);

/// The bytes that a buffer holds, first to last.
pub uninterp spec fn buffer_bytes(b: bytes::BytesMut) -> Seq<u8>;

/// Trusted: `BytesMut::new` returns a buffer that holds no bytes.
pub assume_specification[ bytes::BytesMut::new ]() -> (b: bytes::BytesMut)
    ensures
        buffer_bytes(b) == Seq::<u8>::empty(),
;

/// Trusted: `BytesMut::len` is the number of bytes that the buffer holds.
pub assume_specification[ bytes::BytesMut::len ](b: &bytes::BytesMut) -> (n: usize)
    ensures
        n == buffer_bytes(*b).len(),
;

/// Trusted: `BytesMut::split_to` hands out the first `at` bytes as a buffer of
/// their own and leaves the others in place. It panics where `at` is more than
/// the buffer holds.
pub assume_specification[ bytes::BytesMut::split_to ](b: &mut bytes::BytesMut, at: usize) -> (front:
    bytes::BytesMut)
    requires
        at <= buffer_bytes(*old(b)).len(),
    ensures
        buffer_bytes(front) == buffer_bytes(*old(b)).take(at as int),
        buffer_bytes(*final(b)) == buffer_bytes(*old(b)).skip(at as int),
;

/// Trusted: `BytesMut::extend_from_slice` appends the given bytes and keeps those
/// that the buffer held. Running out of address space is not modelled, as for
/// `Vec::push`.
pub assume_specification[ bytes::BytesMut::extend_from_slice ](
    b: &mut bytes::BytesMut,
    extend: &[u8],
)
    ensures
        buffer_bytes(*final(b)) == buffer_bytes(*old(b)) + extend@,
;

/// Trusted: a `BytesMut` dereferences to the slice of the bytes that it holds.
pub assume_specification<'a>[ <bytes::BytesMut as core::ops::Deref>::deref ](
    b: &'a bytes::BytesMut,
) -> (s: &'a [u8])
    ensures
        s@ == buffer_bytes(*b),
;

#[verifier::external_type_specification]
#[verifier::external_body]
pub struct ExBytes(bytes::Bytes);

/// The bytes that a bulk of bytes holds, first to last.
pub uninterp spec fn bulk_bytes(b: bytes::Bytes) -> Seq<u8>;

/// Trusted: the clone of a `Bytes` holds the bytes that the `Bytes` holds.
pub assume_specification[ <bytes::Bytes as Clone>::clone ](b: &bytes::Bytes) -> (copy: bytes::Bytes)
    ensures
        bulk_bytes(copy) == bulk_bytes(*b),
;

} // verus!
