//! The chunk type that serializers hand out, and the few calls into the
//! `bytes` crate that the library makes.
use vstd::prelude::*;

verus! {

/// `bytes::Bytes` is carried through the library as an opaque value.
#[verifier::external_type_specification]
#[verifier::external_body]
pub struct ExBytes(bytes::Bytes);

/// The bytes that a `bytes::Bytes` value holds, in order.
pub uninterp spec fn chunk_bytes(b: bytes::Bytes) -> Seq<u8>;

/// Calls `<bytes::Bytes as From<Vec<u8>>>::from`, which takes over the
/// vector's buffer: the chunk holds exactly the vector's bytes.
#[verifier::external_body]
pub(crate) fn chunk_from_vec(v: Vec<u8>) -> (b: bytes::Bytes)
    ensures
        chunk_bytes(b) == v@,
{
    bytes::Bytes::from(v)
}

/// Calls `<bytes::Bytes as Clone>::clone`, which shares the same buffer: the
/// copy holds the same bytes.
#[verifier::external_body]
pub(crate) fn chunk_clone(b: &bytes::Bytes) -> (c: bytes::Bytes)
    ensures
        chunk_bytes(c) == chunk_bytes(*b),
{
    b.clone()
}

/// Calls `bytes::Bytes::len`: the number of bytes the chunk holds.
#[verifier::external_body]
pub(crate) fn chunk_len(b: &bytes::Bytes) -> (n: usize)
    ensures
        n == chunk_bytes(*b).len(),
{
    b.len()
}

} // verus!
