//! The shared byte buffer, a reference-counted immutable blob from the
//! `bytes` crate.  Verified code sees it only through the spec-level
//! contents `bytes_content` and the small trusted wrappers below.

use vstd::prelude::*;

verus! {

/// `bytes::Bytes` as an opaque type for the verifier.
#[verifier::external_type_specification]
#[verifier::external_body]
pub struct ExBytes(bytes::Bytes);

/// The sequence of bytes a `bytes::Bytes` handle holds.
pub uninterp spec fn bytes_content(b: bytes::Bytes) -> Seq<u8>;

/// Relies on `bytes::Bytes::copy_from_slice`: the new handle holds a copy
/// of exactly the bytes of `data`.
#[verifier::external_body]
pub(crate) fn bytes_copy_from_slice(data: &[u8]) -> (b: bytes::Bytes)
    ensures
        bytes_content(b) == data@,
{
    bytes::Bytes::copy_from_slice(data)
}

/// Relies on `Clone for bytes::Bytes`: a clone is a new handle to the same
/// underlying bytes (a reference-count increment, not a copy).
#[verifier::external_body]
pub(crate) fn bytes_clone(b: &bytes::Bytes) -> (r: bytes::Bytes)
    ensures
        bytes_content(r) == bytes_content(*b),
{
    b.clone()
}

/// Relies on `AsRef<[u8]> for bytes::Bytes`: the returned slice is the held
/// bytes themselves.
#[verifier::external_body]
pub(crate) fn bytes_as_ref(b: &bytes::Bytes) -> (r: &[u8])
    ensures
        r@ == bytes_content(*b),
{
    b.as_ref()
}

/// Number of bytes the handle holds.
pub fn bytes_len(b: &bytes::Bytes) -> (n: usize)
    ensures
        n == bytes_content(*b).len(),
{
    let s = bytes_as_ref(b);
    s.len()
}

} // verus!
