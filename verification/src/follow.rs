//! The decode-at-offset capability: given a buffer and a byte location,
//! produce the value of a declared logical type that starts there.
//!
//! Every implementation is a pure window over the same bytes.  The
//! spec-level decode `spec_follow` pins down the executable `follow`
//! through the abstraction `view_of`, which maps a decoded value to its
//! mathematical meaning.

use vstd::prelude::*;
use crate::buffer::bytes_content;

verus! {

pub trait Follow: Sized {
    /// The type a successful decode produces.
    type Inner;

    /// The mathematical meaning of a decoded value.
    type V;

    /// The locations `spec_follow` reads are inside the buffer.
    spec fn follow_valid(buf: Seq<u8>, loc: int) -> bool;

    /// The value encoded at `loc`, as a function of the bytes alone.
    spec fn spec_follow(buf: Seq<u8>, loc: int) -> Self::V;

    /// The meaning of a decoded value.
    spec fn view_of(inner: Self::Inner) -> Self::V;

    /// A valid location lies inside the buffer.
    proof fn lemma_follow_valid_bounds(buf: Seq<u8>, loc: int)
        requires
            Self::follow_valid(buf, loc),
        ensures
            0 <= loc <= buf.len(),
    ;

    /// Decode the value starting at byte `loc` of `buf`.
    fn follow(buf: &bytes::Bytes, loc: usize) -> (r: Self::Inner)
        requires
            Self::follow_valid(bytes_content(*buf), loc as int),
        ensures
            Self::view_of(r) == Self::spec_follow(bytes_content(*buf), loc as int),
    ;
}

/// Element types a sequence accessor can step over: each element occupies
/// a fixed number of encoded bytes, its stride.  The stride is 4 (an
/// offset) for reference-typed elements, else the scalar's encoded width.
pub trait FixedStride: Follow {
    spec fn spec_stride() -> nat;

    fn stride() -> (n: usize)
        ensures
            1 <= n,
            n == Self::spec_stride(),
    ;
}

} // verus!
