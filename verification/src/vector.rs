//! Sequence accessor: length-prefixed, fixed-stride indexed access over
//! the shared buffer, plus a restricted bulk view for single-byte
//! elements.

use vstd::prelude::*;
use vstd::slice::slice_subrange;
use crate::buffer::{bytes_as_ref, bytes_clone, bytes_content, bytes_len};
use crate::follow::{FixedStride, Follow};
use crate::endian::{le_u32_at, read_u32};

verus! {

/// Element count stored in the 4 bytes at the sequence's location.
pub open spec fn vector_count(s: Seq<u8>, loc: int) -> nat {
    le_u32_at(s, loc) as nat
}

/// Byte address of element `i` of a sequence at `loc` with the given
/// stride: the elements are packed right after the 4-byte count.
pub open spec fn vector_elem_loc(loc: int, stride: nat, i: int) -> int {
    loc + 4 + stride * i
}

/// Sequence accessor: a pure window `{buffer, location, element-type}`.
/// `location` addresses the 4-byte unsigned element count, immediately
/// followed by the packed fixed-stride elements.
pub struct Vector<T> {
    pub buf: bytes::Bytes,
    pub loc: usize,
    pub elem: core::marker::PhantomData<T>,
}

impl<T> Vector<T> {
    pub fn new(buf: bytes::Bytes, loc: usize) -> (v: Vector<T>)
        ensures
            v.buf == buf,
            v.loc == loc,
    {
        Vector { buf, loc, elem: core::marker::PhantomData }
    }
}

impl<T: FixedStride> Vector<T> {
    /// Well-formed sequence: the count and every element lie inside the
    /// buffer, and each element location is valid for the element type.
    pub open spec fn spec_wf(s: Seq<u8>, loc: int) -> bool {
        &&& 0 <= loc
        &&& loc + 4 <= s.len()
        &&& loc + 4 + vector_count(s, loc) * T::spec_stride() <= s.len()
        &&& forall|i: int|
            0 <= i < vector_count(s, loc) ==> T::follow_valid(
                s,
                #[trigger] vector_elem_loc(loc, T::spec_stride(), i),
            )
    }

    /// The decoded elements, in order.
    pub open spec fn spec_elems(s: Seq<u8>, loc: int) -> Seq<T::V> {
        Seq::new(
            vector_count(s, loc),
            |i: int| T::spec_follow(s, vector_elem_loc(loc, T::spec_stride(), i)),
        )
    }

    pub open spec fn wf(&self) -> bool {
        Self::spec_wf(bytes_content(self.buf), self.loc as int)
    }

    pub open spec fn elems(&self) -> Seq<T::V> {
        Self::spec_elems(bytes_content(self.buf), self.loc as int)
    }

    /// The element count written at encoding time.
    pub fn len(&self) -> (n: usize)
        requires
            self.wf(),
        ensures
            n == self.elems().len(),
            n == vector_count(bytes_content(self.buf), self.loc as int),
    {
        read_u32(&self.buf, self.loc) as usize
    }

    /// Decode element `idx`, at `location + 4 + idx * stride`.
    pub fn get(&self, idx: usize) -> (r: T::Inner)
        requires
            self.wf(),
            idx < vector_count(bytes_content(self.buf), self.loc as int),
        ensures
            T::view_of(r) == self.elems()[idx as int],
            T::view_of(r) == T::spec_follow(
                bytes_content(self.buf),
                self.loc + 4 + T::spec_stride() * idx,
            ),
    {
        // establishes that the buffer length, hence every valid location, fits in usize
        let _n = bytes_len(&self.buf);
        let st = T::stride();
        proof {
            assert(T::follow_valid(
                bytes_content(self.buf),
                vector_elem_loc(self.loc as int, T::spec_stride(), idx as int),
            ));
            T::lemma_follow_valid_bounds(
                bytes_content(self.buf),
                vector_elem_loc(self.loc as int, T::spec_stride(), idx as int),
            );
        }
        T::follow(&self.buf, self.loc + 4 + st * idx)
    }
}

impl<T: FixedStride> Follow for Vector<T> {
    type Inner = Vector<T>;

    type V = Seq<<T as Follow>::V>;

    open spec fn follow_valid(buf: Seq<u8>, loc: int) -> bool {
        Vector::<T>::spec_wf(buf, loc)
    }

    open spec fn spec_follow(buf: Seq<u8>, loc: int) -> Seq<<T as Follow>::V> {
        Vector::<T>::spec_elems(buf, loc)
    }

    open spec fn view_of(inner: Vector<T>) -> Seq<<T as Follow>::V> {
        inner.elems()
    }

    proof fn lemma_follow_valid_bounds(buf: Seq<u8>, loc: int) {
    }

    fn follow(buf: &bytes::Bytes, loc: usize) -> Vector<T> {
        Vector { buf: bytes_clone(buf), loc, elem: core::marker::PhantomData }
    }
}

/// Marker for element types whose encoded bytes coincide with the host
/// representation on every host, so a sequence of them can be handed out
/// as one contiguous slice without per-element decoding.  Wider scalars
/// coincide only on little-endian hosts and stay outside the verified
/// bulk path.
pub trait SafeSliceAccess: FixedStride {}

impl SafeSliceAccess for u8 {}

impl SafeSliceAccess for i8 {}

impl SafeSliceAccess for bool {}

impl Vector<u8> {
    /// Bulk view of a byte sequence: the backing bytes themselves,
    /// element-wise equal to decoding each element in turn.
    pub fn safe_slice(&self) -> (r: &[u8])
        requires
            self.wf(),
        ensures
            r@ == self.elems(),
    {
        // establishes that the buffer length, hence every valid location, fits in usize
        let _n = bytes_len(&self.buf);
        let count = read_u32(&self.buf, self.loc) as usize;
        let s = bytes_as_ref(&self.buf);
        let r = slice_subrange(s, self.loc + 4, self.loc + 4 + count);
        proof {
            assert(r@ =~= self.elems());
        }
        r
    }
}

} // verus!
