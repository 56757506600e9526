//! Scalar decodes and the offset-resolution combinators: forward offsets,
//! backward offsets, size-prefix skipping, and the fixed identifier read.

use vstd::prelude::*;
use crate::buffer::{bytes_content, bytes_len};
use crate::endian::{
    le_bool_at, le_i16_at, le_i32_at, le_i64_at, le_i8_at, le_u16_at, le_u32_at, le_u64_at,
    read_bool, read_i16, read_i32, read_i64, read_i8, read_u16, read_u32, read_u64, read_u8,
};
use crate::follow::{Follow, FixedStride};

verus! {

/// Unsigned forward offset, as stored in the buffer.
pub type UOffsetT = u32;

/// Signed backward offset, as stored in the buffer.
pub type SOffsetT = i32;

/// Byte position of a field slot inside an object's offset table.
pub type VOffsetT = u16;

pub const SIZE_UOFFSET: usize = 4;

pub const SIZE_SOFFSET: usize = 4;

pub const SIZE_VOFFSET: usize = 2;

pub const FILE_IDENTIFIER_LENGTH: usize = 4;

impl Follow for u8 {
    type Inner = u8;

    type V = u8;

    open spec fn follow_valid(buf: Seq<u8>, loc: int) -> bool {
        0 <= loc && loc + 1 <= buf.len()
    }

    open spec fn spec_follow(buf: Seq<u8>, loc: int) -> u8 {
        buf[loc]
    }

    open spec fn view_of(inner: u8) -> u8 {
        inner
    }

    proof fn lemma_follow_valid_bounds(buf: Seq<u8>, loc: int) {
    }

    fn follow(buf: &bytes::Bytes, loc: usize) -> u8 {
        read_u8(buf, loc)
    }
}

impl FixedStride for u8 {
    open spec fn spec_stride() -> nat {
        1
    }

    fn stride() -> usize {
        1
    }
}

impl Follow for i8 {
    type Inner = i8;

    type V = i8;

    open spec fn follow_valid(buf: Seq<u8>, loc: int) -> bool {
        0 <= loc && loc + 1 <= buf.len()
    }

    open spec fn spec_follow(buf: Seq<u8>, loc: int) -> i8 {
        le_i8_at(buf, loc)
    }

    open spec fn view_of(inner: i8) -> i8 {
        inner
    }

    proof fn lemma_follow_valid_bounds(buf: Seq<u8>, loc: int) {
    }

    fn follow(buf: &bytes::Bytes, loc: usize) -> i8 {
        read_i8(buf, loc)
    }
}

impl FixedStride for i8 {
    open spec fn spec_stride() -> nat {
        1
    }

    fn stride() -> usize {
        1
    }
}

impl Follow for bool {
    type Inner = bool;

    type V = bool;

    open spec fn follow_valid(buf: Seq<u8>, loc: int) -> bool {
        0 <= loc && loc + 1 <= buf.len()
    }

    open spec fn spec_follow(buf: Seq<u8>, loc: int) -> bool {
        le_bool_at(buf, loc)
    }

    open spec fn view_of(inner: bool) -> bool {
        inner
    }

    proof fn lemma_follow_valid_bounds(buf: Seq<u8>, loc: int) {
    }

    fn follow(buf: &bytes::Bytes, loc: usize) -> bool {
        read_bool(buf, loc)
    }
}

impl FixedStride for bool {
    open spec fn spec_stride() -> nat {
        1
    }

    fn stride() -> usize {
        1
    }
}

impl Follow for u16 {
    type Inner = u16;

    type V = u16;

    open spec fn follow_valid(buf: Seq<u8>, loc: int) -> bool {
        0 <= loc && loc + 2 <= buf.len()
    }

    open spec fn spec_follow(buf: Seq<u8>, loc: int) -> u16 {
        le_u16_at(buf, loc)
    }

    open spec fn view_of(inner: u16) -> u16 {
        inner
    }

    proof fn lemma_follow_valid_bounds(buf: Seq<u8>, loc: int) {
    }

    fn follow(buf: &bytes::Bytes, loc: usize) -> u16 {
        read_u16(buf, loc)
    }
}

impl FixedStride for u16 {
    open spec fn spec_stride() -> nat {
        2
    }

    fn stride() -> usize {
        2
    }
}

impl Follow for i16 {
    type Inner = i16;

    type V = i16;

    open spec fn follow_valid(buf: Seq<u8>, loc: int) -> bool {
        0 <= loc && loc + 2 <= buf.len()
    }

    open spec fn spec_follow(buf: Seq<u8>, loc: int) -> i16 {
        le_i16_at(buf, loc)
    }

    open spec fn view_of(inner: i16) -> i16 {
        inner
    }

    proof fn lemma_follow_valid_bounds(buf: Seq<u8>, loc: int) {
    }

    fn follow(buf: &bytes::Bytes, loc: usize) -> i16 {
        read_i16(buf, loc)
    }
}

impl FixedStride for i16 {
    open spec fn spec_stride() -> nat {
        2
    }

    fn stride() -> usize {
        2
    }
}

impl Follow for u32 {
    type Inner = u32;

    type V = u32;

    open spec fn follow_valid(buf: Seq<u8>, loc: int) -> bool {
        0 <= loc && loc + 4 <= buf.len()
    }

    open spec fn spec_follow(buf: Seq<u8>, loc: int) -> u32 {
        le_u32_at(buf, loc)
    }

    open spec fn view_of(inner: u32) -> u32 {
        inner
    }

    proof fn lemma_follow_valid_bounds(buf: Seq<u8>, loc: int) {
    }

    fn follow(buf: &bytes::Bytes, loc: usize) -> u32 {
        read_u32(buf, loc)
    }
}

impl FixedStride for u32 {
    open spec fn spec_stride() -> nat {
        4
    }

    fn stride() -> usize {
        4
    }
}

impl Follow for i32 {
    type Inner = i32;

    type V = i32;

    open spec fn follow_valid(buf: Seq<u8>, loc: int) -> bool {
        0 <= loc && loc + 4 <= buf.len()
    }

    open spec fn spec_follow(buf: Seq<u8>, loc: int) -> i32 {
        le_i32_at(buf, loc)
    }

    open spec fn view_of(inner: i32) -> i32 {
        inner
    }

    proof fn lemma_follow_valid_bounds(buf: Seq<u8>, loc: int) {
    }

    fn follow(buf: &bytes::Bytes, loc: usize) -> i32 {
        read_i32(buf, loc)
    }
}

impl FixedStride for i32 {
    open spec fn spec_stride() -> nat {
        4
    }

    fn stride() -> usize {
        4
    }
}

impl Follow for u64 {
    type Inner = u64;

    type V = u64;

    open spec fn follow_valid(buf: Seq<u8>, loc: int) -> bool {
        0 <= loc && loc + 8 <= buf.len()
    }

    open spec fn spec_follow(buf: Seq<u8>, loc: int) -> u64 {
        le_u64_at(buf, loc)
    }

    open spec fn view_of(inner: u64) -> u64 {
        inner
    }

    proof fn lemma_follow_valid_bounds(buf: Seq<u8>, loc: int) {
    }

    fn follow(buf: &bytes::Bytes, loc: usize) -> u64 {
        read_u64(buf, loc)
    }
}

impl FixedStride for u64 {
    open spec fn spec_stride() -> nat {
        8
    }

    fn stride() -> usize {
        8
    }
}

impl Follow for i64 {
    type Inner = i64;

    type V = i64;

    open spec fn follow_valid(buf: Seq<u8>, loc: int) -> bool {
        0 <= loc && loc + 8 <= buf.len()
    }

    open spec fn spec_follow(buf: Seq<u8>, loc: int) -> i64 {
        le_i64_at(buf, loc)
    }

    open spec fn view_of(inner: i64) -> i64 {
        inner
    }

    proof fn lemma_follow_valid_bounds(buf: Seq<u8>, loc: int) {
    }

    fn follow(buf: &bytes::Bytes, loc: usize) -> i64 {
        read_i64(buf, loc)
    }
}

impl FixedStride for i64 {
    open spec fn spec_stride() -> nat {
        8
    }

    fn stride() -> usize {
        8
    }
}

/// Forward-offset combinator: the 4 bytes at `loc` hold an unsigned
/// relative pointer; the wrapped type is decoded at `loc + offset`.
pub struct ForwardsUOffset<T>(core::marker::PhantomData<T>);

impl<T: Follow> Follow for ForwardsUOffset<T> {
    type Inner = T::Inner;

    type V = T::V;

    open spec fn follow_valid(buf: Seq<u8>, loc: int) -> bool {
        &&& 0 <= loc
        &&& loc + 4 <= buf.len()
        &&& T::follow_valid(buf, loc + le_u32_at(buf, loc))
    }

    open spec fn spec_follow(buf: Seq<u8>, loc: int) -> T::V {
        T::spec_follow(buf, loc + le_u32_at(buf, loc))
    }

    open spec fn view_of(inner: T::Inner) -> T::V {
        T::view_of(inner)
    }

    proof fn lemma_follow_valid_bounds(buf: Seq<u8>, loc: int) {
    }

    fn follow(buf: &bytes::Bytes, loc: usize) -> T::Inner {
        let off = read_u32(buf, loc);
        // establishes that the buffer length, hence every valid location, fits in usize
        let _n = bytes_len(buf);
        proof {
            T::lemma_follow_valid_bounds(bytes_content(*buf), loc + off);
        }
        T::follow(buf, loc + off as usize)
    }
}

/// A forward-offset slot is itself 4 bytes wide, so reference-typed
/// sequence elements step by 4.
impl<T: Follow> FixedStride for ForwardsUOffset<T> {
    open spec fn spec_stride() -> nat {
        4
    }

    fn stride() -> usize {
        4
    }
}

/// Backward-offset combinator: the 4 bytes at `loc` hold a signed
/// relative pointer; the wrapped type is decoded at `loc - offset`.
/// Used exclusively to reach an object's offset table, which is placed
/// before the object's field area.
pub struct BackwardsSOffset<T>(core::marker::PhantomData<T>);

impl<T: Follow> Follow for BackwardsSOffset<T> {
    type Inner = T::Inner;

    type V = T::V;

    open spec fn follow_valid(buf: Seq<u8>, loc: int) -> bool {
        &&& 0 <= loc
        &&& loc + 4 <= buf.len()
        &&& T::follow_valid(buf, loc - le_i32_at(buf, loc))
    }

    open spec fn spec_follow(buf: Seq<u8>, loc: int) -> T::V {
        T::spec_follow(buf, loc - le_i32_at(buf, loc))
    }

    open spec fn view_of(inner: T::Inner) -> T::V {
        T::view_of(inner)
    }

    proof fn lemma_follow_valid_bounds(buf: Seq<u8>, loc: int) {
    }

    fn follow(buf: &bytes::Bytes, loc: usize) -> T::Inner {
        let off = read_i32(buf, loc);
        // establishes that the buffer length, hence every valid location, fits in usize
        let _n = bytes_len(buf);
        proof {
            T::lemma_follow_valid_bounds(bytes_content(*buf), loc - off);
        }
        if off >= 0 {
            T::follow(buf, loc - off as usize)
        } else {
            T::follow(buf, loc + (-(off as i64)) as usize)
        }
    }
}

/// Size-prefix-skip combinator: the outer framing prepends a 4-byte total
/// payload size; the wrapped type is decoded right after it.
pub struct SkipSizePrefix<T>(core::marker::PhantomData<T>);

impl<T: Follow> Follow for SkipSizePrefix<T> {
    type Inner = T::Inner;

    type V = T::V;

    open spec fn follow_valid(buf: Seq<u8>, loc: int) -> bool {
        &&& 0 <= loc
        &&& T::follow_valid(buf, loc + 4)
    }

    open spec fn spec_follow(buf: Seq<u8>, loc: int) -> T::V {
        T::spec_follow(buf, loc + 4)
    }

    open spec fn view_of(inner: T::Inner) -> T::V {
        T::view_of(inner)
    }

    proof fn lemma_follow_valid_bounds(buf: Seq<u8>, loc: int) {
        T::lemma_follow_valid_bounds(buf, loc + 4);
    }

    fn follow(buf: &bytes::Bytes, loc: usize) -> T::Inner {
        // establishes that the buffer length, hence every valid location, fits in usize
        let _n = bytes_len(buf);
        proof {
            T::lemma_follow_valid_bounds(bytes_content(*buf), loc + 4);
        }
        T::follow(buf, loc + 4)
    }
}

/// Root-offset-skip combinator: steps over the root's own 4-byte forward
/// offset without resolving it, to reach what sits right behind it.
pub struct SkipRootOffset<T>(core::marker::PhantomData<T>);

impl<T: Follow> Follow for SkipRootOffset<T> {
    type Inner = T::Inner;

    type V = T::V;

    open spec fn follow_valid(buf: Seq<u8>, loc: int) -> bool {
        &&& 0 <= loc
        &&& T::follow_valid(buf, loc + 4)
    }

    open spec fn spec_follow(buf: Seq<u8>, loc: int) -> T::V {
        T::spec_follow(buf, loc + 4)
    }

    open spec fn view_of(inner: T::Inner) -> T::V {
        T::view_of(inner)
    }

    proof fn lemma_follow_valid_bounds(buf: Seq<u8>, loc: int) {
        T::lemma_follow_valid_bounds(buf, loc + 4);
    }

    fn follow(buf: &bytes::Bytes, loc: usize) -> T::Inner {
        // establishes that the buffer length, hence every valid location, fits in usize
        let _n = bytes_len(buf);
        proof {
            T::lemma_follow_valid_bounds(bytes_content(*buf), loc + 4);
        }
        T::follow(buf, loc + 4)
    }
}

/// The fixed 4-byte schema identifier, read in place.
pub struct FileIdentifier;

impl Follow for FileIdentifier {
    type Inner = [u8; 4];

    type V = Seq<u8>;

    open spec fn follow_valid(buf: Seq<u8>, loc: int) -> bool {
        0 <= loc && loc + 4 <= buf.len()
    }

    open spec fn spec_follow(buf: Seq<u8>, loc: int) -> Seq<u8> {
        buf.subrange(loc, loc + 4)
    }

    open spec fn view_of(inner: [u8; 4]) -> Seq<u8> {
        inner@
    }

    proof fn lemma_follow_valid_bounds(buf: Seq<u8>, loc: int) {
    }

    fn follow(buf: &bytes::Bytes, loc: usize) -> (r: [u8; 4]) {
        // establishes that the buffer length, hence every valid location, fits in usize
        let _n = bytes_len(buf);
        let r = [
            read_u8(buf, loc),
            read_u8(buf, loc + 1),
            read_u8(buf, loc + 2),
            read_u8(buf, loc + 3),
        ];
        proof {
            assert(r@ =~= bytes_content(*buf).subrange(loc as int, loc + 4));
        }
        r
    }
}

} // verus!
