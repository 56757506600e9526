//! Laws of the decode pipeline that relate several combinators.
//!
//! The central one: a size-prefixed buffer resolves to the same root
//! value as the same buffer with the prefix stripped.  It holds for
//! every decode that reads only at and after its own location, which
//! `PosInvariant` captures; object accessors are excluded, since their
//! meaning is the whole window they keep reaching into.

use vstd::prelude::*;
use crate::endian::{
    le_u16_at, le_u32_at, lemma_le_u16_shift, lemma_le_u32_shift, lemma_le_u64_shift,
};
use crate::follow::{FixedStride, Follow};
use crate::primitives::{
    FileIdentifier, ForwardsUOffset, SkipRootOffset, SkipSizePrefix,
};
use crate::table::{spec_vtable_loc, table_field_offset, Table, TableRepr};
use crate::vector::{vector_count, vector_elem_loc, Vector};
use crate::vtable::vtable_lookup;

verus! {

/// A decode that reads only at and after its location: dropping the `k`
/// bytes before it leaves validity and the decoded value unchanged.
pub trait PosInvariant: Follow {
    proof fn lemma_shift(buf: Seq<u8>, k: int, loc: int)
        requires
            0 <= k <= loc,
            Self::follow_valid(buf, loc),
        ensures
            Self::follow_valid(buf.skip(k), loc - k),
            Self::spec_follow(buf.skip(k), loc - k) == Self::spec_follow(buf, loc),
    ;
}

impl PosInvariant for u8 {
    proof fn lemma_shift(buf: Seq<u8>, k: int, loc: int) {
        assert(buf.skip(k)[loc - k] == buf[loc]);
    }
}

impl PosInvariant for i8 {
    proof fn lemma_shift(buf: Seq<u8>, k: int, loc: int) {
        assert(buf.skip(k)[loc - k] == buf[loc]);
    }
}

impl PosInvariant for bool {
    proof fn lemma_shift(buf: Seq<u8>, k: int, loc: int) {
        assert(buf.skip(k)[loc - k] == buf[loc]);
    }
}

impl PosInvariant for u16 {
    proof fn lemma_shift(buf: Seq<u8>, k: int, loc: int) {
        lemma_le_u16_shift(buf, k, loc);
    }
}

impl PosInvariant for i16 {
    proof fn lemma_shift(buf: Seq<u8>, k: int, loc: int) {
        lemma_le_u16_shift(buf, k, loc);
    }
}

impl PosInvariant for u32 {
    proof fn lemma_shift(buf: Seq<u8>, k: int, loc: int) {
        lemma_le_u32_shift(buf, k, loc);
    }
}

impl PosInvariant for i32 {
    proof fn lemma_shift(buf: Seq<u8>, k: int, loc: int) {
        lemma_le_u32_shift(buf, k, loc);
    }
}

impl PosInvariant for u64 {
    proof fn lemma_shift(buf: Seq<u8>, k: int, loc: int) {
        lemma_le_u64_shift(buf, k, loc);
    }
}

impl PosInvariant for i64 {
    proof fn lemma_shift(buf: Seq<u8>, k: int, loc: int) {
        lemma_le_u64_shift(buf, k, loc);
    }
}

impl PosInvariant for FileIdentifier {
    proof fn lemma_shift(buf: Seq<u8>, k: int, loc: int) {
        assert(buf.skip(k).subrange(loc - k, loc - k + 4) =~= buf.subrange(loc, loc + 4));
    }
}

impl<T: PosInvariant> PosInvariant for ForwardsUOffset<T> {
    proof fn lemma_shift(buf: Seq<u8>, k: int, loc: int) {
        lemma_le_u32_shift(buf, k, loc);
        let off = le_u32_at(buf, loc) as int;
        T::lemma_shift(buf, k, loc + off);
    }
}

impl<T: PosInvariant> PosInvariant for SkipSizePrefix<T> {
    proof fn lemma_shift(buf: Seq<u8>, k: int, loc: int) {
        T::lemma_shift(buf, k, loc + 4);
    }
}

impl<T: PosInvariant> PosInvariant for SkipRootOffset<T> {
    proof fn lemma_shift(buf: Seq<u8>, k: int, loc: int) {
        T::lemma_shift(buf, k, loc + 4);
    }
}

impl<T: FixedStride + PosInvariant> PosInvariant for Vector<T> {
    proof fn lemma_shift(buf: Seq<u8>, k: int, loc: int) {
        lemma_le_u32_shift(buf, k, loc);
        let s2 = buf.skip(k);
        let st = T::spec_stride();
        let cnt = vector_count(buf, loc);
        assert(vector_count(s2, loc - k) == cnt);
        assert forall|i: int| 0 <= i < cnt implies T::follow_valid(
            s2,
            #[trigger] vector_elem_loc(loc - k, st, i),
        ) && T::spec_follow(s2, vector_elem_loc(loc - k, st, i)) == T::spec_follow(
            buf,
            vector_elem_loc(loc, st, i),
        ) by {
            assert(st * i >= 0) by (nonlinear_arith)
                requires st >= 0 && i >= 0;
            assert(T::follow_valid(buf, vector_elem_loc(loc, st, i)));
            T::lemma_shift(buf, k, vector_elem_loc(loc, st, i));
            assert(vector_elem_loc(loc, st, i) - k == vector_elem_loc(loc - k, st, i));
        }
        assert(Vector::<T>::spec_elems(s2, loc - k) =~= Vector::<T>::spec_elems(buf, loc));
    }
}

/// Size-prefixed root resolution on a buffer with a 4-byte size prefix
/// yields the same root value as plain root resolution on the buffer
/// with that prefix stripped.
pub proof fn lemma_size_prefixed_root_strip<T: PosInvariant>(s: Seq<u8>)
    requires
        SkipSizePrefix::<ForwardsUOffset<T>>::follow_valid(s, 0),
    ensures
        ForwardsUOffset::<T>::follow_valid(s.skip(4), 0),
        ForwardsUOffset::<T>::spec_follow(s.skip(4), 0) == SkipSizePrefix::<
            ForwardsUOffset<T>,
        >::spec_follow(s, 0),
{
    ForwardsUOffset::<T>::lemma_shift(s, 4, 4);
}

/// An object accessor carries its window with it, so the previous law
/// cannot speak of it directly; what survives stripping the size prefix
/// is everything the window is read through.  The root object of a
/// size-prefixed buffer and of the stripped buffer sit 4 bytes apart,
/// see the same field offsets in their offset tables, and every present
/// forward-reading field decodes to the same value.
pub proof fn lemma_size_prefixed_table_strip<T: PosInvariant>(s: Seq<u8>, slot: u16)
    requires
        SkipSizePrefix::<ForwardsUOffset<Table>>::follow_valid(s, 0),
        // the object's offset table lies behind the prefix: a table
        // reaching into the prefix bytes has no stripped counterpart
        spec_vtable_loc(s, 4 + le_u32_at(s, 4)) >= 4,
    ensures
        ForwardsUOffset::<Table>::follow_valid(s.skip(4), 0),
        SkipSizePrefix::<ForwardsUOffset<Table>>::spec_follow(s, 0) == (TableRepr {
            bytes: s,
            loc: 4 + le_u32_at(s, 4),
        }),
        ForwardsUOffset::<Table>::spec_follow(s.skip(4), 0) == (TableRepr {
            bytes: s.skip(4),
            loc: le_u32_at(s, 4) as int,
        }),
        table_field_offset(s.skip(4), le_u32_at(s, 4) as int, slot) == table_field_offset(
            s,
            4 + le_u32_at(s, 4),
            slot,
        ),
        table_field_offset(s, 4 + le_u32_at(s, 4), slot) != 0 && T::follow_valid(
            s,
            4 + le_u32_at(s, 4) + table_field_offset(s, 4 + le_u32_at(s, 4), slot),
        ) ==> T::follow_valid(
            s.skip(4),
            le_u32_at(s, 4) + table_field_offset(s, 4 + le_u32_at(s, 4), slot),
        ) && T::spec_follow(
            s.skip(4),
            le_u32_at(s, 4) + table_field_offset(s, 4 + le_u32_at(s, 4), slot),
        ) == T::spec_follow(
            s,
            4 + le_u32_at(s, 4) + table_field_offset(s, 4 + le_u32_at(s, 4), slot),
        ),
{
    lemma_le_u32_shift(s, 4, 4);
    let loc = 4 + le_u32_at(s, 4) as int;
    let s2 = s.skip(4);
    lemma_le_u32_shift(s, 4, loc);
    let vt = spec_vtable_loc(s, loc);
    assert(le_u32_at(s2, loc - 4) == le_u32_at(s, loc));
    assert(spec_vtable_loc(s2, loc - 4) == vt - 4);
    lemma_le_u16_shift(s, 4, vt);
    let size = le_u16_at(s, vt);
    if slot + 2 <= size {
        lemma_le_u16_shift(s, 4, vt + slot);
    }
    assert(vtable_lookup(s2, vt - 4, slot) == vtable_lookup(s, vt, slot));
    let off = table_field_offset(s, loc, slot);
    if off != 0 && T::follow_valid(s, loc + off) {
        T::lemma_shift(s, 4, loc + off);
    }
}

} // verus!
