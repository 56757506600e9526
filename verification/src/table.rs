//! Object accessor and the buffer entry points: root resolution,
//! size-prefixed root resolution, and identifier verification.

use vstd::prelude::*;
use vstd::string::StringSliceAdditionalSpecFns;
use crate::buffer::{bytes_clone, bytes_content, bytes_copy_from_slice, bytes_len};
use crate::endian::le_i32_at;
use crate::follow::Follow;
use crate::primitives::{
    BackwardsSOffset, FileIdentifier, ForwardsUOffset, SkipRootOffset, SkipSizePrefix, VOffsetT,
    FILE_IDENTIFIER_LENGTH,
};
use crate::vtable::{vtable_lookup, vtable_wf, VTable, VTableRepr};

verus! {

/// Location of the offset table the object at `loc` points back to: the 4
/// bytes at the object's own location hold a signed backward offset.
pub open spec fn spec_vtable_loc(s: Seq<u8>, loc: int) -> int {
    loc - le_i32_at(s, loc)
}

/// Well-formed object: its backward pointer is readable and leads to a
/// well-formed offset table.
pub open spec fn table_wf(s: Seq<u8>, loc: int) -> bool {
    &&& 0 <= loc
    &&& loc + 4 <= s.len()
    &&& vtable_wf(s, spec_vtable_loc(s, loc))
}

/// The field offset stored for `slot` in the object's offset table,
/// 0 when the field is absent.
pub open spec fn table_field_offset(s: Seq<u8>, loc: int, slot: u16) -> u16 {
    vtable_lookup(s, spec_vtable_loc(s, loc), slot)
}

/// Mathematical window of an object accessor: the bytes it reads and the
/// byte address of its field area.
pub struct TableRepr {
    pub bytes: Seq<u8>,
    pub loc: int,
}

/// Object accessor: a pure window `{buffer, location}` over the object's
/// field area, never an owner of the bytes.
pub struct Table {
    pub buf: bytes::Bytes,
    pub loc: usize,
}

impl Table {
    pub open spec fn wf(&self) -> bool {
        table_wf(bytes_content(self.buf), self.loc as int)
    }

    pub open spec fn repr(&self) -> TableRepr {
        TableRepr { bytes: bytes_content(self.buf), loc: self.loc as int }
    }

    pub fn new(buf: bytes::Bytes, loc: usize) -> (t: Table)
        ensures
            t.buf == buf,
            t.loc == loc,
    {
        Table { buf, loc }
    }

    /// Resolve the object's offset table by following the backward
    /// pointer at the object's own location.
    pub fn vtable(&self) -> (vt: VTable)
        requires
            self.wf(),
        ensures
            vt.wf(),
            vt.repr() == (VTableRepr {
                bytes: bytes_content(self.buf),
                loc: spec_vtable_loc(bytes_content(self.buf), self.loc as int),
            }),
    {
        <BackwardsSOffset<VTable>>::follow(&self.buf, self.loc)
    }

    /// Look `slot_byte_loc` up in the object's offset table.  An absent
    /// field (stored offset 0) returns `default` unchanged and touches no
    /// further bytes; a present field is decoded at `location + offset`
    /// by the declared field type `T`.
    pub fn get<T: Follow>(&self, slot_byte_loc: VOffsetT, default: Option<T::Inner>) -> (r: Option<
        T::Inner,
    >)
        requires
            self.wf(),
            table_field_offset(bytes_content(self.buf), self.loc as int, slot_byte_loc) != 0
                ==> T::follow_valid(
                bytes_content(self.buf),
                self.loc + table_field_offset(
                    bytes_content(self.buf),
                    self.loc as int,
                    slot_byte_loc,
                ),
            ),
        ensures
            table_field_offset(bytes_content(self.buf), self.loc as int, slot_byte_loc) == 0
                ==> r == default,
            table_field_offset(bytes_content(self.buf), self.loc as int, slot_byte_loc) != 0 ==> (
            r matches Some(inner) && T::view_of(inner) == T::spec_follow(
                bytes_content(self.buf),
                self.loc + table_field_offset(
                    bytes_content(self.buf),
                    self.loc as int,
                    slot_byte_loc,
                ),
            )),
    {
        let vt = self.vtable();
        let o = vt.get(slot_byte_loc);
        if o == 0 {
            return default;
        }
        // establishes that the buffer length, hence every valid location, fits in usize
        let _n = bytes_len(&self.buf);
        proof {
            T::lemma_follow_valid_bounds(bytes_content(self.buf), self.loc + o);
        }
        Some(T::follow(&self.buf, self.loc + o as usize))
    }
}

impl Follow for Table {
    type Inner = Table;

    type V = TableRepr;

    open spec fn follow_valid(buf: Seq<u8>, loc: int) -> bool {
        table_wf(buf, loc)
    }

    open spec fn spec_follow(buf: Seq<u8>, loc: int) -> TableRepr {
        TableRepr { bytes: buf, loc }
    }

    open spec fn view_of(inner: Table) -> TableRepr {
        inner.repr()
    }

    proof fn lemma_follow_valid_bounds(buf: Seq<u8>, loc: int) {
    }

    fn follow(buf: &bytes::Bytes, loc: usize) -> Table {
        Table { buf: bytes_clone(buf), loc }
    }
}

/// Resolve a buffer's root value: the first 4 bytes are, by format
/// contract, a forward offset to the root.
pub fn get_root<T: Follow>(data: &[u8]) -> (r: T::Inner)
    requires
        ForwardsUOffset::<T>::follow_valid(data@, 0),
    ensures
        T::view_of(r) == ForwardsUOffset::<T>::spec_follow(data@, 0),
{
    let b = bytes_copy_from_slice(data);
    <ForwardsUOffset<T>>::follow(&b, 0)
}

/// Resolve the root of a buffer whose first 4 bytes are a total payload
/// size prefix: the root offset is read right after the prefix.
pub fn get_size_prefixed_root<T: Follow>(data: &[u8]) -> (r: T::Inner)
    requires
        SkipSizePrefix::<ForwardsUOffset<T>>::follow_valid(data@, 0),
    ensures
        T::view_of(r) == SkipSizePrefix::<ForwardsUOffset<T>>::spec_follow(data@, 0),
{
    let b = bytes_copy_from_slice(data);
    <SkipSizePrefix<ForwardsUOffset<T>>>::follow(&b, 0)
}

/// Byte position of the 4-byte identifier: right behind the root's own
/// forward offset, shifted by the size prefix when one is present.
pub open spec fn spec_identifier_pos(size_prefixed: bool) -> int {
    if size_prefixed {
        8
    } else {
        4
    }
}

/// The identifier bytes a buffer carries.
pub open spec fn spec_identifier(s: Seq<u8>, size_prefixed: bool) -> Seq<u8> {
    s.subrange(spec_identifier_pos(size_prefixed), spec_identifier_pos(size_prefixed) + 4)
}

/// True iff the 4 bytes at the identifier position equal `ident`, byte
/// for byte.  An identifier whose length differs from the fixed 4-byte
/// requirement is a caller error and is excluded by contract.
pub fn buffer_has_identifier(data: &[u8], ident: &str, size_prefixed: bool) -> (r: bool)
    requires
        ident.spec_bytes().len() == FILE_IDENTIFIER_LENGTH,
        spec_identifier_pos(size_prefixed) + 4 <= data@.len(),
    ensures
        r == (ident.spec_bytes() == spec_identifier(data@, size_prefixed)),
{
    let b = bytes_copy_from_slice(data);
    let got: [u8; 4] = if size_prefixed {
        <SkipSizePrefix<SkipRootOffset<FileIdentifier>>>::follow(&b, 0)
    } else {
        <SkipRootOffset<FileIdentifier>>::follow(&b, 0)
    };
    let ib = ident.as_bytes();
    let r = ib[0] == got[0] && ib[1] == got[1] && ib[2] == got[2] && ib[3] == got[3];
    proof {
        if r {
            assert(ident.spec_bytes() =~= spec_identifier(data@, size_prefixed));
        }
    }
    r
}

} // verus!
