//! Per-object offset table: maps a field's slot (its byte position inside
//! the table) to the field's byte offset from the object's location.
//! A stored offset of 0 means the field was omitted by the writer.
//!
//! Layout: the 2 bytes at the table's location hold the table's own byte
//! length; a slot's entry is the 2 bytes at `location + slot`.  A slot
//! beyond the declared length reads as 0, which is how objects written
//! against an older schema answer for fields added later.

use vstd::prelude::*;
use crate::buffer::{bytes_clone, bytes_content, bytes_len};
use crate::endian::{le_u16_at, read_u16};
use crate::follow::Follow;
use crate::primitives::VOffsetT;

verus! {

/// The offset table at `loc` declares a byte length that lies inside the
/// buffer, so every slot read stays in bounds.
pub open spec fn vtable_wf(s: Seq<u8>, loc: int) -> bool {
    &&& 0 <= loc
    &&& loc + 2 <= s.len()
    &&& loc + le_u16_at(s, loc) <= s.len()
}

/// The stored field offset for `slot`: the entry's bytes when the slot
/// lies inside the table, else 0 (absent).
pub open spec fn vtable_lookup(s: Seq<u8>, loc: int, slot: u16) -> u16 {
    if slot + 2 <= le_u16_at(s, loc) {
        le_u16_at(s, loc + slot)
    } else {
        0
    }
}

/// Mathematical window of an offset-table accessor: the bytes it reads
/// and where its table starts.
pub struct VTableRepr {
    pub bytes: Seq<u8>,
    pub loc: int,
}

/// Offset-table accessor: a pure window over the buffer, never an owner.
pub struct VTable {
    pub buf: bytes::Bytes,
    pub loc: usize,
}

impl VTable {
    pub open spec fn wf(&self) -> bool {
        vtable_wf(bytes_content(self.buf), self.loc as int)
    }

    pub open spec fn repr(&self) -> VTableRepr {
        VTableRepr { bytes: bytes_content(self.buf), loc: self.loc as int }
    }

    /// The field offset stored for `slot`, 0 when the field is absent.
    pub fn get(&self, slot: VOffsetT) -> (r: VOffsetT)
        requires
            self.wf(),
        ensures
            r == vtable_lookup(bytes_content(self.buf), self.loc as int, slot),
    {
        // establishes that the buffer length, hence every valid location, fits in usize
        let _n = bytes_len(&self.buf);
        let size = read_u16(&self.buf, self.loc);
        if slot as usize + 2 <= size as usize {
            read_u16(&self.buf, self.loc + slot as usize)
        } else {
            0
        }
    }
}

impl Follow for VTable {
    type Inner = VTable;

    type V = VTableRepr;

    open spec fn follow_valid(buf: Seq<u8>, loc: int) -> bool {
        vtable_wf(buf, loc)
    }

    open spec fn spec_follow(buf: Seq<u8>, loc: int) -> VTableRepr {
        VTableRepr { bytes: buf, loc }
    }

    open spec fn view_of(inner: VTable) -> VTableRepr {
        inner.repr()
    }

    proof fn lemma_follow_valid_bounds(buf: Seq<u8>, loc: int) {
    }

    fn follow(buf: &bytes::Bytes, loc: usize) -> VTable {
        VTable { buf: bytes_clone(buf), loc }
    }
}

} // verus!
