//! End-to-end reads over hand-encoded buffers.

use bytes::Bytes;
use flatread::follow::Follow;
use flatread::primitives::ForwardsUOffset;
use flatread::table::{get_root, get_size_prefixed_root, Table};
use flatread::vector::Vector;

/// A root object with field A present (42, unsigned 32-bit, slot 4) and
/// field B absent (slot 6): root offset, offset table, backward pointer,
/// field bytes.
fn object_buffer() -> Vec<u8> {
    let mut d: Vec<u8> = Vec::new();
    d.extend_from_slice(&[12, 0, 0, 0]); // root forward offset -> 12
    d.extend_from_slice(&[8, 0]); // offset table: own length 8
    d.extend_from_slice(&[8, 0]); // object inline length
    d.extend_from_slice(&[4, 0]); // slot 4 -> field offset 4
    d.extend_from_slice(&[0, 0]); // slot 6 -> absent
    d.extend_from_slice(&[8, 0, 0, 0]); // object: backward offset 8 -> table at 4
    d.extend_from_slice(&[42, 0, 0, 0]); // field A value
    d
}

#[test]
fn present_and_absent_field() {
    let d = object_buffer();
    let t: Table = get_root::<Table>(&d);
    assert_eq!(t.loc, 12);
    assert_eq!(t.get::<u32>(4, Some(0)), Some(42));
    assert_eq!(t.get::<u32>(6, Some(7)), Some(7));
}

#[test]
fn absent_field_returns_default_unchanged() {
    let d = object_buffer();
    let t = get_root::<Table>(&d);
    assert_eq!(t.get::<u32>(6, None), None);
    assert_eq!(t.get::<u32>(6, Some(123456)), Some(123456));
    // a slot beyond the offset table's own length is absent as well
    assert_eq!(t.get::<u32>(40, Some(9)), Some(9));
}

#[test]
fn offset_table_lookup() {
    let d = object_buffer();
    let t = Table::new(Bytes::copy_from_slice(&d), 12);
    let vt = t.vtable();
    assert_eq!(vt.loc, 4);
    assert_eq!(vt.get(4), 4);
    assert_eq!(vt.get(6), 0);
    assert_eq!(vt.get(8), 0);
}

#[test]
fn vector_of_u32() {
    let d: Vec<u8> = alloc_vec(&[
        4, 0, 0, 0, // root forward offset -> 4
        3, 0, 0, 0, // element count
        10, 0, 0, 0, 20, 0, 0, 0, 30, 0, 0, 0,
    ]);
    let v: Vector<u32> = get_root::<Vector<u32>>(&d);
    assert_eq!(v.len(), 3);
    assert_eq!(v.get(0), 10);
    assert_eq!(v.get(1), 20);
    assert_eq!(v.get(2), 30);
}

#[test]
fn vector_of_signed_and_bool() {
    let d: Vec<u8> = alloc_vec(&[
        4, 0, 0, 0, // root forward offset -> 4
        3, 0, 0, 0, // element count
        0xFF, 0x7F, 1, // i8 elements: -1, 127, 1
    ]);
    let v: Vector<i8> = get_root::<Vector<i8>>(&d);
    assert_eq!(v.len(), 3);
    assert_eq!(v.get(0), -1);
    assert_eq!(v.get(1), 127);
    assert_eq!(v.get(2), 1);
    let b: Vector<bool> = get_root::<Vector<bool>>(&d);
    assert_eq!(b.get(0), true);
    assert_eq!(b.get(1), true);
    assert_eq!(b.get(2), true);
}

#[test]
fn bulk_view_matches_elementwise() {
    let d: Vec<u8> = alloc_vec(&[
        4, 0, 0, 0, // root forward offset -> 4
        5, 0, 0, 0, // element count
        9, 8, 7, 6, 5,
    ]);
    let v: Vector<u8> = get_root::<Vector<u8>>(&d);
    let s = v.safe_slice();
    assert_eq!(s.len(), v.len());
    for i in 0..v.len() {
        assert_eq!(s[i], v.get(i));
    }
    assert_eq!(s, &[9, 8, 7, 6, 5]);
}

#[test]
fn nested_vector_field() {
    let mut d: Vec<u8> = Vec::new();
    d.extend_from_slice(&[12, 0, 0, 0]); // root forward offset -> 12
    d.extend_from_slice(&[8, 0, 8, 0, 4, 0, 0, 0]); // offset table at 4
    d.extend_from_slice(&[8, 0, 0, 0]); // object at 12, backward offset 8
    d.extend_from_slice(&[4, 0, 0, 0]); // field A: forward offset -> 20
    d.extend_from_slice(&[2, 0, 0, 0]); // vector at 20: count 2
    d.extend_from_slice(&[7, 9]); // elements
    let t = get_root::<Table>(&d);
    let v: Vector<u8> = t.get::<ForwardsUOffset<Vector<u8>>>(4, None).unwrap();
    assert_eq!(v.loc, 20);
    assert_eq!(v.len(), 2);
    assert_eq!(v.get(0), 7);
    assert_eq!(v.get(1), 9);
    assert_eq!(v.safe_slice(), &[7, 9]);
}

#[test]
fn vector_of_u64_strides_by_eight() {
    let mut d: Vec<u8> = alloc_vec(&[4, 0, 0, 0, 2, 0, 0, 0]);
    d.extend_from_slice(&[1, 0, 0, 0, 0, 0, 0, 0x80]);
    d.extend_from_slice(&[0xFF, 0xFF, 0xFF, 0xFF, 0xFF, 0xFF, 0xFF, 0xFF]);
    let v: Vector<u64> = get_root::<Vector<u64>>(&d);
    assert_eq!(v.len(), 2);
    assert_eq!(v.get(0), 0x8000000000000001);
    assert_eq!(v.get(1), u64::MAX);
    let w: Vector<u64> = Vector::new(Bytes::copy_from_slice(&d), 4);
    assert_eq!(w.loc, 4);
    assert_eq!(w.len(), 2);
    assert_eq!(w.get(1), u64::MAX);
}

#[test]
fn size_prefixed_root_matches_stripped() {
    let plain: Vec<u8> = alloc_vec(&[
        4, 0, 0, 0, // root forward offset -> 4
        99, 1, 0, 0, // root value 355
    ]);
    let mut prefixed: Vec<u8> = alloc_vec(&[8, 0, 0, 0]); // size prefix
    prefixed.extend_from_slice(&plain);
    assert_eq!(get_root::<u32>(&plain), 355);
    assert_eq!(get_size_prefixed_root::<u32>(&prefixed), get_root::<u32>(&plain));
}

#[test]
fn size_prefixed_vector_matches_stripped() {
    let plain: Vec<u8> = alloc_vec(&[
        4, 0, 0, 0, // root forward offset -> 4
        2, 0, 0, 0, // element count
        5, 0, 6, 0, // u16 elements
    ]);
    let mut prefixed: Vec<u8> = alloc_vec(&[12, 0, 0, 0]);
    prefixed.extend_from_slice(&plain);
    let a: Vector<u16> = get_root::<Vector<u16>>(&plain);
    let b: Vector<u16> = get_size_prefixed_root::<Vector<u16>>(&prefixed);
    assert_eq!(a.len(), b.len());
    for i in 0..a.len() {
        assert_eq!(a.get(i), b.get(i));
    }
}

#[test]
fn size_prefixed_object_matches_stripped() {
    let plain = object_buffer();
    let mut prefixed: Vec<u8> = alloc_vec(&[20, 0, 0, 0]); // size prefix
    prefixed.extend_from_slice(&plain);
    let a = get_root::<Table>(&plain);
    let b = get_size_prefixed_root::<Table>(&prefixed);
    assert_eq!(b.loc, a.loc + 4);
    assert_eq!(b.get::<u32>(4, Some(0)), a.get::<u32>(4, Some(0)));
    assert_eq!(b.get::<u32>(4, Some(0)), Some(42));
    assert_eq!(b.get::<u32>(6, Some(7)), Some(7));
}

#[test]
fn direct_follow_is_the_same_window() {
    let d = object_buffer();
    let b = Bytes::copy_from_slice(&d);
    let t = <Table as Follow>::follow(&b, 12);
    assert_eq!(t.loc, 12);
    assert_eq!(t.get::<u32>(4, Some(0)), Some(42));
}

fn alloc_vec(bytes: &[u8]) -> Vec<u8> {
    bytes.to_vec()
}
