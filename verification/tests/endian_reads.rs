//! Little-endian scalar reads, including signed and boundary values.

use bytes::Bytes;
use flatread::endian::{
    read_bool, read_i16, read_i32, read_i64, read_i8, read_u16, read_u32, read_u64, read_u8,
};

#[test]
fn unsigned_reads() {
    let b = Bytes::copy_from_slice(&[0x01, 0x02, 0x03, 0x04, 0x05, 0x06, 0x07, 0x08]);
    assert_eq!(read_u8(&b, 0), 0x01);
    assert_eq!(read_u8(&b, 7), 0x08);
    assert_eq!(read_u16(&b, 0), 0x0201);
    assert_eq!(read_u16(&b, 3), 0x0504);
    assert_eq!(read_u32(&b, 0), 0x04030201);
    assert_eq!(read_u32(&b, 2), 0x06050403);
    assert_eq!(read_u64(&b, 0), 0x0807060504030201);
}

#[test]
fn unsigned_extremes() {
    let b = Bytes::copy_from_slice(&[0xFF; 8]);
    assert_eq!(read_u8(&b, 0), u8::MAX);
    assert_eq!(read_u16(&b, 0), u16::MAX);
    assert_eq!(read_u32(&b, 0), u32::MAX);
    assert_eq!(read_u64(&b, 0), u64::MAX);
}

#[test]
fn signed_reads() {
    let b = Bytes::copy_from_slice(&[0xFE, 0xFF, 0xFF, 0xFF, 0xFF, 0xFF, 0xFF, 0xFF]);
    assert_eq!(read_i8(&b, 0), -2);
    assert_eq!(read_i8(&b, 1), -1);
    assert_eq!(read_i16(&b, 0), -2);
    assert_eq!(read_i32(&b, 0), -2);
    assert_eq!(read_i64(&b, 0), -2);
    let p = Bytes::copy_from_slice(&[0x7F, 0x00, 0x2A, 0x00, 0x00, 0x00, 0x00, 0x00]);
    assert_eq!(read_i8(&p, 0), 127);
    assert_eq!(read_i16(&p, 1), 0x2A00);
    assert_eq!(read_i32(&p, 2), 42);
    assert_eq!(read_i64(&p, 0), 0x00002A007F);
}

#[test]
fn signed_boundaries() {
    let min32 = Bytes::copy_from_slice(&[0x00, 0x00, 0x00, 0x80]);
    assert_eq!(read_i32(&min32, 0), i32::MIN);
    let max32 = Bytes::copy_from_slice(&[0xFF, 0xFF, 0xFF, 0x7F]);
    assert_eq!(read_i32(&max32, 0), i32::MAX);
    let min64 = Bytes::copy_from_slice(&[0, 0, 0, 0, 0, 0, 0, 0x80]);
    assert_eq!(read_i64(&min64, 0), i64::MIN);
    let max64 = Bytes::copy_from_slice(&[0xFF, 0xFF, 0xFF, 0xFF, 0xFF, 0xFF, 0xFF, 0x7F]);
    assert_eq!(read_i64(&max64, 0), i64::MAX);
    let min16 = Bytes::copy_from_slice(&[0x00, 0x80]);
    assert_eq!(read_i16(&min16, 0), i16::MIN);
    let min8 = Bytes::copy_from_slice(&[0x80]);
    assert_eq!(read_i8(&min8, 0), i8::MIN);
}

#[test]
fn bool_reads() {
    let b = Bytes::copy_from_slice(&[0, 1, 2, 255]);
    assert_eq!(read_bool(&b, 0), false);
    assert_eq!(read_bool(&b, 1), true);
    assert_eq!(read_bool(&b, 2), true);
    assert_eq!(read_bool(&b, 3), true);
}
