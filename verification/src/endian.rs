//! Little-endian scalar reads: the spec-level meaning of the bytes at a
//! location, and verified executable reads over the shared buffer.
//!
//! All multi-byte integers of the format are little-endian; a signed value
//! is the two's complement reading of the unsigned one.

use vstd::prelude::*;
use crate::buffer::{bytes_content, bytes_as_ref};

verus! {

pub open spec fn le_u16_at(s: Seq<u8>, loc: int) -> u16 {
    (s[loc] + s[loc + 1] * 0x100) as u16
}

pub open spec fn le_u32_at(s: Seq<u8>, loc: int) -> u32 {
    (s[loc] + s[loc + 1] * 0x100 + s[loc + 2] * 0x1_0000 + s[loc + 3] * 0x100_0000) as u32
}

pub open spec fn le_u64_at(s: Seq<u8>, loc: int) -> u64 {
    (s[loc] + s[loc + 1] * 0x100 + s[loc + 2] * 0x1_0000 + s[loc + 3] * 0x100_0000
        + s[loc + 4] * 0x1_0000_0000 + s[loc + 5] * 0x100_0000_0000
        + s[loc + 6] * 0x1_0000_0000_0000 + s[loc + 7] * 0x100_0000_0000_0000) as u64
}

pub open spec fn le_i8_at(s: Seq<u8>, loc: int) -> i8 {
    (if s[loc] < 0x80 { s[loc] as int } else { s[loc] - 0x100 }) as i8
}

pub open spec fn le_i16_at(s: Seq<u8>, loc: int) -> i16 {
    (if le_u16_at(s, loc) < 0x8000 {
        le_u16_at(s, loc) as int
    } else {
        le_u16_at(s, loc) - 0x1_0000
    }) as i16
}

pub open spec fn le_i32_at(s: Seq<u8>, loc: int) -> i32 {
    (if le_u32_at(s, loc) < 0x8000_0000 {
        le_u32_at(s, loc) as int
    } else {
        le_u32_at(s, loc) - 0x1_0000_0000
    }) as i32
}

pub open spec fn le_i64_at(s: Seq<u8>, loc: int) -> i64 {
    (if le_u64_at(s, loc) < 0x8000_0000_0000_0000 {
        le_u64_at(s, loc) as int
    } else {
        le_u64_at(s, loc) - 0x1_0000_0000_0000_0000
    }) as i64
}

/// A stored boolean is any non-zero byte.
pub open spec fn le_bool_at(s: Seq<u8>, loc: int) -> bool {
    s[loc] != 0
}

pub fn read_u8(buf: &bytes::Bytes, loc: usize) -> (r: u8)
    requires
        loc + 1 <= bytes_content(*buf).len(),
    ensures
        r == bytes_content(*buf)[loc as int],
{
    let s = bytes_as_ref(buf);
    s[loc]
}

pub fn read_u16(buf: &bytes::Bytes, loc: usize) -> (r: u16)
    requires
        loc + 2 <= bytes_content(*buf).len(),
    ensures
        r == le_u16_at(bytes_content(*buf), loc as int),
{
    let s = bytes_as_ref(buf);
    s[loc] as u16 + s[loc + 1] as u16 * 0x100
}

pub fn read_u32(buf: &bytes::Bytes, loc: usize) -> (r: u32)
    requires
        loc + 4 <= bytes_content(*buf).len(),
    ensures
        r == le_u32_at(bytes_content(*buf), loc as int),
{
    let s = bytes_as_ref(buf);
    s[loc] as u32 + s[loc + 1] as u32 * 0x100 + s[loc + 2] as u32 * 0x1_0000
        + s[loc + 3] as u32 * 0x100_0000
}

pub fn read_u64(buf: &bytes::Bytes, loc: usize) -> (r: u64)
    requires
        loc + 8 <= bytes_content(*buf).len(),
    ensures
        r == le_u64_at(bytes_content(*buf), loc as int),
{
    let s = bytes_as_ref(buf);
    s[loc] as u64 + s[loc + 1] as u64 * 0x100 + s[loc + 2] as u64 * 0x1_0000
        + s[loc + 3] as u64 * 0x100_0000 + s[loc + 4] as u64 * 0x1_0000_0000
        + s[loc + 5] as u64 * 0x100_0000_0000 + s[loc + 6] as u64 * 0x1_0000_0000_0000
        + s[loc + 7] as u64 * 0x100_0000_0000_0000
}

pub fn read_i8(buf: &bytes::Bytes, loc: usize) -> (r: i8)
    requires
        loc + 1 <= bytes_content(*buf).len(),
    ensures
        r == le_i8_at(bytes_content(*buf), loc as int),
{
    let b = read_u8(buf, loc);
    if b < 0x80 {
        b as i8
    } else {
        ((b as i16) - 0x100) as i8
    }
}

pub fn read_i16(buf: &bytes::Bytes, loc: usize) -> (r: i16)
    requires
        loc + 2 <= bytes_content(*buf).len(),
    ensures
        r == le_i16_at(bytes_content(*buf), loc as int),
{
    let u = read_u16(buf, loc);
    if u < 0x8000 {
        u as i16
    } else {
        ((u as i32) - 0x1_0000) as i16
    }
}

pub fn read_i32(buf: &bytes::Bytes, loc: usize) -> (r: i32)
    requires
        loc + 4 <= bytes_content(*buf).len(),
    ensures
        r == le_i32_at(bytes_content(*buf), loc as int),
{
    let u = read_u32(buf, loc);
    if u < 0x8000_0000 {
        u as i32
    } else {
        ((u as i64) - 0x1_0000_0000) as i32
    }
}

pub fn read_i64(buf: &bytes::Bytes, loc: usize) -> (r: i64)
    requires
        loc + 8 <= bytes_content(*buf).len(),
    ensures
        r == le_i64_at(bytes_content(*buf), loc as int),
{
    let u = read_u64(buf, loc);
    if u < 0x8000_0000_0000_0000 {
        u as i64
    } else {
        ((u - 0x8000_0000_0000_0000) as i64) - 0x4000_0000_0000_0000 - 0x4000_0000_0000_0000
    }
}

/// A little-endian read depends only on the bytes at and after its
/// location: dropping `k` bytes off the front leaves the value unchanged.
pub proof fn lemma_le_u16_shift(s: Seq<u8>, k: int, loc: int)
    requires
        0 <= k <= loc,
        loc + 2 <= s.len(),
    ensures
        le_u16_at(s.skip(k), loc - k) == le_u16_at(s, loc),
{
    assert(s.skip(k)[loc - k] == s[loc]);
    assert(s.skip(k)[loc - k + 1] == s[loc + 1]);
}

pub proof fn lemma_le_u32_shift(s: Seq<u8>, k: int, loc: int)
    requires
        0 <= k <= loc,
        loc + 4 <= s.len(),
    ensures
        le_u32_at(s.skip(k), loc - k) == le_u32_at(s, loc),
{
    assert(s.skip(k)[loc - k] == s[loc]);
    assert(s.skip(k)[loc - k + 1] == s[loc + 1]);
    assert(s.skip(k)[loc - k + 2] == s[loc + 2]);
    assert(s.skip(k)[loc - k + 3] == s[loc + 3]);
}

pub proof fn lemma_le_u64_shift(s: Seq<u8>, k: int, loc: int)
    requires
        0 <= k <= loc,
        loc + 8 <= s.len(),
    ensures
        le_u64_at(s.skip(k), loc - k) == le_u64_at(s, loc),
{
    assert(s.skip(k)[loc - k] == s[loc]);
    assert(s.skip(k)[loc - k + 1] == s[loc + 1]);
    assert(s.skip(k)[loc - k + 2] == s[loc + 2]);
    assert(s.skip(k)[loc - k + 3] == s[loc + 3]);
    assert(s.skip(k)[loc - k + 4] == s[loc + 4]);
    assert(s.skip(k)[loc - k + 5] == s[loc + 5]);
    assert(s.skip(k)[loc - k + 6] == s[loc + 6]);
    assert(s.skip(k)[loc - k + 7] == s[loc + 7]);
}

pub fn read_bool(buf: &bytes::Bytes, loc: usize) -> (r: bool)
    requires
        loc + 1 <= bytes_content(*buf).len(),
    ensures
        r == le_bool_at(bytes_content(*buf), loc as int),
{
    let b = read_u8(buf, loc);
    b != 0
}

} // verus!
