//! Two's-complement conversions and big-endian byte arithmetic shared by the
//! decoder and the encoder. All conversions are written with in-range casts
//! only, so each one is exact by construction.

use vstd::prelude::*;

verus! {

pub open spec fn u8_to_i8(b: u8) -> i8 {
    if b < 0x80 {
        b as i8
    } else {
        ((b as int) - 0x100) as i8
    }
}

pub open spec fn u16_to_i16(u: u16) -> i16 {
    if u < 0x8000 {
        u as i16
    } else {
        ((u as int) - 0x1_0000) as i16
    }
}

pub open spec fn u32_to_i32(u: u32) -> i32 {
    if u < 0x8000_0000 {
        u as i32
    } else {
        ((u as int) - 0x1_0000_0000) as i32
    }
}

pub open spec fn u64_to_i64(u: u64) -> i64 {
    if u < 0x8000_0000_0000_0000 {
        u as i64
    } else {
        ((u as int) - 0x1_0000_0000_0000_0000) as i64
    }
}

pub open spec fn i8_to_u8(v: i8) -> u8 {
    if v >= 0 {
        v as u8
    } else {
        ((v as int) + 0x100) as u8
    }
}

pub open spec fn i16_to_u16(v: i16) -> u16 {
    if v >= 0 {
        v as u16
    } else {
        ((v as int) + 0x1_0000) as u16
    }
}

pub open spec fn i32_to_u32(v: i32) -> u32 {
    if v >= 0 {
        v as u32
    } else {
        ((v as int) + 0x1_0000_0000) as u32
    }
}

pub open spec fn i64_to_u64(v: i64) -> u64 {
    if v >= 0 {
        v as u64
    } else {
        ((v as int) + 0x1_0000_0000_0000_0000) as u64
    }
}

pub fn u8_as_i8(b: u8) -> (r: i8)
    ensures
        r == u8_to_i8(b),
{
    if b < 0x80 {
        b as i8
    } else {
        ((b as i16) - 0x100) as i8
    }
}

pub fn u16_as_i16(u: u16) -> (r: i16)
    ensures
        r == u16_to_i16(u),
{
    if u < 0x8000 {
        u as i16
    } else {
        ((u as i32) - 0x1_0000) as i16
    }
}

pub fn u32_as_i32(u: u32) -> (r: i32)
    ensures
        r == u32_to_i32(u),
{
    if u < 0x8000_0000 {
        u as i32
    } else {
        ((u as i64) - 0x1_0000_0000) as i32
    }
}

pub fn u64_as_i64(u: u64) -> (r: i64)
    ensures
        r == u64_to_i64(u),
{
    if u < 0x8000_0000_0000_0000 {
        u as i64
    } else {
        ((u as i128) - 0x1_0000_0000_0000_0000) as i64
    }
}

pub fn i8_as_u8(v: i8) -> (r: u8)
    ensures
        r == i8_to_u8(v),
{
    if v >= 0 {
        v as u8
    } else {
        ((v as i16) + 0x100) as u8
    }
}

pub fn i16_as_u16(v: i16) -> (r: u16)
    ensures
        r == i16_to_u16(v),
{
    if v >= 0 {
        v as u16
    } else {
        ((v as i32) + 0x1_0000) as u16
    }
}

pub fn i32_as_u32(v: i32) -> (r: u32)
    ensures
        r == i32_to_u32(v),
{
    if v >= 0 {
        v as u32
    } else {
        ((v as i64) + 0x1_0000_0000) as u32
    }
}

pub fn i64_as_u64(v: i64) -> (r: u64)
    ensures
        r == i64_to_u64(v),
{
    if v >= 0 {
        v as u64
    } else {
        ((v as i128) + 0x1_0000_0000_0000_0000) as u64
    }
}

/// The unsigned big-endian value of the two bytes at `pos`.
pub open spec fn be_u16_at(s: Seq<u8>, pos: int) -> u16 {
    ((s[pos] as int) * 0x100 + (s[pos + 1] as int)) as u16
}

/// The unsigned big-endian value of the four bytes at `pos`.
pub open spec fn be_u32_at(s: Seq<u8>, pos: int) -> u32 {
    ((s[pos] as int) * 0x100_0000 + (s[pos + 1] as int) * 0x1_0000 + (s[pos + 2] as int) * 0x100
        + (s[pos + 3] as int)) as u32
}

/// The unsigned big-endian value of the eight bytes at `pos`.
pub open spec fn be_u64_at(s: Seq<u8>, pos: int) -> u64 {
    ((s[pos] as int) * 0x100_0000_0000_0000 + (s[pos + 1] as int) * 0x1_0000_0000_0000 + (s[pos
        + 2] as int) * 0x100_0000_0000 + (s[pos + 3] as int) * 0x1_0000_0000 + (s[pos
        + 4] as int) * 0x100_0000 + (s[pos + 5] as int) * 0x1_0000 + (s[pos + 6] as int) * 0x100 + (
    s[pos + 7] as int)) as u64
}

/// The signed big-endian values, as two's complement of the unsigned ones.
pub open spec fn be_i16_at(s: Seq<u8>, pos: int) -> i16 {
    u16_to_i16(be_u16_at(s, pos))
}

pub open spec fn be_i32_at(s: Seq<u8>, pos: int) -> i32 {
    u32_to_i32(be_u32_at(s, pos))
}

pub open spec fn be_i64_at(s: Seq<u8>, pos: int) -> i64 {
    u64_to_i64(be_u64_at(s, pos))
}

/// The two big-endian bytes of `u`.
pub open spec fn be_u16_bytes(u: u16) -> Seq<u8> {
    seq![((u >> 8) & 0xff) as u8, (u & 0xff) as u8]
}

/// The four big-endian bytes of `u`.
pub open spec fn be_u32_bytes(u: u32) -> Seq<u8> {
    seq![
        ((u >> 24) & 0xff) as u8,
        ((u >> 16) & 0xff) as u8,
        ((u >> 8) & 0xff) as u8,
        (u & 0xff) as u8,
    ]
}

/// The eight big-endian bytes of `u`.
pub open spec fn be_u64_bytes(u: u64) -> Seq<u8> {
    seq![
        ((u >> 56) & 0xff) as u8,
        ((u >> 48) & 0xff) as u8,
        ((u >> 40) & 0xff) as u8,
        ((u >> 32) & 0xff) as u8,
        ((u >> 24) & 0xff) as u8,
        ((u >> 16) & 0xff) as u8,
        ((u >> 8) & 0xff) as u8,
        (u & 0xff) as u8,
    ]
}

/// Reading four big-endian bytes back gives the value they were made from.
pub proof fn lemma_be_u32_roundtrip(u: u32)
    ensures
        be_u32_at(be_u32_bytes(u), 0) == u,
{
    let b0 = ((u >> 24) & 0xff) as u8;
    let b1 = ((u >> 16) & 0xff) as u8;
    let b2 = ((u >> 8) & 0xff) as u8;
    let b3 = (u & 0xff) as u8;
    assert(b0 == ((u >> 24) & 0xff) as u8 && b1 == ((u >> 16) & 0xff) as u8 && b2 == ((u >> 8)
        & 0xff) as u8 && b3 == (u & 0xff) as u8 ==> (b0 as int) * 0x100_0000 + (b1 as int)
        * 0x1_0000 + (b2 as int) * 0x100 + (b3 as int) == u as int) by (bit_vector);
}

/// A byte masked to its low eight bits fits in `u8`.
pub proof fn lemma_mask_ff_u16(x: u16)
    ensures
        x & 0xff < 0x100,
{
    assert(x & 0xff < 0x100) by (bit_vector);
}

pub proof fn lemma_mask_ff_u32(x: u32)
    ensures
        x & 0xff < 0x100,
{
    assert(x & 0xff < 0x100) by (bit_vector);
}

pub proof fn lemma_mask_ff_u64(x: u64)
    ensures
        x & 0xff < 0x100,
{
    assert(x & 0xff < 0x100) by (bit_vector);
}

/// The signed/unsigned conversions invert each other.
pub proof fn lemma_i32_u32_roundtrip(v: i32)
    ensures
        u32_to_i32(i32_to_u32(v)) == v,
{
}

pub proof fn lemma_i8_u8_roundtrip(v: i8)
    ensures
        u8_to_i8(i8_to_u8(v)) == v,
{
}

pub proof fn lemma_i64_u64_roundtrip(v: i64)
    ensures
        u64_to_i64(i64_to_u64(v)) == v,
{
}

} // verus!
