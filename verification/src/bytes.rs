//! Integers as bytes: little-endian, signed ones in two's complement.

use vstd::prelude::*;

verus! {

/// The unsigned value with the same 8 bits as `v`.
pub open spec fn bits_i8(v: i8) -> u8 {
    if v >= 0 {
        v as u8
    } else {
        (v + 256) as u8
    }
}

/// The unsigned value with the same 16 bits as `v`.
pub open spec fn bits_i16(v: i16) -> u16 {
    if v >= 0 {
        v as u16
    } else {
        (v + 65536) as u16
    }
}

/// The unsigned value with the same 32 bits as `v`.
pub open spec fn bits_i32(v: i32) -> u32 {
    if v >= 0 {
        v as u32
    } else {
        (v + 4294967296) as u32
    }
}

/// The signed value with the same 8 bits as `v`.
pub open spec fn signed_u8(v: u8) -> i8 {
    if v < 128 {
        v as i8
    } else {
        (v - 256) as i8
    }
}

/// The signed value with the same 16 bits as `v`.
pub open spec fn signed_u16(v: u16) -> i16 {
    if v < 32768 {
        v as i16
    } else {
        (v - 65536) as i16
    }
}

/// The signed value with the same 32 bits as `v`.
pub open spec fn signed_u32(v: u32) -> i32 {
    if v < 2147483648 {
        v as i32
    } else {
        (v - 4294967296) as i32
    }
}

/// The two bytes of `v`, lowest first.
pub open spec fn le_u16(v: u16) -> Seq<u8> {
    seq![(v % 256) as u8, (v / 256) as u8]
}

/// The four bytes of `v`, lowest first.
pub open spec fn le_u32(v: u32) -> Seq<u8> {
    seq![
        (v % 256) as u8,
        (v / 256 % 256) as u8,
        (v / 65536 % 256) as u8,
        (v / 16777216) as u8,
    ]
}

/// The value whose two bytes, lowest first, are `b0` and `b1`.
pub open spec fn u16_of_le(b0: u8, b1: u8) -> u16 {
    (b0 + 256 * b1) as u16
}

/// The value whose four bytes, lowest first, are `b0` to `b3`.
pub open spec fn u32_of_le(b0: u8, b1: u8, b2: u8, b3: u8) -> u32 {
    (b0 + 256 * b1 + 65536 * b2 + 16777216 * b3) as u32
}

/// The bits of `v` as an unsigned value.
pub(crate) fn to_bits_i8(v: i8) -> (r: u8)
    ensures
        r == bits_i8(v),
{
    if v >= 0 {
        v as u8
    } else {
        (v as i16 + 256) as u8
    }
}

/// The bits of `v` as an unsigned value.
pub(crate) fn to_bits_i16(v: i16) -> (r: u16)
    ensures
        r == bits_i16(v),
{
    if v >= 0 {
        v as u16
    } else {
        (v as i32 + 65536) as u16
    }
}

/// The bits of `v` as an unsigned value.
pub(crate) fn to_bits_i32(v: i32) -> (r: u32)
    ensures
        r == bits_i32(v),
{
    if v >= 0 {
        v as u32
    } else {
        (v as i64 + 4294967296) as u32
    }
}

/// The bits of `v` as a signed value.
pub(crate) fn to_signed_u8(v: u8) -> (r: i8)
    ensures
        r == signed_u8(v),
{
    if v < 128 {
        v as i8
    } else {
        (v as i16 - 256) as i8
    }
}

/// The bits of `v` as a signed value.
pub(crate) fn to_signed_u16(v: u16) -> (r: i16)
    ensures
        r == signed_u16(v),
{
    if v < 32768 {
        v as i16
    } else {
        (v as i32 - 65536) as i16
    }
}

/// The bits of `v` as a signed value.
pub(crate) fn to_signed_u32(v: u32) -> (r: i32)
    ensures
        r == signed_u32(v),
{
    if v < 2147483648 {
        v as i32
    } else {
        (v as i64 - 4294967296) as i32
    }
}

/// The signed value whose four bytes, lowest first, are `b0` to `b3`.
pub(crate) fn read_i32(b0: u8, b1: u8, b2: u8, b3: u8) -> (r: i32)
    ensures
        r == signed_u32(u32_of_le(b0, b1, b2, b3)),
{
    to_signed_u32(read_le_u32(b0, b1, b2, b3))
}

/// Appends the two bytes of `v`, lowest first.
pub(crate) fn push_le_u16(out: &mut Vec<u8>, v: u16)
    ensures
        final(out)@ == old(out)@ + le_u16(v),
{
    out.push((v % 256) as u8);
    out.push((v / 256) as u8);
    assert(out@ =~= old(out)@ + le_u16(v));
}

/// Appends the four bytes of `v`, lowest first.
pub(crate) fn push_le_u32(out: &mut Vec<u8>, v: u32)
    ensures
        final(out)@ == old(out)@ + le_u32(v),
{
    out.push((v % 256) as u8);
    out.push((v / 256 % 256) as u8);
    out.push((v / 65536 % 256) as u8);
    out.push((v / 16777216) as u8);
    assert(out@ =~= old(out)@ + le_u32(v));
}

/// The value whose two bytes, lowest first, are `b0` and `b1`.
pub(crate) fn read_le_u16(b0: u8, b1: u8) -> (r: u16)
    ensures
        r == u16_of_le(b0, b1),
{
    b0 as u16 + 256 * (b1 as u16)
}

/// The value whose four bytes, lowest first, are `b0` to `b3`.
pub(crate) fn read_le_u32(b0: u8, b1: u8, b2: u8, b3: u8) -> (r: u32)
    ensures
        r == u32_of_le(b0, b1, b2, b3),
{
    b0 as u32 + 256 * (b1 as u32) + 65536 * (b2 as u32) + 16777216 * (b3 as u32)
}

/// The bytes of a 16-bit value give the value back.
pub proof fn lemma_le_u16_round_trip(v: u16)
    ensures
        le_u16(v).len() == 2,
        u16_of_le(le_u16(v)[0], le_u16(v)[1]) == v,
{
}

/// The bytes of a 32-bit value give the value back.
pub proof fn lemma_le_u32_round_trip(v: u32)
    ensures
        le_u32(v).len() == 4,
        u32_of_le(le_u32(v)[0], le_u32(v)[1], le_u32(v)[2], le_u32(v)[3]) == v,
{
}

/// Two bytes are the bytes of the value they spell.
pub proof fn lemma_u16_of_le_round_trip(b0: u8, b1: u8)
    ensures
        le_u16(u16_of_le(b0, b1)) == seq![b0, b1],
{
    assert(le_u16(u16_of_le(b0, b1)) =~= seq![b0, b1]);
}

/// Four bytes are the bytes of the value they spell.
pub proof fn lemma_u32_of_le_round_trip(b0: u8, b1: u8, b2: u8, b3: u8)
    ensures
        le_u32(u32_of_le(b0, b1, b2, b3)) == seq![b0, b1, b2, b3],
{
    let v: int = b0 + 256 * b1 + 65536 * b2 + 16777216 * b3;
    let low2: int = b0 + 256 * b1;
    let low3: int = low2 + 65536 * b2;
    let high3: int = b1 + 256 * b2 + 65536 * b3;
    let high2: int = b2 + 256 * b3;
    assert(v == 256 * high3 + b0);
    assert(v % 256 == b0 && v / 256 == high3);
    assert(v == 65536 * high2 + low2);
    assert(v / 65536 == high2);
    assert(high2 % 256 == b2);
    assert(high3 % 256 == b1);
    assert(v == 16777216 * b3 + low3);
    assert(v / 16777216 == b3);
    assert(le_u32(u32_of_le(b0, b1, b2, b3)) =~= seq![b0, b1, b2, b3]);
}

/// A signed value and its bits stand for each other.
pub proof fn lemma_bits_round_trip(a: i8, b: i16, c: i32, x: u8, y: u16, z: u32)
    ensures
        signed_u8(bits_i8(a)) == a,
        signed_u16(bits_i16(b)) == b,
        signed_u32(bits_i32(c)) == c,
        bits_i8(signed_u8(x)) == x,
        bits_i16(signed_u16(y)) == y,
        bits_i32(signed_u32(z)) == z,
{
}

} // verus!
