//! Big-endian wire primitives: the byte encodings of the fixed-width
//! integers, the functions that read them back, and the lemmas tying the two
//! directions together.

use vstd::prelude::*;

verus! {

/// True when `n` bytes can be read from `b` at position `p`.
pub open spec fn can_read(b: Seq<u8>, p: int, n: int) -> bool {
    0 <= p && 0 <= n && p + n <= b.len()
}

/// Big-endian bytes of a 16-bit value.
pub open spec fn be2(x: u16) -> Seq<u8> {
    seq![(x / 256) as u8, (x % 256) as u8]
}

/// Big-endian bytes of a 32-bit value.
pub open spec fn be4(x: u32) -> Seq<u8> {
    be2((x / 65536) as u16) + be2((x % 65536) as u16)
}

/// Big-endian bytes of a 64-bit value.
pub open spec fn be8(x: u64) -> Seq<u8> {
    be4((x / 0x1_0000_0000) as u32) + be4((x % 0x1_0000_0000) as u32)
}

/// The 16-bit value held big-endian at position `p` of `b`.
pub open spec fn u16_at(b: Seq<u8>, p: int) -> u16
    recommends
        can_read(b, p, 2),
{
    (b[p] as int * 256 + b[p + 1] as int) as u16
}

/// The 32-bit value held big-endian at position `p` of `b`.
pub open spec fn u32_at(b: Seq<u8>, p: int) -> u32
    recommends
        can_read(b, p, 4),
{
    (u16_at(b, p) as int * 65536 + u16_at(b, p + 2) as int) as u32
}

/// The 64-bit value held big-endian at position `p` of `b`.
pub open spec fn u64_at(b: Seq<u8>, p: int) -> u64
    recommends
        can_read(b, p, 8),
{
    (u32_at(b, p) as int * 0x1_0000_0000 + u32_at(b, p + 4) as int) as u64
}

/// The signed reading of an unsigned 16-bit value (two's complement).
pub open spec fn i16_of_u16(x: u16) -> i16 {
    if x < 0x8000 {
        x as i16
    } else {
        (x as int - 0x1_0000) as i16
    }
}

/// The unsigned carrier of a signed 16-bit value (two's complement).
pub open spec fn u16_of_i16(x: i16) -> u16 {
    if x >= 0 {
        x as u16
    } else {
        (x as int + 0x1_0000) as u16
    }
}

/// The signed reading of an unsigned 32-bit value (two's complement).
pub open spec fn i32_of_u32(x: u32) -> i32 {
    if x < 0x8000_0000 {
        x as i32
    } else {
        (x as int - 0x1_0000_0000) as i32
    }
}

/// The unsigned carrier of a signed 32-bit value (two's complement).
pub open spec fn u32_of_i32(x: i32) -> u32 {
    if x >= 0 {
        x as u32
    } else {
        (x as int + 0x1_0000_0000) as u32
    }
}

/// The signed reading of an unsigned 64-bit value (two's complement).
pub open spec fn i64_of_u64(x: u64) -> i64 {
    if x < 0x8000_0000_0000_0000 {
        x as i64
    } else {
        (x as int - 0x1_0000_0000_0000_0000) as i64
    }
}

/// The unsigned carrier of a signed 64-bit value (two's complement).
pub open spec fn u64_of_i64(x: i64) -> u64 {
    if x >= 0 {
        x as u64
    } else {
        (x as int + 0x1_0000_0000_0000_0000) as u64
    }
}

/// The two signed/unsigned views are inverse to one another.
pub proof fn lemma_signed_carriers(a: u16, b: u32, c: u64, x: i16, y: i32, z: i64)
    ensures
        i16_of_u16(u16_of_i16(x)) == x,
        u16_of_i16(i16_of_u16(a)) == a,
        i32_of_u32(u32_of_i32(y)) == y,
        u32_of_i32(i32_of_u32(b)) == b,
        i64_of_u64(u64_of_i64(z)) == z,
        u64_of_i64(i64_of_u64(c)) == c,
{
}

/// Reading back the two big-endian bytes of a 16-bit value yields the value.
pub proof fn lemma_be2_at(b: Seq<u8>, p: int, x: u16)
    requires
        can_read(b, p, 2),
        b.subrange(p, p + 2) =~= be2(x),
    ensures
        u16_at(b, p) == x,
{
    assert(b[p] == be2(x)[0]);
    assert(b[p + 1] == be2(x)[1]);
}

/// Reading back the four big-endian bytes of a 32-bit value yields the value.
pub proof fn lemma_be4_at(b: Seq<u8>, p: int, x: u32)
    requires
        can_read(b, p, 4),
        b.subrange(p, p + 4) =~= be4(x),
    ensures
        u32_at(b, p) == x,
{
    let hi = (x / 65536) as u16;
    let lo = (x % 65536) as u16;
    assert(be2(hi).len() == 2 && be2(lo).len() == 2);
    assert forall|i: int| 0 <= i < 2 implies b.subrange(p, p + 2)[i] == be2(hi)[i] by {
        assert(b.subrange(p, p + 2)[i] == b[p + i]);
        assert(b[p + i] == b.subrange(p, p + 4)[i]);
        assert(be4(x)[i] == (be2(hi) + be2(lo))[i]);
    }
    assert forall|i: int| 0 <= i < 2 implies b.subrange(p + 2, p + 4)[i] == be2(lo)[i] by {
        assert(b.subrange(p + 2, p + 4)[i] == b[p + 2 + i]);
        assert(b[p + 2 + i] == b.subrange(p, p + 4)[2 + i]);
        assert(be4(x)[2 + i] == (be2(hi) + be2(lo))[2 + i]);
    }
    assert(b.subrange(p, p + 2) =~= be2(hi));
    assert(b.subrange(p + 2, p + 4) =~= be2(lo));
    lemma_be2_at(b, p, hi);
    lemma_be2_at(b, p + 2, lo);
}

/// Reading back the eight big-endian bytes of a 64-bit value yields the value.
pub proof fn lemma_be8_at(b: Seq<u8>, p: int, x: u64)
    requires
        can_read(b, p, 8),
        b.subrange(p, p + 8) =~= be8(x),
    ensures
        u64_at(b, p) == x,
{
    let hi = (x / 0x1_0000_0000) as u32;
    let lo = (x % 0x1_0000_0000) as u32;
    assert(be4(hi).len() == 4 && be4(lo).len() == 4);
    assert forall|i: int| 0 <= i < 4 implies b.subrange(p, p + 4)[i] == be4(hi)[i] by {
        assert(b.subrange(p, p + 4)[i] == b[p + i]);
        assert(b[p + i] == b.subrange(p, p + 8)[i]);
        assert(be8(x)[i] == (be4(hi) + be4(lo))[i]);
    }
    assert forall|i: int| 0 <= i < 4 implies b.subrange(p + 4, p + 8)[i] == be4(lo)[i] by {
        assert(b.subrange(p + 4, p + 8)[i] == b[p + 4 + i]);
        assert(b[p + 4 + i] == b.subrange(p, p + 8)[4 + i]);
        assert(be8(x)[4 + i] == (be4(hi) + be4(lo))[4 + i]);
    }
    assert(b.subrange(p, p + 4) =~= be4(hi));
    assert(b.subrange(p + 4, p + 8) =~= be4(lo));
    lemma_be4_at(b, p, hi);
    lemma_be4_at(b, p + 4, lo);
}

} // verus!
