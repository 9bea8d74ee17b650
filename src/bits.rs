//! The bytes of each unsigned width, least significant first, and the byte
//! reversal, decoding and encoding built on them.

use vstd::prelude::*;

verus! {

/// The two bytes of `x`, least significant first.
pub open spec fn u16_le(x: u16) -> Seq<u8> {
    seq![x as u8, (x >> 8) as u8]
}

/// Two values with the same bytes are equal.
pub proof fn lemma_u16_le_injective(a: u16, b: u16)
    requires
        u16_le(a) == u16_le(b),
    ensures
        a == b,
{
    assert(u16_le(a)[0] == u16_le(b)[0]);
    assert(u16_le(a)[1] == u16_le(b)[1]);
    assert((a as u8 == b as u8 && (a >> 8) as u8 == (b >> 8) as u8) ==> a == b) by (bit_vector);
}

/// `x` with its bytes in reverse order.
pub fn u16_swap(x: u16) -> (r: u16)
    ensures
        u16_le(r) == u16_le(x).reverse(),
{
    let r: u16 = ((x & 0xffu16) << 8u16)
        | (((x >> 8u16) & 0xffu16) << 0u16);
    assert(r as u8 == (x >> 8) as u8 && (r >> 8) as u8 == x as u8) by (bit_vector)
        requires
            r == ((x & 0xffu16) << 8u16)
        | (((x >> 8u16) & 0xffu16) << 0u16),
    ;
    assert(u16_le(r) =~= u16_le(x).reverse());
    r
}

/// The value whose bytes, least significant first, are `bytes[start..start + 2]`.
pub fn u16_from_le(bytes: &[u8], start: usize) -> (r: u16)
    requires
        start + 2 <= bytes@.len(),
    ensures
        u16_le(r) == bytes@.subrange(start as int, start + 2),
{
    let b0: u8 = bytes[start + 0];
    let b1: u8 = bytes[start + 1];
    let r: u16 = (b0 as u16)
        | ((b1 as u16) << 8u16);
    assert(r as u8 == b0 && (r >> 8) as u8 == b1) by (bit_vector)
        requires
            r == (b0 as u16)
        | ((b1 as u16) << 8u16),
    ;
    assert(u16_le(r) =~= bytes@.subrange(start as int, start + 2));
    r
}

/// Appends the bytes of `x`, least significant first.
pub fn u16_push_le(x: u16, out: &mut Vec<u8>)
    ensures
        final(out)@ == old(out)@ + u16_le(x),
{
    out.push(x as u8);
    out.push((x >> 8u16) as u8);
    assert(out@ =~= old(out)@ + u16_le(x));
}

/// The four bytes of `x`, least significant first.
pub open spec fn u32_le(x: u32) -> Seq<u8> {
    seq![x as u8, (x >> 8) as u8, (x >> 16) as u8, (x >> 24) as u8]
}

/// Two values with the same bytes are equal.
pub proof fn lemma_u32_le_injective(a: u32, b: u32)
    requires
        u32_le(a) == u32_le(b),
    ensures
        a == b,
{
    assert(u32_le(a)[0] == u32_le(b)[0]);
    assert(u32_le(a)[1] == u32_le(b)[1]);
    assert(u32_le(a)[2] == u32_le(b)[2]);
    assert(u32_le(a)[3] == u32_le(b)[3]);
    assert((a as u8 == b as u8 && (a >> 8) as u8 == (b >> 8) as u8 && (a >> 16) as u8 == (b >> 16) as u8 && (a >> 24) as u8 == (b >> 24) as u8) ==> a == b) by (bit_vector);
}

/// `x` with its bytes in reverse order.
pub fn u32_swap(x: u32) -> (r: u32)
    ensures
        u32_le(r) == u32_le(x).reverse(),
{
    let r: u32 = ((x & 0xffu32) << 24u32)
        | (((x >> 8u32) & 0xffu32) << 16u32)
        | (((x >> 16u32) & 0xffu32) << 8u32)
        | (((x >> 24u32) & 0xffu32) << 0u32);
    assert(r as u8 == (x >> 24) as u8 && (r >> 8) as u8 == (x >> 16) as u8 && (r >> 16) as u8 == (x >> 8) as u8 && (r >> 24) as u8 == x as u8) by (bit_vector)
        requires
            r == ((x & 0xffu32) << 24u32)
        | (((x >> 8u32) & 0xffu32) << 16u32)
        | (((x >> 16u32) & 0xffu32) << 8u32)
        | (((x >> 24u32) & 0xffu32) << 0u32),
    ;
    assert(u32_le(r) =~= u32_le(x).reverse());
    r
}

/// The value whose bytes, least significant first, are `bytes[start..start + 4]`.
pub fn u32_from_le(bytes: &[u8], start: usize) -> (r: u32)
    requires
        start + 4 <= bytes@.len(),
    ensures
        u32_le(r) == bytes@.subrange(start as int, start + 4),
{
    let b0: u8 = bytes[start + 0];
    let b1: u8 = bytes[start + 1];
    let b2: u8 = bytes[start + 2];
    let b3: u8 = bytes[start + 3];
    let r: u32 = (b0 as u32)
        | ((b1 as u32) << 8u32)
        | ((b2 as u32) << 16u32)
        | ((b3 as u32) << 24u32);
    assert(r as u8 == b0 && (r >> 8) as u8 == b1 && (r >> 16) as u8 == b2 && (r >> 24) as u8 == b3) by (bit_vector)
        requires
            r == (b0 as u32)
        | ((b1 as u32) << 8u32)
        | ((b2 as u32) << 16u32)
        | ((b3 as u32) << 24u32),
    ;
    assert(u32_le(r) =~= bytes@.subrange(start as int, start + 4));
    r
}

/// Appends the bytes of `x`, least significant first.
pub fn u32_push_le(x: u32, out: &mut Vec<u8>)
    ensures
        final(out)@ == old(out)@ + u32_le(x),
{
    out.push(x as u8);
    out.push((x >> 8u32) as u8);
    out.push((x >> 16u32) as u8);
    out.push((x >> 24u32) as u8);
    assert(out@ =~= old(out)@ + u32_le(x));
}

/// The eight bytes of `x`, least significant first.
pub open spec fn u64_le(x: u64) -> Seq<u8> {
    seq![x as u8, (x >> 8) as u8, (x >> 16) as u8, (x >> 24) as u8, (x >> 32) as u8, (x >> 40) as u8, (x >> 48) as u8, (x >> 56) as u8]
}

/// Two values with the same bytes are equal.
pub proof fn lemma_u64_le_injective(a: u64, b: u64)
    requires
        u64_le(a) == u64_le(b),
    ensures
        a == b,
{
    assert(u64_le(a)[0] == u64_le(b)[0]);
    assert(u64_le(a)[1] == u64_le(b)[1]);
    assert(u64_le(a)[2] == u64_le(b)[2]);
    assert(u64_le(a)[3] == u64_le(b)[3]);
    assert(u64_le(a)[4] == u64_le(b)[4]);
    assert(u64_le(a)[5] == u64_le(b)[5]);
    assert(u64_le(a)[6] == u64_le(b)[6]);
    assert(u64_le(a)[7] == u64_le(b)[7]);
    assert((a as u8 == b as u8 && (a >> 8) as u8 == (b >> 8) as u8 && (a >> 16) as u8 == (b >> 16) as u8 && (a >> 24) as u8 == (b >> 24) as u8 && (a >> 32) as u8 == (b >> 32) as u8 && (a >> 40) as u8 == (b >> 40) as u8 && (a >> 48) as u8 == (b >> 48) as u8 && (a >> 56) as u8 == (b >> 56) as u8) ==> a == b) by (bit_vector);
}

/// `x` with its bytes in reverse order.
pub fn u64_swap(x: u64) -> (r: u64)
    ensures
        u64_le(r) == u64_le(x).reverse(),
{
    let r: u64 = ((x & 0xffu64) << 56u64)
        | (((x >> 8u64) & 0xffu64) << 48u64)
        | (((x >> 16u64) & 0xffu64) << 40u64)
        | (((x >> 24u64) & 0xffu64) << 32u64)
        | (((x >> 32u64) & 0xffu64) << 24u64)
        | (((x >> 40u64) & 0xffu64) << 16u64)
        | (((x >> 48u64) & 0xffu64) << 8u64)
        | (((x >> 56u64) & 0xffu64) << 0u64);
    assert(r as u8 == (x >> 56) as u8 && (r >> 8) as u8 == (x >> 48) as u8 && (r >> 16) as u8 == (x >> 40) as u8 && (r >> 24) as u8 == (x >> 32) as u8 && (r >> 32) as u8 == (x >> 24) as u8 && (r >> 40) as u8 == (x >> 16) as u8 && (r >> 48) as u8 == (x >> 8) as u8 && (r >> 56) as u8 == x as u8) by (bit_vector)
        requires
            r == ((x & 0xffu64) << 56u64)
        | (((x >> 8u64) & 0xffu64) << 48u64)
        | (((x >> 16u64) & 0xffu64) << 40u64)
        | (((x >> 24u64) & 0xffu64) << 32u64)
        | (((x >> 32u64) & 0xffu64) << 24u64)
        | (((x >> 40u64) & 0xffu64) << 16u64)
        | (((x >> 48u64) & 0xffu64) << 8u64)
        | (((x >> 56u64) & 0xffu64) << 0u64),
    ;
    assert(u64_le(r) =~= u64_le(x).reverse());
    r
}

/// The value whose bytes, least significant first, are `bytes[start..start + 8]`.
pub fn u64_from_le(bytes: &[u8], start: usize) -> (r: u64)
    requires
        start + 8 <= bytes@.len(),
    ensures
        u64_le(r) == bytes@.subrange(start as int, start + 8),
{
    let b0: u8 = bytes[start + 0];
    let b1: u8 = bytes[start + 1];
    let b2: u8 = bytes[start + 2];
    let b3: u8 = bytes[start + 3];
    let b4: u8 = bytes[start + 4];
    let b5: u8 = bytes[start + 5];
    let b6: u8 = bytes[start + 6];
    let b7: u8 = bytes[start + 7];
    let r: u64 = (b0 as u64)
        | ((b1 as u64) << 8u64)
        | ((b2 as u64) << 16u64)
        | ((b3 as u64) << 24u64)
        | ((b4 as u64) << 32u64)
        | ((b5 as u64) << 40u64)
        | ((b6 as u64) << 48u64)
        | ((b7 as u64) << 56u64);
    assert(r as u8 == b0 && (r >> 8) as u8 == b1 && (r >> 16) as u8 == b2 && (r >> 24) as u8 == b3 && (r >> 32) as u8 == b4 && (r >> 40) as u8 == b5 && (r >> 48) as u8 == b6 && (r >> 56) as u8 == b7) by (bit_vector)
        requires
            r == (b0 as u64)
        | ((b1 as u64) << 8u64)
        | ((b2 as u64) << 16u64)
        | ((b3 as u64) << 24u64)
        | ((b4 as u64) << 32u64)
        | ((b5 as u64) << 40u64)
        | ((b6 as u64) << 48u64)
        | ((b7 as u64) << 56u64),
    ;
    assert(u64_le(r) =~= bytes@.subrange(start as int, start + 8));
    r
}

/// Appends the bytes of `x`, least significant first.
pub fn u64_push_le(x: u64, out: &mut Vec<u8>)
    ensures
        final(out)@ == old(out)@ + u64_le(x),
{
    out.push(x as u8);
    out.push((x >> 8u64) as u8);
    out.push((x >> 16u64) as u8);
    out.push((x >> 24u64) as u8);
    out.push((x >> 32u64) as u8);
    out.push((x >> 40u64) as u8);
    out.push((x >> 48u64) as u8);
    out.push((x >> 56u64) as u8);
    assert(out@ =~= old(out)@ + u64_le(x));
}

/// The sixteen bytes of `x`, least significant first.
pub open spec fn u128_le(x: u128) -> Seq<u8> {
    seq![x as u8, (x >> 8) as u8, (x >> 16) as u8, (x >> 24) as u8, (x >> 32) as u8, (x >> 40) as u8, (x >> 48) as u8, (x >> 56) as u8, (x >> 64) as u8, (x >> 72) as u8, (x >> 80) as u8, (x >> 88) as u8, (x >> 96) as u8, (x >> 104) as u8, (x >> 112) as u8, (x >> 120) as u8]
}

/// Two values with the same bytes are equal.
pub proof fn lemma_u128_le_injective(a: u128, b: u128)
    requires
        u128_le(a) == u128_le(b),
    ensures
        a == b,
{
    assert(u128_le(a)[0] == u128_le(b)[0]);
    assert(u128_le(a)[1] == u128_le(b)[1]);
    assert(u128_le(a)[2] == u128_le(b)[2]);
    assert(u128_le(a)[3] == u128_le(b)[3]);
    assert(u128_le(a)[4] == u128_le(b)[4]);
    assert(u128_le(a)[5] == u128_le(b)[5]);
    assert(u128_le(a)[6] == u128_le(b)[6]);
    assert(u128_le(a)[7] == u128_le(b)[7]);
    assert(u128_le(a)[8] == u128_le(b)[8]);
    assert(u128_le(a)[9] == u128_le(b)[9]);
    assert(u128_le(a)[10] == u128_le(b)[10]);
    assert(u128_le(a)[11] == u128_le(b)[11]);
    assert(u128_le(a)[12] == u128_le(b)[12]);
    assert(u128_le(a)[13] == u128_le(b)[13]);
    assert(u128_le(a)[14] == u128_le(b)[14]);
    assert(u128_le(a)[15] == u128_le(b)[15]);
    assert((a as u8 == b as u8 && (a >> 8) as u8 == (b >> 8) as u8 && (a >> 16) as u8 == (b >> 16) as u8 && (a >> 24) as u8 == (b >> 24) as u8 && (a >> 32) as u8 == (b >> 32) as u8 && (a >> 40) as u8 == (b >> 40) as u8 && (a >> 48) as u8 == (b >> 48) as u8 && (a >> 56) as u8 == (b >> 56) as u8 && (a >> 64) as u8 == (b >> 64) as u8 && (a >> 72) as u8 == (b >> 72) as u8 && (a >> 80) as u8 == (b >> 80) as u8 && (a >> 88) as u8 == (b >> 88) as u8 && (a >> 96) as u8 == (b >> 96) as u8 && (a >> 104) as u8 == (b >> 104) as u8 && (a >> 112) as u8 == (b >> 112) as u8 && (a >> 120) as u8 == (b >> 120) as u8) ==> a == b) by (bit_vector);
}

/// `x` with its bytes in reverse order.
pub fn u128_swap(x: u128) -> (r: u128)
    ensures
        u128_le(r) == u128_le(x).reverse(),
{
    let r: u128 = ((x & 0xffu128) << 120u128)
        | (((x >> 8u128) & 0xffu128) << 112u128)
        | (((x >> 16u128) & 0xffu128) << 104u128)
        | (((x >> 24u128) & 0xffu128) << 96u128)
        | (((x >> 32u128) & 0xffu128) << 88u128)
        | (((x >> 40u128) & 0xffu128) << 80u128)
        | (((x >> 48u128) & 0xffu128) << 72u128)
        | (((x >> 56u128) & 0xffu128) << 64u128)
        | (((x >> 64u128) & 0xffu128) << 56u128)
        | (((x >> 72u128) & 0xffu128) << 48u128)
        | (((x >> 80u128) & 0xffu128) << 40u128)
        | (((x >> 88u128) & 0xffu128) << 32u128)
        | (((x >> 96u128) & 0xffu128) << 24u128)
        | (((x >> 104u128) & 0xffu128) << 16u128)
        | (((x >> 112u128) & 0xffu128) << 8u128)
        | (((x >> 120u128) & 0xffu128) << 0u128);
    assert(r as u8 == (x >> 120) as u8 && (r >> 8) as u8 == (x >> 112) as u8 && (r >> 16) as u8 == (x >> 104) as u8 && (r >> 24) as u8 == (x >> 96) as u8 && (r >> 32) as u8 == (x >> 88) as u8 && (r >> 40) as u8 == (x >> 80) as u8 && (r >> 48) as u8 == (x >> 72) as u8 && (r >> 56) as u8 == (x >> 64) as u8 && (r >> 64) as u8 == (x >> 56) as u8 && (r >> 72) as u8 == (x >> 48) as u8 && (r >> 80) as u8 == (x >> 40) as u8 && (r >> 88) as u8 == (x >> 32) as u8 && (r >> 96) as u8 == (x >> 24) as u8 && (r >> 104) as u8 == (x >> 16) as u8 && (r >> 112) as u8 == (x >> 8) as u8 && (r >> 120) as u8 == x as u8) by (bit_vector)
        requires
            r == ((x & 0xffu128) << 120u128)
        | (((x >> 8u128) & 0xffu128) << 112u128)
        | (((x >> 16u128) & 0xffu128) << 104u128)
        | (((x >> 24u128) & 0xffu128) << 96u128)
        | (((x >> 32u128) & 0xffu128) << 88u128)
        | (((x >> 40u128) & 0xffu128) << 80u128)
        | (((x >> 48u128) & 0xffu128) << 72u128)
        | (((x >> 56u128) & 0xffu128) << 64u128)
        | (((x >> 64u128) & 0xffu128) << 56u128)
        | (((x >> 72u128) & 0xffu128) << 48u128)
        | (((x >> 80u128) & 0xffu128) << 40u128)
        | (((x >> 88u128) & 0xffu128) << 32u128)
        | (((x >> 96u128) & 0xffu128) << 24u128)
        | (((x >> 104u128) & 0xffu128) << 16u128)
        | (((x >> 112u128) & 0xffu128) << 8u128)
        | (((x >> 120u128) & 0xffu128) << 0u128),
    ;
    assert(u128_le(r) =~= u128_le(x).reverse());
    r
}

/// The value whose bytes, least significant first, are `bytes[start..start + 16]`.
pub fn u128_from_le(bytes: &[u8], start: usize) -> (r: u128)
    requires
        start + 16 <= bytes@.len(),
    ensures
        u128_le(r) == bytes@.subrange(start as int, start + 16),
{
    let b0: u8 = bytes[start + 0];
    let b1: u8 = bytes[start + 1];
    let b2: u8 = bytes[start + 2];
    let b3: u8 = bytes[start + 3];
    let b4: u8 = bytes[start + 4];
    let b5: u8 = bytes[start + 5];
    let b6: u8 = bytes[start + 6];
    let b7: u8 = bytes[start + 7];
    let b8: u8 = bytes[start + 8];
    let b9: u8 = bytes[start + 9];
    let b10: u8 = bytes[start + 10];
    let b11: u8 = bytes[start + 11];
    let b12: u8 = bytes[start + 12];
    let b13: u8 = bytes[start + 13];
    let b14: u8 = bytes[start + 14];
    let b15: u8 = bytes[start + 15];
    let r: u128 = (b0 as u128)
        | ((b1 as u128) << 8u128)
        | ((b2 as u128) << 16u128)
        | ((b3 as u128) << 24u128)
        | ((b4 as u128) << 32u128)
        | ((b5 as u128) << 40u128)
        | ((b6 as u128) << 48u128)
        | ((b7 as u128) << 56u128)
        | ((b8 as u128) << 64u128)
        | ((b9 as u128) << 72u128)
        | ((b10 as u128) << 80u128)
        | ((b11 as u128) << 88u128)
        | ((b12 as u128) << 96u128)
        | ((b13 as u128) << 104u128)
        | ((b14 as u128) << 112u128)
        | ((b15 as u128) << 120u128);
    assert(r as u8 == b0 && (r >> 8) as u8 == b1 && (r >> 16) as u8 == b2 && (r >> 24) as u8 == b3 && (r >> 32) as u8 == b4 && (r >> 40) as u8 == b5 && (r >> 48) as u8 == b6 && (r >> 56) as u8 == b7 && (r >> 64) as u8 == b8 && (r >> 72) as u8 == b9 && (r >> 80) as u8 == b10 && (r >> 88) as u8 == b11 && (r >> 96) as u8 == b12 && (r >> 104) as u8 == b13 && (r >> 112) as u8 == b14 && (r >> 120) as u8 == b15) by (bit_vector)
        requires
            r == (b0 as u128)
        | ((b1 as u128) << 8u128)
        | ((b2 as u128) << 16u128)
        | ((b3 as u128) << 24u128)
        | ((b4 as u128) << 32u128)
        | ((b5 as u128) << 40u128)
        | ((b6 as u128) << 48u128)
        | ((b7 as u128) << 56u128)
        | ((b8 as u128) << 64u128)
        | ((b9 as u128) << 72u128)
        | ((b10 as u128) << 80u128)
        | ((b11 as u128) << 88u128)
        | ((b12 as u128) << 96u128)
        | ((b13 as u128) << 104u128)
        | ((b14 as u128) << 112u128)
        | ((b15 as u128) << 120u128),
    ;
    assert(u128_le(r) =~= bytes@.subrange(start as int, start + 16));
    r
}

/// Appends the bytes of `x`, least significant first.
pub fn u128_push_le(x: u128, out: &mut Vec<u8>)
    ensures
        final(out)@ == old(out)@ + u128_le(x),
{
    out.push(x as u8);
    out.push((x >> 8u128) as u8);
    out.push((x >> 16u128) as u8);
    out.push((x >> 24u128) as u8);
    out.push((x >> 32u128) as u8);
    out.push((x >> 40u128) as u8);
    out.push((x >> 48u128) as u8);
    out.push((x >> 56u128) as u8);
    out.push((x >> 64u128) as u8);
    out.push((x >> 72u128) as u8);
    out.push((x >> 80u128) as u8);
    out.push((x >> 88u128) as u8);
    out.push((x >> 96u128) as u8);
    out.push((x >> 104u128) as u8);
    out.push((x >> 112u128) as u8);
    out.push((x >> 120u128) as u8);
    assert(out@ =~= old(out)@ + u128_le(x));
}

} // verus!
