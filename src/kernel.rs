//! The chunked byte-swap kernel for sequences of 32-bit numbers (the bit
//! patterns of single-precision floats): the bytes go through one fixed
//! shuffle per 32-byte chunk, which reverses each 4-byte lane, and a
//! trailing part shorter than a chunk goes through a zero-padded scratch
//! chunk of which only the valid prefix is copied back.

use vstd::prelude::*;
use crate::endian::{Endian, FixedWidth};
use crate::io::bytes::slice_as_bytes;
use crate::laws::lemma_elements_byte_count;
use crate::order::{ByteOrder, lemma_laid_out_opposite, native_order};

verus! {

/// The number of bytes that one shuffle handles.
pub const CHUNK: usize = 32;

/// The position whose byte lands at `i` when each 4-byte lane is reversed.
pub open spec fn lane_partner(i: int) -> int {
    i - i % 4 + (3 - i % 4)
}

/// `s` with the bytes of each 4-byte lane in reverse order.
pub open spec fn lanes_reversed(s: Seq<u8>) -> Seq<u8> {
    Seq::new(s.len(), |i: int| s[lane_partner(i)])
}

proof fn lemma_lane_partner(start: int, k: int)
    requires
        start % 4 == 0,
        0 <= k,
        0 <= start,
    ensures
        lane_partner(start + k) == start + lane_partner(k),
        0 <= lane_partner(k) < k - k % 4 + 4,
{
    assert((start + k) % 4 == k % 4);
}

/// One shuffle of a whole chunk: each 4-byte lane reversed.
fn shuffle(chunk: &[u8; 32]) -> (r: [u8; 32])
    ensures
        r@ == lanes_reversed(chunk@),
{
    let mut r = [0u8; 32];
    let mut k: usize = 0;
    while k < CHUNK
        invariant
            0 <= k <= 32,
            r@.len() == 32,
            chunk@.len() == 32,
            forall|j: int| 0 <= j < k ==> #[trigger] r@[j] == chunk@[lane_partner(j)],
        decreases 32 - k,
    {
        proof {
            lemma_lane_partner(0, k as int);
        }
        r[k] = chunk[k - k % 4 + (3 - k % 4)];
        k = k + 1;
    }
    assert(r@ =~= lanes_reversed(chunk@));
    r
}

/// Reverses each 4-byte lane of `bytes[start..start + len]` through a
/// zero-padded scratch chunk, leaving the other bytes alone.
fn shuffle_part(bytes: &mut [u8], start: usize, len: usize)
    requires
        start + len <= old(bytes)@.len(),
        len <= 32,
        len % 4 == 0,
        start % 4 == 0,
    ensures
        final(bytes)@.len() == old(bytes)@.len(),
        forall|i: int|
            #![trigger final(bytes)@[i]]
            0 <= i < old(bytes)@.len() ==> final(bytes)@[i] == if start <= i < start + len {
                old(bytes)@[lane_partner(i)]
            } else {
                old(bytes)@[i]
            },
{
    let mut scratch = [0u8; 32];
    let mut k: usize = 0;
    while k < len
        invariant
            0 <= k <= len,
            len <= 32,
            scratch@.len() == 32,
            bytes@ == old(bytes)@,
            start + len <= bytes@.len(),
            forall|j: int| 0 <= j < k ==> #[trigger] scratch@[j] == bytes@[start + j],
        decreases len - k,
    {
        scratch[k] = bytes[start + k];
        k = k + 1;
    }
    let shuffled = shuffle(&scratch);
    let n: usize = bytes.len();
    let mut k: usize = 0;
    while k < len
        invariant
            0 <= k <= len,
            len <= 32,
            len % 4 == 0,
            start % 4 == 0,
            start + len <= old(bytes)@.len(),
            start + len <= n,
            n == bytes@.len(),
            bytes@.len() == old(bytes)@.len(),
            shuffled@ == lanes_reversed(scratch@),
            forall|j: int| 0 <= j < len ==> #[trigger] scratch@[j] == old(bytes)@[start + j],
            forall|i: int|
                #![trigger bytes@[i]]
                0 <= i < bytes@.len() ==> bytes@[i] == if start <= i < start + k {
                    old(bytes)@[lane_partner(i)]
                } else {
                    old(bytes)@[i]
                },
        decreases len - k,
    {
        proof {
            lemma_lane_partner(start as int, k as int);
            assert(lane_partner(k as int) < len) by {
                assert(len - len % 4 == len);
                assert(k < len);
                assert(k - k % 4 + 4 <= len);
            }
        }
        bytes[start + k] = shuffled[k];
        k = k + 1;
    }
}

/// Reverses each 4-byte lane of `bytes`, one 32-byte chunk at a time.
pub fn reverse_lanes(bytes: &mut [u8])
    requires
        old(bytes)@.len() % 4 == 0,
    ensures
        final(bytes)@ == lanes_reversed(old(bytes)@),
{
    let n = bytes.len();
    let mut start: usize = 0;
    while start < n
        invariant
            start % 4 == 0,
            start <= n,
            n % 4 == 0,
            n == bytes@.len(),
            bytes@.len() == old(bytes)@.len(),
            forall|i: int|
                #![trigger bytes@[i]]
                0 <= i < n ==> bytes@[i] == if i < start {
                    old(bytes)@[lane_partner(i)]
                } else {
                    old(bytes)@[i]
                },
        decreases n - start,
    {
        let len: usize = if n - start < CHUNK {
            n - start
        } else {
            CHUNK
        };
        let ghost before = bytes@;
        shuffle_part(bytes, start, len);
        proof {
            assert forall|i: int| 0 <= i < n implies #[trigger] bytes@[i] == if i < start + len {
                old(bytes)@[lane_partner(i)]
            } else {
                old(bytes)@[i]
            } by {
                if start <= i < start + len {
                    lemma_lane_partner(start as int, i - start);
                    lemma_lane_partner(0, i - start);
                }
            }
        }
        start = start + len;
    }
    assert(bytes@ =~= lanes_reversed(old(bytes)@));
}

proof fn lemma_lanes_reversed_append(a: Seq<u8>, b: Seq<u8>)
    requires
        a.len() % 4 == 0,
        b.len() == 4,
    ensures
        lanes_reversed(a + b) == lanes_reversed(a) + b.reverse(),
{
    assert forall|i: int| 0 <= i < a.len() + 4 implies #[trigger] lanes_reversed(a + b)[i] == (
    lanes_reversed(a) + b.reverse())[i] by {
        if i < a.len() {
            lemma_lane_partner(0, i);
            assert(i - i % 4 + 4 <= a.len());
        } else {
            lemma_lane_partner(a.len() as int, i - a.len());
            lemma_lane_partner(0, i - a.len());
        }
    }
    assert(lanes_reversed(a + b) =~= lanes_reversed(a) + b.reverse());
}

/// Reversing each 4-byte lane of the layout of 32-bit numbers in one order
/// gives their layout in the other order.
pub proof fn lemma_lanes_reversed_u32s(v: Seq<u32>, order: ByteOrder)
    ensures
        lanes_reversed(v.map_values(|x: u32| x.bytes_in(order)).flatten()) == v.map_values(
            |x: u32| x.bytes_in(order.opposite()),
        ).flatten(),
    decreases v.len(),
{
    let f = |x: u32| x.bytes_in(order);
    let g = |x: u32| x.bytes_in(order.opposite());
    if v.len() == 0 {
        assert(v.map_values(f) =~= Seq::<Seq<u8>>::empty());
        assert(v.map_values(g) =~= Seq::<Seq<u8>>::empty());
        assert(lanes_reversed(Seq::<u8>::empty()) =~= Seq::<u8>::empty());
    } else {
        let n = v.len() - 1;
        let x = v[n];
        lemma_lanes_reversed_u32s(v.drop_last(), order);
        assert(v.map_values(f) =~= v.drop_last().map_values(f).push(x.bytes_in(order)));
        assert(v.map_values(g) =~= v.drop_last().map_values(g).push(x.bytes_in(order.opposite())));
        v.drop_last().map_values(f).lemma_flatten_push(x.bytes_in(order));
        v.drop_last().map_values(g).lemma_flatten_push(x.bytes_in(order.opposite()));
        lemma_elements_byte_count(v.drop_last(), order);
        assert(n * 4 % 4 == 0) by (nonlinear_arith);
        x.lemma_bytes_in_len(order);
        lemma_lanes_reversed_append(v.drop_last().map_values(f).flatten(), x.bytes_in(order));
        lemma_laid_out_opposite(crate::bits::u32_le(x), order);
    }
}

/// Appends the bytes of `values` with the bytes of each number in the order
/// opposite to the machine's, by shuffling the machine's own layout chunk by
/// chunk.
pub fn write_u32s_swapped(out: &mut Vec<u8>, values: &[u32])
    ensures
        final(out)@ == old(out)@ + values.bytes_in(native_order().opposite()),
{
    let mut bytes = slice_as_bytes(values);
    proof {
        lemma_elements_byte_count(values@, native_order());
        assert(values@.len() * 4 % 4 == 0) by (nonlinear_arith);
        lemma_lanes_reversed_u32s(values@, native_order());
    }
    reverse_lanes(bytes.as_mut_slice());
    let mut k: usize = 0;
    let ghost start = out@;
    while k < bytes.len()
        invariant
            0 <= k <= bytes@.len(),
            out@ == start + bytes@.take(k as int),
        decreases bytes@.len() - k,
    {
        out.push(bytes[k]);
        assert(bytes@.take(k + 1) =~= bytes@.take(k as int).push(bytes@[k as int]));
        k = k + 1;
    }
    assert(bytes@.take(bytes@.len() as int) =~= bytes@);
}

} // verus!
