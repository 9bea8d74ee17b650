//! The conversion capability for each integer type. A signed integer shares
//! the bytes, and so the reversal, of the unsigned integer of its width.

use vstd::prelude::*;
use crate::bits::{
    lemma_u128_le_injective, lemma_u16_le_injective, lemma_u32_le_injective, lemma_u64_le_injective,
    u128_from_le, u128_le, u128_push_le, u128_swap, u16_from_le, u16_le, u16_push_le, u16_swap,
    u32_from_le, u32_le, u32_push_le, u32_swap, u64_from_le, u64_le, u64_push_le, u64_swap,
};
use crate::endian::{Endian, FixedWidth};
use crate::order::{ByteOrder, laid_out, lemma_laid_out_opposite};

verus! {

impl Endian for u8 {
    open spec fn bytes_in(&self, order: ByteOrder) -> Seq<u8> {
        laid_out(seq![*self], order)
    }

    open spec fn is_reordered(&self, from: &Self, swapped: bool) -> bool {
        if swapped {
            self.bytes_in(ByteOrder::Little) == from.bytes_in(ByteOrder::Big)
        } else {
            *self == *from
        }
    }

    proof fn lemma_reordered_refl(&self) {
    }

    proof fn lemma_reordered_unchanged(&self, from: &Self) {
    }

    proof fn lemma_reordered_twice(&self, mid: &Self, from: &Self, swapped: bool) {
        if swapped {
            let a: u8 = *self;
            let b: u8 = *from;
            assert(seq![a].reverse().reverse() =~= seq![a]);
            assert(seq![a][0] == seq![b][0]);
        }
    }

    proof fn lemma_reordered_bytes(&self, from: &Self, swapped: bool, order: ByteOrder) {
        lemma_laid_out_opposite(seq![*self], ByteOrder::Little);
        lemma_laid_out_opposite(seq![*from], ByteOrder::Little);
        assert(seq![*from].reverse().reverse() =~= seq![*from]);
    }

    fn swap_bytes(&mut self) {
        assert(seq![*self].reverse() =~= seq![*self]);
    }
}

impl FixedWidth for u8 {
    open spec fn width() -> nat {
        1
    }

    proof fn lemma_bytes_in_len(&self, order: ByteOrder) {
    }

    proof fn lemma_bytes_in_injective(&self, other: &Self, order: ByteOrder) {
        let a: u8 = *self;
        let b: u8 = *other;
        assert(seq![a].reverse() =~= seq![a]);
        assert(seq![b].reverse() =~= seq![b]);
        assert(self.bytes_in(order) =~= seq![a]);
        assert(other.bytes_in(order) =~= seq![b]);
        assert(seq![a][0] == seq![b][0]);
    }

    fn byte_width() -> (r: usize) {
        1
    }

    fn from_bytes_at(bytes: &[u8], start: usize, order: ByteOrder) -> (r: Self) {
        let r: u8 = bytes[start];
        assert(seq![r].reverse() =~= seq![r]);
        assert(bytes@.subrange(start as int, start + 1) =~= seq![r]);
        r
    }

    fn append_bytes_in(&self, order: ByteOrder, out: &mut Vec<u8>) {
        out.push(*self);
        assert(seq![*self].reverse() =~= seq![*self]);
        assert(out@ =~= old(out)@ + self.bytes_in(order));
    }
}

impl Endian for i8 {
    open spec fn bytes_in(&self, order: ByteOrder) -> Seq<u8> {
        laid_out(seq![*self as u8], order)
    }

    open spec fn is_reordered(&self, from: &Self, swapped: bool) -> bool {
        if swapped {
            self.bytes_in(ByteOrder::Little) == from.bytes_in(ByteOrder::Big)
        } else {
            *self == *from
        }
    }

    proof fn lemma_reordered_refl(&self) {
    }

    proof fn lemma_reordered_unchanged(&self, from: &Self) {
    }

    proof fn lemma_reordered_twice(&self, mid: &Self, from: &Self, swapped: bool) {
        if swapped {
            let a: i8 = *self;
            let b: i8 = *from;
            assert(seq![a as u8].reverse().reverse() =~= seq![a as u8]);
            assert(seq![a as u8][0] == seq![b as u8][0]);
            assert((a as u8 == b as u8) ==> a == b) by (bit_vector);
        }
    }

    proof fn lemma_reordered_bytes(&self, from: &Self, swapped: bool, order: ByteOrder) {
        lemma_laid_out_opposite(seq![*self as u8], ByteOrder::Little);
        lemma_laid_out_opposite(seq![*from as u8], ByteOrder::Little);
        assert(seq![*from as u8].reverse().reverse() =~= seq![*from as u8]);
    }

    fn swap_bytes(&mut self) {
        assert(seq![*self as u8].reverse() =~= seq![*self as u8]);
    }
}

impl FixedWidth for i8 {
    open spec fn width() -> nat {
        1
    }

    proof fn lemma_bytes_in_len(&self, order: ByteOrder) {
    }

    proof fn lemma_bytes_in_injective(&self, other: &Self, order: ByteOrder) {
        let a: i8 = *self;
        let b: i8 = *other;
        assert(seq![a as u8].reverse() =~= seq![a as u8]);
        assert(seq![b as u8].reverse() =~= seq![b as u8]);
        assert(self.bytes_in(order) =~= seq![a as u8]);
        assert(other.bytes_in(order) =~= seq![b as u8]);
        assert(seq![a as u8][0] == seq![b as u8][0]);
        assert((a as u8 == b as u8) ==> a == b) by (bit_vector);
    }

    fn byte_width() -> (r: usize) {
        1
    }

    fn from_bytes_at(bytes: &[u8], start: usize, order: ByteOrder) -> (r: Self) {
        let b: u8 = bytes[start];
        let r: i8 = b as i8;
        assert(seq![r as u8].reverse() =~= seq![r as u8]);
        assert(bytes@.subrange(start as int, start + 1) =~= seq![b]);
        assert((b as i8) as u8 == b) by (bit_vector);
        r
    }

    fn append_bytes_in(&self, order: ByteOrder, out: &mut Vec<u8>) {
        out.push(*self as u8);
        assert(seq![*self as u8].reverse() =~= seq![*self as u8]);
        assert(out@ =~= old(out)@ + self.bytes_in(order));
    }
}

impl Endian for u16 {
    open spec fn bytes_in(&self, order: ByteOrder) -> Seq<u8> {
        laid_out(u16_le(*self), order)
    }

    open spec fn is_reordered(&self, from: &Self, swapped: bool) -> bool {
        if swapped {
            self.bytes_in(ByteOrder::Little) == from.bytes_in(ByteOrder::Big)
        } else {
            *self == *from
        }
    }

    proof fn lemma_reordered_refl(&self) {
    }

    proof fn lemma_reordered_unchanged(&self, from: &Self) {
    }

    proof fn lemma_reordered_twice(&self, mid: &Self, from: &Self, swapped: bool) {
        if swapped {
            assert(u16_le(*self) =~= u16_le(*from));
            lemma_u16_le_injective(*self, *from);
        }
    }

    proof fn lemma_reordered_bytes(&self, from: &Self, swapped: bool, order: ByteOrder) {
        lemma_laid_out_opposite(u16_le(*self), ByteOrder::Little);
        lemma_laid_out_opposite(u16_le(*from), ByteOrder::Little);
        assert(u16_le(*from).reverse().reverse() =~= u16_le(*from));
    }

    fn swap_bytes(&mut self) {
        *self = u16_swap(*self);
    }
}

impl FixedWidth for u16 {
    open spec fn width() -> nat {
        2
    }

    proof fn lemma_bytes_in_len(&self, order: ByteOrder) {
    }

    proof fn lemma_bytes_in_injective(&self, other: &Self, order: ByteOrder) {
        assert(u16_le(*self).reverse().reverse() =~= u16_le(*self));
        assert(u16_le(*other).reverse().reverse() =~= u16_le(*other));
        lemma_u16_le_injective(*self, *other);
    }

    fn byte_width() -> (r: usize) {
        2
    }

    fn from_bytes_at(bytes: &[u8], start: usize, order: ByteOrder) -> (r: Self) {
        let v: u16 = u16_from_le(bytes, start);
        match order {
            ByteOrder::Little => v,
            ByteOrder::Big => {
                let s: u16 = u16_swap(v);
                assert(u16_le(s).reverse() =~= bytes@.subrange(start as int, start + 2));
                s
            },
        }
    }

    fn append_bytes_in(&self, order: ByteOrder, out: &mut Vec<u8>) {
        match order {
            ByteOrder::Little => u16_push_le(*self, out),
            ByteOrder::Big => u16_push_le(u16_swap(*self), out),
        }
    }
}

impl Endian for i16 {
    open spec fn bytes_in(&self, order: ByteOrder) -> Seq<u8> {
        laid_out(u16_le(*self as u16), order)
    }

    open spec fn is_reordered(&self, from: &Self, swapped: bool) -> bool {
        if swapped {
            self.bytes_in(ByteOrder::Little) == from.bytes_in(ByteOrder::Big)
        } else {
            *self == *from
        }
    }

    proof fn lemma_reordered_refl(&self) {
    }

    proof fn lemma_reordered_unchanged(&self, from: &Self) {
    }

    proof fn lemma_reordered_twice(&self, mid: &Self, from: &Self, swapped: bool) {
        if swapped {
            let a: i16 = *self;
            let b: i16 = *from;
            assert(u16_le(a as u16) =~= u16_le(b as u16));
            lemma_u16_le_injective(a as u16, b as u16);
            assert((a as u16 == b as u16) ==> a == b) by (bit_vector);
        }
    }

    proof fn lemma_reordered_bytes(&self, from: &Self, swapped: bool, order: ByteOrder) {
        lemma_laid_out_opposite(u16_le(*self as u16), ByteOrder::Little);
        lemma_laid_out_opposite(u16_le(*from as u16), ByteOrder::Little);
        assert(u16_le(*from as u16).reverse().reverse() =~= u16_le(*from as u16));
    }

    fn swap_bytes(&mut self) {
        let r: u16 = u16_swap(*self as u16);
        assert((r as i16) as u16 == r) by (bit_vector);
        *self = r as i16;
    }
}

impl FixedWidth for i16 {
    open spec fn width() -> nat {
        2
    }

    proof fn lemma_bytes_in_len(&self, order: ByteOrder) {
    }

    proof fn lemma_bytes_in_injective(&self, other: &Self, order: ByteOrder) {
        let a: i16 = *self;
        let b: i16 = *other;
        assert(u16_le(a as u16).reverse().reverse() =~= u16_le(a as u16));
        assert(u16_le(b as u16).reverse().reverse() =~= u16_le(b as u16));
        lemma_u16_le_injective(a as u16, b as u16);
        assert((a as u16 == b as u16) ==> a == b) by (bit_vector);
    }

    fn byte_width() -> (r: usize) {
        2
    }

    fn from_bytes_at(bytes: &[u8], start: usize, order: ByteOrder) -> (r: Self) {
        let v: u16 = u16_from_le(bytes, start);
        assert((v as i16) as u16 == v) by (bit_vector);
        match order {
            ByteOrder::Little => v as i16,
            ByteOrder::Big => {
                let s: u16 = u16_swap(v);
                assert((s as i16) as u16 == s) by (bit_vector);
                assert(u16_le(s).reverse() =~= bytes@.subrange(start as int, start + 2));
                s as i16
            },
        }
    }

    fn append_bytes_in(&self, order: ByteOrder, out: &mut Vec<u8>) {
        match order {
            ByteOrder::Little => u16_push_le(*self as u16, out),
            ByteOrder::Big => u16_push_le(u16_swap(*self as u16), out),
        }
    }
}

impl Endian for u32 {
    open spec fn bytes_in(&self, order: ByteOrder) -> Seq<u8> {
        laid_out(u32_le(*self), order)
    }

    open spec fn is_reordered(&self, from: &Self, swapped: bool) -> bool {
        if swapped {
            self.bytes_in(ByteOrder::Little) == from.bytes_in(ByteOrder::Big)
        } else {
            *self == *from
        }
    }

    proof fn lemma_reordered_refl(&self) {
    }

    proof fn lemma_reordered_unchanged(&self, from: &Self) {
    }

    proof fn lemma_reordered_twice(&self, mid: &Self, from: &Self, swapped: bool) {
        if swapped {
            assert(u32_le(*self) =~= u32_le(*from));
            lemma_u32_le_injective(*self, *from);
        }
    }

    proof fn lemma_reordered_bytes(&self, from: &Self, swapped: bool, order: ByteOrder) {
        lemma_laid_out_opposite(u32_le(*self), ByteOrder::Little);
        lemma_laid_out_opposite(u32_le(*from), ByteOrder::Little);
        assert(u32_le(*from).reverse().reverse() =~= u32_le(*from));
    }

    fn swap_bytes(&mut self) {
        *self = u32_swap(*self);
    }
}

impl FixedWidth for u32 {
    open spec fn width() -> nat {
        4
    }

    proof fn lemma_bytes_in_len(&self, order: ByteOrder) {
    }

    proof fn lemma_bytes_in_injective(&self, other: &Self, order: ByteOrder) {
        assert(u32_le(*self).reverse().reverse() =~= u32_le(*self));
        assert(u32_le(*other).reverse().reverse() =~= u32_le(*other));
        lemma_u32_le_injective(*self, *other);
    }

    fn byte_width() -> (r: usize) {
        4
    }

    fn from_bytes_at(bytes: &[u8], start: usize, order: ByteOrder) -> (r: Self) {
        let v: u32 = u32_from_le(bytes, start);
        match order {
            ByteOrder::Little => v,
            ByteOrder::Big => {
                let s: u32 = u32_swap(v);
                assert(u32_le(s).reverse() =~= bytes@.subrange(start as int, start + 4));
                s
            },
        }
    }

    fn append_bytes_in(&self, order: ByteOrder, out: &mut Vec<u8>) {
        match order {
            ByteOrder::Little => u32_push_le(*self, out),
            ByteOrder::Big => u32_push_le(u32_swap(*self), out),
        }
    }
}

impl Endian for i32 {
    open spec fn bytes_in(&self, order: ByteOrder) -> Seq<u8> {
        laid_out(u32_le(*self as u32), order)
    }

    open spec fn is_reordered(&self, from: &Self, swapped: bool) -> bool {
        if swapped {
            self.bytes_in(ByteOrder::Little) == from.bytes_in(ByteOrder::Big)
        } else {
            *self == *from
        }
    }

    proof fn lemma_reordered_refl(&self) {
    }

    proof fn lemma_reordered_unchanged(&self, from: &Self) {
    }

    proof fn lemma_reordered_twice(&self, mid: &Self, from: &Self, swapped: bool) {
        if swapped {
            let a: i32 = *self;
            let b: i32 = *from;
            assert(u32_le(a as u32) =~= u32_le(b as u32));
            lemma_u32_le_injective(a as u32, b as u32);
            assert((a as u32 == b as u32) ==> a == b) by (bit_vector);
        }
    }

    proof fn lemma_reordered_bytes(&self, from: &Self, swapped: bool, order: ByteOrder) {
        lemma_laid_out_opposite(u32_le(*self as u32), ByteOrder::Little);
        lemma_laid_out_opposite(u32_le(*from as u32), ByteOrder::Little);
        assert(u32_le(*from as u32).reverse().reverse() =~= u32_le(*from as u32));
    }

    fn swap_bytes(&mut self) {
        let r: u32 = u32_swap(*self as u32);
        assert((r as i32) as u32 == r) by (bit_vector);
        *self = r as i32;
    }
}

impl FixedWidth for i32 {
    open spec fn width() -> nat {
        4
    }

    proof fn lemma_bytes_in_len(&self, order: ByteOrder) {
    }

    proof fn lemma_bytes_in_injective(&self, other: &Self, order: ByteOrder) {
        let a: i32 = *self;
        let b: i32 = *other;
        assert(u32_le(a as u32).reverse().reverse() =~= u32_le(a as u32));
        assert(u32_le(b as u32).reverse().reverse() =~= u32_le(b as u32));
        lemma_u32_le_injective(a as u32, b as u32);
        assert((a as u32 == b as u32) ==> a == b) by (bit_vector);
    }

    fn byte_width() -> (r: usize) {
        4
    }

    fn from_bytes_at(bytes: &[u8], start: usize, order: ByteOrder) -> (r: Self) {
        let v: u32 = u32_from_le(bytes, start);
        assert((v as i32) as u32 == v) by (bit_vector);
        match order {
            ByteOrder::Little => v as i32,
            ByteOrder::Big => {
                let s: u32 = u32_swap(v);
                assert((s as i32) as u32 == s) by (bit_vector);
                assert(u32_le(s).reverse() =~= bytes@.subrange(start as int, start + 4));
                s as i32
            },
        }
    }

    fn append_bytes_in(&self, order: ByteOrder, out: &mut Vec<u8>) {
        match order {
            ByteOrder::Little => u32_push_le(*self as u32, out),
            ByteOrder::Big => u32_push_le(u32_swap(*self as u32), out),
        }
    }
}

impl Endian for u64 {
    open spec fn bytes_in(&self, order: ByteOrder) -> Seq<u8> {
        laid_out(u64_le(*self), order)
    }

    open spec fn is_reordered(&self, from: &Self, swapped: bool) -> bool {
        if swapped {
            self.bytes_in(ByteOrder::Little) == from.bytes_in(ByteOrder::Big)
        } else {
            *self == *from
        }
    }

    proof fn lemma_reordered_refl(&self) {
    }

    proof fn lemma_reordered_unchanged(&self, from: &Self) {
    }

    proof fn lemma_reordered_twice(&self, mid: &Self, from: &Self, swapped: bool) {
        if swapped {
            assert(u64_le(*self) =~= u64_le(*from));
            lemma_u64_le_injective(*self, *from);
        }
    }

    proof fn lemma_reordered_bytes(&self, from: &Self, swapped: bool, order: ByteOrder) {
        lemma_laid_out_opposite(u64_le(*self), ByteOrder::Little);
        lemma_laid_out_opposite(u64_le(*from), ByteOrder::Little);
        assert(u64_le(*from).reverse().reverse() =~= u64_le(*from));
    }

    fn swap_bytes(&mut self) {
        *self = u64_swap(*self);
    }
}

impl FixedWidth for u64 {
    open spec fn width() -> nat {
        8
    }

    proof fn lemma_bytes_in_len(&self, order: ByteOrder) {
    }

    proof fn lemma_bytes_in_injective(&self, other: &Self, order: ByteOrder) {
        assert(u64_le(*self).reverse().reverse() =~= u64_le(*self));
        assert(u64_le(*other).reverse().reverse() =~= u64_le(*other));
        lemma_u64_le_injective(*self, *other);
    }

    fn byte_width() -> (r: usize) {
        8
    }

    fn from_bytes_at(bytes: &[u8], start: usize, order: ByteOrder) -> (r: Self) {
        let v: u64 = u64_from_le(bytes, start);
        match order {
            ByteOrder::Little => v,
            ByteOrder::Big => {
                let s: u64 = u64_swap(v);
                assert(u64_le(s).reverse() =~= bytes@.subrange(start as int, start + 8));
                s
            },
        }
    }

    fn append_bytes_in(&self, order: ByteOrder, out: &mut Vec<u8>) {
        match order {
            ByteOrder::Little => u64_push_le(*self, out),
            ByteOrder::Big => u64_push_le(u64_swap(*self), out),
        }
    }
}

impl Endian for i64 {
    open spec fn bytes_in(&self, order: ByteOrder) -> Seq<u8> {
        laid_out(u64_le(*self as u64), order)
    }

    open spec fn is_reordered(&self, from: &Self, swapped: bool) -> bool {
        if swapped {
            self.bytes_in(ByteOrder::Little) == from.bytes_in(ByteOrder::Big)
        } else {
            *self == *from
        }
    }

    proof fn lemma_reordered_refl(&self) {
    }

    proof fn lemma_reordered_unchanged(&self, from: &Self) {
    }

    proof fn lemma_reordered_twice(&self, mid: &Self, from: &Self, swapped: bool) {
        if swapped {
            let a: i64 = *self;
            let b: i64 = *from;
            assert(u64_le(a as u64) =~= u64_le(b as u64));
            lemma_u64_le_injective(a as u64, b as u64);
            assert((a as u64 == b as u64) ==> a == b) by (bit_vector);
        }
    }

    proof fn lemma_reordered_bytes(&self, from: &Self, swapped: bool, order: ByteOrder) {
        lemma_laid_out_opposite(u64_le(*self as u64), ByteOrder::Little);
        lemma_laid_out_opposite(u64_le(*from as u64), ByteOrder::Little);
        assert(u64_le(*from as u64).reverse().reverse() =~= u64_le(*from as u64));
    }

    fn swap_bytes(&mut self) {
        let r: u64 = u64_swap(*self as u64);
        assert((r as i64) as u64 == r) by (bit_vector);
        *self = r as i64;
    }
}

impl FixedWidth for i64 {
    open spec fn width() -> nat {
        8
    }

    proof fn lemma_bytes_in_len(&self, order: ByteOrder) {
    }

    proof fn lemma_bytes_in_injective(&self, other: &Self, order: ByteOrder) {
        let a: i64 = *self;
        let b: i64 = *other;
        assert(u64_le(a as u64).reverse().reverse() =~= u64_le(a as u64));
        assert(u64_le(b as u64).reverse().reverse() =~= u64_le(b as u64));
        lemma_u64_le_injective(a as u64, b as u64);
        assert((a as u64 == b as u64) ==> a == b) by (bit_vector);
    }

    fn byte_width() -> (r: usize) {
        8
    }

    fn from_bytes_at(bytes: &[u8], start: usize, order: ByteOrder) -> (r: Self) {
        let v: u64 = u64_from_le(bytes, start);
        assert((v as i64) as u64 == v) by (bit_vector);
        match order {
            ByteOrder::Little => v as i64,
            ByteOrder::Big => {
                let s: u64 = u64_swap(v);
                assert((s as i64) as u64 == s) by (bit_vector);
                assert(u64_le(s).reverse() =~= bytes@.subrange(start as int, start + 8));
                s as i64
            },
        }
    }

    fn append_bytes_in(&self, order: ByteOrder, out: &mut Vec<u8>) {
        match order {
            ByteOrder::Little => u64_push_le(*self as u64, out),
            ByteOrder::Big => u64_push_le(u64_swap(*self as u64), out),
        }
    }
}

impl Endian for u128 {
    open spec fn bytes_in(&self, order: ByteOrder) -> Seq<u8> {
        laid_out(u128_le(*self), order)
    }

    open spec fn is_reordered(&self, from: &Self, swapped: bool) -> bool {
        if swapped {
            self.bytes_in(ByteOrder::Little) == from.bytes_in(ByteOrder::Big)
        } else {
            *self == *from
        }
    }

    proof fn lemma_reordered_refl(&self) {
    }

    proof fn lemma_reordered_unchanged(&self, from: &Self) {
    }

    proof fn lemma_reordered_twice(&self, mid: &Self, from: &Self, swapped: bool) {
        if swapped {
            assert(u128_le(*self) =~= u128_le(*from));
            lemma_u128_le_injective(*self, *from);
        }
    }

    proof fn lemma_reordered_bytes(&self, from: &Self, swapped: bool, order: ByteOrder) {
        lemma_laid_out_opposite(u128_le(*self), ByteOrder::Little);
        lemma_laid_out_opposite(u128_le(*from), ByteOrder::Little);
        assert(u128_le(*from).reverse().reverse() =~= u128_le(*from));
    }

    fn swap_bytes(&mut self) {
        *self = u128_swap(*self);
    }
}

impl FixedWidth for u128 {
    open spec fn width() -> nat {
        16
    }

    proof fn lemma_bytes_in_len(&self, order: ByteOrder) {
    }

    proof fn lemma_bytes_in_injective(&self, other: &Self, order: ByteOrder) {
        assert(u128_le(*self).reverse().reverse() =~= u128_le(*self));
        assert(u128_le(*other).reverse().reverse() =~= u128_le(*other));
        lemma_u128_le_injective(*self, *other);
    }

    fn byte_width() -> (r: usize) {
        16
    }

    fn from_bytes_at(bytes: &[u8], start: usize, order: ByteOrder) -> (r: Self) {
        let v: u128 = u128_from_le(bytes, start);
        match order {
            ByteOrder::Little => v,
            ByteOrder::Big => {
                let s: u128 = u128_swap(v);
                assert(u128_le(s).reverse() =~= bytes@.subrange(start as int, start + 16));
                s
            },
        }
    }

    fn append_bytes_in(&self, order: ByteOrder, out: &mut Vec<u8>) {
        match order {
            ByteOrder::Little => u128_push_le(*self, out),
            ByteOrder::Big => u128_push_le(u128_swap(*self), out),
        }
    }
}

impl Endian for i128 {
    open spec fn bytes_in(&self, order: ByteOrder) -> Seq<u8> {
        laid_out(u128_le(*self as u128), order)
    }

    open spec fn is_reordered(&self, from: &Self, swapped: bool) -> bool {
        if swapped {
            self.bytes_in(ByteOrder::Little) == from.bytes_in(ByteOrder::Big)
        } else {
            *self == *from
        }
    }

    proof fn lemma_reordered_refl(&self) {
    }

    proof fn lemma_reordered_unchanged(&self, from: &Self) {
    }

    proof fn lemma_reordered_twice(&self, mid: &Self, from: &Self, swapped: bool) {
        if swapped {
            let a: i128 = *self;
            let b: i128 = *from;
            assert(u128_le(a as u128) =~= u128_le(b as u128));
            lemma_u128_le_injective(a as u128, b as u128);
            assert((a as u128 == b as u128) ==> a == b) by (bit_vector);
        }
    }

    proof fn lemma_reordered_bytes(&self, from: &Self, swapped: bool, order: ByteOrder) {
        lemma_laid_out_opposite(u128_le(*self as u128), ByteOrder::Little);
        lemma_laid_out_opposite(u128_le(*from as u128), ByteOrder::Little);
        assert(u128_le(*from as u128).reverse().reverse() =~= u128_le(*from as u128));
    }

    fn swap_bytes(&mut self) {
        let r: u128 = u128_swap(*self as u128);
        assert((r as i128) as u128 == r) by (bit_vector);
        *self = r as i128;
    }
}

impl FixedWidth for i128 {
    open spec fn width() -> nat {
        16
    }

    proof fn lemma_bytes_in_len(&self, order: ByteOrder) {
    }

    proof fn lemma_bytes_in_injective(&self, other: &Self, order: ByteOrder) {
        let a: i128 = *self;
        let b: i128 = *other;
        assert(u128_le(a as u128).reverse().reverse() =~= u128_le(a as u128));
        assert(u128_le(b as u128).reverse().reverse() =~= u128_le(b as u128));
        lemma_u128_le_injective(a as u128, b as u128);
        assert((a as u128 == b as u128) ==> a == b) by (bit_vector);
    }

    fn byte_width() -> (r: usize) {
        16
    }

    fn from_bytes_at(bytes: &[u8], start: usize, order: ByteOrder) -> (r: Self) {
        let v: u128 = u128_from_le(bytes, start);
        assert((v as i128) as u128 == v) by (bit_vector);
        match order {
            ByteOrder::Little => v as i128,
            ByteOrder::Big => {
                let s: u128 = u128_swap(v);
                assert((s as i128) as u128 == s) by (bit_vector);
                assert(u128_le(s).reverse() =~= bytes@.subrange(start as int, start + 16));
                s as i128
            },
        }
    }

    fn append_bytes_in(&self, order: ByteOrder, out: &mut Vec<u8>) {
        match order {
            ByteOrder::Little => u128_push_le(*self as u128, out),
            ByteOrder::Big => u128_push_le(u128_swap(*self as u128), out),
        }
    }
}

} // verus!
