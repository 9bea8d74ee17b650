//! The byte-order conversion capability: one primitive, reversing the bytes
//! of each number in place, and the conversions between the machine's order
//! and a chosen order derived from it.

use vstd::prelude::*;
use crate::order::{ByteOrder, native, native_order};

verus! {

/// A value whose numbers can have their byte order reversed in place.
pub trait Endian {
    /// The bytes of `self` laid out in `order`: for a number, its bytes from
    /// the least significant (little) or from the most significant (big); for
    /// a slice, those of each element in turn.
    spec fn bytes_in(&self, order: ByteOrder) -> Seq<u8>;

    /// `self` holds the numbers of `from`, each with its bytes reversed when
    /// `swapped`, and each unchanged otherwise.
    spec fn is_reordered(&self, from: &Self, swapped: bool) -> bool;

    /// Every value is an unswapped copy of itself.
    proof fn lemma_reordered_refl(&self)
        ensures
            self.is_reordered(self, false),
    ;

    /// An unswapped copy is the value itself.
    proof fn lemma_reordered_unchanged(&self, from: &Self)
        requires
            self.is_reordered(from, false),
        ensures
            self == from,
    ;

    /// Reordering twice the same way gives back the starting value.
    proof fn lemma_reordered_twice(&self, mid: &Self, from: &Self, swapped: bool)
        requires
            mid.is_reordered(from, swapped),
            self.is_reordered(mid, swapped),
        ensures
            self == from,
    ;

    /// A swapped value laid out in one order has the bytes of its source
    /// laid out in the other.
    proof fn lemma_reordered_bytes(&self, from: &Self, swapped: bool, order: ByteOrder)
        requires
            self.is_reordered(from, swapped),
        ensures
            self.bytes_in(order) == from.bytes_in(
                if swapped {
                    order.opposite()
                } else {
                    order
                },
            ),
    ;

    /// Reverses the bytes of each number of `self`.
    fn swap_bytes(&mut self)
        ensures
            final(self).is_reordered(old(self), true),
    ;

    /// Turns numbers held in the machine's order into their little-endian
    /// layout: a no-op on a little-endian machine.
    fn convert_current_to_little_endian(&mut self)
        ensures
            final(self).is_reordered(old(self), native_order() != ByteOrder::Little),
    {
        if native() == ByteOrder::Big {
            self.swap_bytes();
        } else {
            proof {
                self.lemma_reordered_refl();
            }
        }
    }

    /// Turns numbers held in the machine's order into their big-endian
    /// layout: a no-op on a big-endian machine.
    fn convert_current_to_big_endian(&mut self)
        ensures
            final(self).is_reordered(old(self), native_order() != ByteOrder::Big),
    {
        if native() == ByteOrder::Little {
            self.swap_bytes();
        } else {
            proof {
                self.lemma_reordered_refl();
            }
        }
    }

    /// Turns a little-endian layout into numbers in the machine's order.
    fn convert_little_endian_to_current(&mut self)
        ensures
            final(self).is_reordered(old(self), native_order() != ByteOrder::Little),
    {
        if native() == ByteOrder::Big {
            self.swap_bytes();
        } else {
            proof {
                self.lemma_reordered_refl();
            }
        }
    }

    /// Turns a big-endian layout into numbers in the machine's order.
    fn convert_big_endian_to_current(&mut self)
        ensures
            final(self).is_reordered(old(self), native_order() != ByteOrder::Big),
    {
        if native() == ByteOrder::Little {
            self.swap_bytes();
        } else {
            proof {
                self.lemma_reordered_refl();
            }
        }
    }

    /// By value: `convert_current_to_little_endian`.
    fn from_current_into_little_endian(self) -> (r: Self) where Self: Sized
        ensures
            r.is_reordered(&self, native_order() != ByteOrder::Little),
    {
        let mut v = self;
        v.convert_current_to_little_endian();
        v
    }

    /// By value: `convert_current_to_big_endian`.
    fn from_current_into_big_endian(self) -> (r: Self) where Self: Sized
        ensures
            r.is_reordered(&self, native_order() != ByteOrder::Big),
    {
        let mut v = self;
        v.convert_current_to_big_endian();
        v
    }

    /// By value: `convert_little_endian_to_current`.
    fn from_little_endian_into_current(self) -> (r: Self) where Self: Sized
        ensures
            r.is_reordered(&self, native_order() != ByteOrder::Little),
    {
        let mut v = self;
        v.convert_little_endian_to_current();
        v
    }

    /// By value: `convert_big_endian_to_current`.
    fn from_big_endian_into_current(self) -> (r: Self) where Self: Sized
        ensures
            r.is_reordered(&self, native_order() != ByteOrder::Big),
    {
        let mut v = self;
        v.convert_big_endian_to_current();
        v
    }
}

/// A single number of a fixed byte width.
pub trait FixedWidth: Endian + Copy + Sized {
    /// The number of bytes of each value.
    spec fn width() -> nat;

    /// Every layout of a value holds exactly `width()` bytes.
    proof fn lemma_bytes_in_len(&self, order: ByteOrder)
        ensures
            self.bytes_in(order).len() == Self::width(),
            1 <= Self::width() <= 16,
    ;

    /// Two values with the same layout are equal.
    proof fn lemma_bytes_in_injective(&self, other: &Self, order: ByteOrder)
        requires
            self.bytes_in(order) == other.bytes_in(order),
        ensures
            self == other,
    ;

    /// The number of bytes of each value.
    fn byte_width() -> (r: usize)
        ensures
            r == Self::width(),
    ;

    /// The value whose bytes laid out in `order` are
    /// `bytes[start..start + width()]`.
    fn from_bytes_at(bytes: &[u8], start: usize, order: ByteOrder) -> (r: Self)
        requires
            start + Self::width() <= bytes@.len(),
        ensures
            r.bytes_in(order) == bytes@.subrange(start as int, start + Self::width()),
    ;

    /// Appends the bytes of `self` laid out in `order`.
    fn append_bytes_in(&self, order: ByteOrder, out: &mut Vec<u8>)
        ensures
            final(out)@ == old(out)@ + self.bytes_in(order),
    ;
}

/// Elements reordered one by one have, laid out in turn, the bytes of the
/// values they came from, laid out in turn in the matching order.
pub proof fn lemma_reordered_elements_bytes<T: FixedWidth>(
    s: Seq<T>,
    from: Seq<T>,
    swapped: bool,
    order: ByteOrder,
)
    requires
        s.len() == from.len(),
        forall|i: int| 0 <= i < s.len() ==> (#[trigger] s[i]).is_reordered(&from[i], swapped),
    ensures
        s.map_values(|x: T| x.bytes_in(order)).flatten() == from.map_values(
            |x: T|
                x.bytes_in(
                    if swapped {
                        order.opposite()
                    } else {
                        order
                    },
                ),
        ).flatten(),
{
    let source = if swapped {
        order.opposite()
    } else {
        order
    };
    assert forall|i: int| 0 <= i < s.len() implies #[trigger] s[i].bytes_in(order)
        == from[i].bytes_in(source) by {
        s[i].lemma_reordered_bytes(&from[i], swapped, order);
    }
    assert(s.map_values(|x: T| x.bytes_in(order)) =~= from.map_values(|x: T| x.bytes_in(source)));
}

impl<T: FixedWidth> Endian for [T] {
    open spec fn bytes_in(&self, order: ByteOrder) -> Seq<u8> {
        self@.map_values(|x: T| x.bytes_in(order)).flatten()
    }

    open spec fn is_reordered(&self, from: &Self, swapped: bool) -> bool {
        &&& self@.len() == from@.len()
        &&& forall|i: int|
            0 <= i < self@.len() ==> (#[trigger] self@[i]).is_reordered(&from@[i], swapped)
    }

    proof fn lemma_reordered_refl(&self) {
        assert forall|i: int| 0 <= i < self@.len() implies (#[trigger] self@[i]).is_reordered(
            &self@[i],
            false,
        ) by {
            self@[i].lemma_reordered_refl();
        }
    }

    proof fn lemma_reordered_unchanged(&self, from: &Self) {
        assert forall|i: int| 0 <= i < self@.len() implies #[trigger] self@[i] == from@[i] by {
            self@[i].lemma_reordered_unchanged(&from@[i]);
        }
        assert(self@ =~= from@);
    }

    proof fn lemma_reordered_twice(&self, mid: &Self, from: &Self, swapped: bool) {
        assert forall|i: int| 0 <= i < self@.len() implies #[trigger] self@[i] == from@[i] by {
            self@[i].lemma_reordered_twice(&mid@[i], &from@[i], swapped);
        }
        assert(self@ =~= from@);
    }

    proof fn lemma_reordered_bytes(&self, from: &Self, swapped: bool, order: ByteOrder) {
        lemma_reordered_elements_bytes(self@, from@, swapped, order);
    }

    fn swap_bytes(&mut self) {
        let mut i: usize = 0;
        while i < self.len()
            invariant
                self@.len() == old(self)@.len(),
                0 <= i <= self@.len(),
                forall|j: int|
                    0 <= j < i ==> (#[trigger] self@[j]).is_reordered(&old(self)@[j], true),
                forall|j: int| i <= j < self@.len() ==> self@[j] == old(self)@[j],
            decreases self@.len() - i,
        {
            self[i].swap_bytes();
            i = i + 1;
        }
    }
}

} // verus!
