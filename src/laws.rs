//! What holds of every value across calls: round trips, double swaps, the
//! no-op in the machine's own order, and exact byte counts.

use vstd::prelude::*;
use crate::endian::{Endian, FixedWidth};
use crate::io::ReadEndian;
use crate::kernel::{lanes_reversed, lemma_lanes_reversed_u32s};
use crate::order::{ByteOrder, native_order};

verus! {

/// Converting from the machine's order to `order` and back (or from `order`
/// to the machine's order and back) gives back the value: `converted` is what
/// either conversion leaves of `value`, and `restored` what the opposite one
/// leaves of `converted`.
pub proof fn law_round_trip<T: Endian + ?Sized>(
    value: &T,
    converted: &T,
    restored: &T,
    order: ByteOrder,
)
    requires
        converted.is_reordered(value, native_order() != order),
        restored.is_reordered(converted, native_order() != order),
    ensures
        restored == value,
{
    restored.lemma_reordered_twice(converted, value, native_order() != order);
}

/// Swapping the bytes twice gives back the value.
pub proof fn law_double_swap<T: Endian + ?Sized>(value: &T, swapped: &T, restored: &T)
    requires
        swapped.is_reordered(value, true),
        restored.is_reordered(swapped, true),
    ensures
        restored == value,
{
    restored.lemma_reordered_twice(swapped, value, true);
}

/// Converting into or out of the machine's own order changes nothing.
pub proof fn law_native_no_op<T: Endian + ?Sized>(value: &T, converted: &T, order: ByteOrder)
    requires
        order == native_order(),
        converted.is_reordered(value, native_order() != order),
    ensures
        converted == value,
        converted.bytes_in(order) == value.bytes_in(order),
{
    converted.lemma_reordered_unchanged(value);
}

/// The layout of `n` values of width `w` holds exactly `n * w` bytes.
pub proof fn law_slice_byte_count<T: FixedWidth>(value: &[T], order: ByteOrder)
    ensures
        value.bytes_in(order).len() == value@.len() * T::width(),
{
    lemma_elements_byte_count(value@, order);
}

/// Elements of width `w`, laid out in turn, take `w` bytes each.
pub proof fn lemma_elements_byte_count<T: FixedWidth>(s: Seq<T>, order: ByteOrder)
    ensures
        s.map_values(|x: T| x.bytes_in(order)).flatten().len() == s.len() * T::width(),
    decreases s.len(),
{
    let f = |x: T| x.bytes_in(order);
    if s.len() > 0 {
        let n = s.len() - 1;
        lemma_elements_byte_count(s.drop_last(), order);
        assert(s.map_values(f) =~= s.drop_last().map_values(f).push(s[n].bytes_in(order)));
        s.drop_last().map_values(f).lemma_flatten_push(s[n].bytes_in(order));
        s[n].lemma_bytes_in_len(order);
        assert(n * T::width() + T::width() == s.len() * T::width()) by (nonlinear_arith)
            requires
                n == s.len() - 1,
        ;
    } else {
        assert(s.map_values(f) =~= Seq::<Seq<u8>>::empty());
    }
}

/// Writing `n` values of width `w` adds exactly `n * w` bytes to the output.
pub proof fn law_write_byte_count<T: FixedWidth>(
    before: Seq<u8>,
    after: Seq<u8>,
    value: &[T],
    order: ByteOrder,
)
    requires
        after == before + value.bytes_in(order),
    ensures
        after.len() == before.len() + value@.len() * T::width(),
{
    law_slice_byte_count(value, order);
}

/// Reading `n` values of width `w` takes exactly `n * w` bytes from the
/// input, and is possible only when the input holds that many.
pub proof fn law_read_byte_count<'a, T: FixedWidth>(
    input: &'a [u8],
    rest: &'a [u8],
    value: &[T],
    order: ByteOrder,
)
    ensures
        <&'a [u8] as ReadEndian<[T]>>::has_bytes_for(&input, value) <==> input@.len()
            >= value@.len() * T::width(),
        <&'a [u8] as ReadEndian<[T]>>::reads(&input, &rest, value, order) ==> rest@.len()
            == input@.len() - value@.len() * T::width(),
{
}

/// The bytes written for a value in an order read back, in that order, as
/// the same value, and nothing is left over.
pub proof fn law_write_then_read<'a, T: FixedWidth>(
    value: &T,
    written: &'a [u8],
    rest: &'a [u8],
    read: &T,
    order: ByteOrder,
)
    requires
        written@ == value.bytes_in(order),
        <&'a [u8] as ReadEndian<T>>::reads(&written, &rest, read, order),
    ensures
        read == value,
        rest@.len() == 0,
{
    value.lemma_bytes_in_len(order);
    assert(written@.take(T::width() as int) =~= written@);
    read.lemma_bytes_in_injective(value, order);
}

/// The chunked kernel and the scalar path agree on 32-bit numbers (the bit
/// patterns of single-precision floats). Reversing the lanes of a layout
/// gives the layout of the numbers that `swap_bytes` leaves; and, in an order
/// other than the machine's, the kernel's writer appends what the scalar
/// writer appends.
pub proof fn law_kernel_matches_scalar(
    values: &[u32],
    swapped: &[u32],
    before: Seq<u8>,
    by_kernel: Seq<u8>,
    by_scalar: Seq<u8>,
    order: ByteOrder,
)
    ensures
        swapped.is_reordered(values, true) ==> lanes_reversed(values.bytes_in(order))
            == swapped.bytes_in(order),
        order != native_order() && by_kernel == before + values.bytes_in(
            native_order().opposite(),
        ) && by_scalar == before + values.bytes_in(order) ==> by_kernel == by_scalar,
{
    lemma_lanes_reversed_u32s(values@, order);
    if swapped.is_reordered(values, true) {
        swapped.lemma_reordered_bytes(values, true, order);
    }
}

} // verus!
