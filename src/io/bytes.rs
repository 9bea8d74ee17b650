//! The bytes of a value or of a slice as the machine holds them, and the
//! transfer of those bytes to an output buffer or from an input slice.

use vstd::prelude::*;
use crate::endian::{Endian, FixedWidth};
use crate::order::{ByteOrder, native, native_order};
use crate::io::unexpected_eof;

verus! {

/// A slice of values whose layouts, taken in turn, are the consecutive
/// `width()`-byte chunks of `bytes`, has `bytes` as its own layout.
pub proof fn lemma_chunks_flatten<T: FixedWidth>(s: Seq<T>, bytes: Seq<u8>, order: ByteOrder)
    requires
        bytes.len() == s.len() * T::width(),
        forall|j: int|
            0 <= j < s.len() ==> (#[trigger] s[j]).bytes_in(order) == bytes.subrange(
                j * T::width(),
                j * T::width() + T::width(),
            ),
    ensures
        s.map_values(|x: T| x.bytes_in(order)).flatten() == bytes,
    decreases s.len(),
{
    let w = T::width() as int;
    if s.len() == 0 {
        assert(s.map_values(|x: T| x.bytes_in(order)) =~= Seq::<Seq<u8>>::empty());
        assert(bytes =~= Seq::<u8>::empty());
    } else {
        let n = s.len() - 1;
        let head = bytes.subrange(0, n * w);
        assert(n * w + w == s.len() * w) by (nonlinear_arith)
            requires
                n == s.len() - 1,
        ;
        assert forall|j: int| 0 <= j < n implies (#[trigger] s.drop_last()[j]).bytes_in(order)
            == head.subrange(j * w, j * w + w) by {
            assert(s.drop_last()[j] == s[j]);
            assert(j * w + w <= n * w) by (nonlinear_arith)
                requires
                    0 <= j < n,
                    w >= 0,
            ;
            assert(head.subrange(j * w, j * w + w) =~= bytes.subrange(j * w, j * w + w));
        }
        lemma_chunks_flatten(s.drop_last(), head, order);
        let f = |x: T| x.bytes_in(order);
        assert(s.map_values(f) =~= s.drop_last().map_values(f).push(s[n].bytes_in(order)));
        s.drop_last().map_values(f).lemma_flatten_push(s[n].bytes_in(order));
        assert(bytes =~= head + bytes.subrange(n * w, n * w + w));
    }
}

/// The bytes of `value` as the machine holds them.
pub fn value_as_bytes<T: FixedWidth>(value: &T) -> (r: Vec<u8>)
    ensures
        r@ == value.bytes_in(native_order()),
{
    let mut out: Vec<u8> = Vec::new();
    write_value(&mut out, value);
    out
}

/// The bytes of each element of `value` in turn, as the machine holds them.
pub fn slice_as_bytes<T: FixedWidth>(value: &[T]) -> (r: Vec<u8>)
    ensures
        r@ == value.bytes_in(native_order()),
{
    let mut out: Vec<u8> = Vec::new();
    write_slice(&mut out, value);
    out
}

/// Appends the bytes of `value` as the machine holds them.
pub fn write_value<T: FixedWidth>(out: &mut Vec<u8>, value: &T)
    ensures
        final(out)@ == old(out)@ + value.bytes_in(native_order()),
{
    value.append_bytes_in(native(), out);
}

/// Appends the bytes of each element of `value` in turn, as the machine
/// holds them.
pub fn write_slice<T: FixedWidth>(out: &mut Vec<u8>, value: &[T])
    ensures
        final(out)@ == old(out)@ + value.bytes_in(native_order()),
{
    let order = native();
    let ghost f = |x: T| x.bytes_in(order);
    let mut i: usize = 0;
    while i < value.len()
        invariant
            0 <= i <= value@.len(),
            order == native_order(),
            f == (|x: T| x.bytes_in(order)),
            out@ == old(out)@ + value@.take(i as int).map_values(f).flatten(),
        decreases value@.len() - i,
    {
        value[i].append_bytes_in(order, out);
        proof {
            assert(value@.take(i + 1).map_values(f) =~= value@.take(i as int).map_values(f).push(
                value@[i as int].bytes_in(order),
            ));
            value@.take(i as int).map_values(f).lemma_flatten_push(value@[i as int].bytes_in(order));
        }
        i = i + 1;
    }
    assert(value@.take(value@.len() as int) =~= value@);
}

/// Moves the first `width()` bytes of `input` into `value`, taken as the
/// machine holds them; fails, changing nothing, when `input` is shorter.
pub fn read_value<T: FixedWidth>(input: &mut &[u8], value: &mut T) -> (r: Result<
    (),
    std::io::Error,
>)
    ensures
        r.is_ok() <==> old(input)@.len() >= T::width(),
        r.is_ok() ==> final(value).bytes_in(native_order()) == old(input)@.take(T::width() as int)
            && final(input)@ == old(input)@.skip(T::width() as int),
        r.is_err() ==> *final(input) == *old(input) && *final(value) == *old(value),
{
    let w = T::byte_width();
    if input.len() < w {
        return Err(unexpected_eof());
    }
    *value = T::from_bytes_at(input, 0, native());
    let (_, rest) = input.split_at(w);
    *input = rest;
    Ok(())
}

/// Moves the first `value.len() * width()` bytes of `input` into the
/// elements of `value` in turn, each taken as the machine holds it; fails,
/// changing nothing, when `input` is shorter.
pub fn read_slice<T: FixedWidth>(input: &mut &[u8], value: &mut [T]) -> (r: Result<
    (),
    std::io::Error,
>)
    ensures
        r.is_ok() <==> old(input)@.len() >= old(value)@.len() * T::width(),
        r.is_ok() ==> final(value)@.len() == old(value)@.len() && final(value).bytes_in(
            native_order(),
        ) == old(input)@.take(old(value)@.len() * T::width() as int) && final(input)@ == old(
            input,
        )@.skip(old(value)@.len() * T::width() as int),
        r.is_err() ==> *final(input) == *old(input) && final(value)@ == old(value)@,
{
    let w = T::byte_width();
    let n = match value.len().checked_mul(w) {
        Some(n) => n,
        None => {
            let available: usize = input.len();
            assert(available < value@.len() * w);
            return Err(unexpected_eof());
        },
    };
    if input.len() < n {
        return Err(unexpected_eof());
    }
    let order = native();
    let ghost bytes = input@.take(n as int);
    let mut i: usize = 0;
    while i < value.len()
        invariant
            0 <= i <= value@.len(),
            value@.len() == old(value)@.len(),
            n == value@.len() * w,
            w == T::width(),
            n <= input@.len(),
            bytes == input@.take(n as int),
            order == native_order(),
            forall|j: int|
                0 <= j < i ==> (#[trigger] value@[j]).bytes_in(order) == bytes.subrange(
                    j * w,
                    j * w + w,
                ),
        decreases value@.len() - i,
    {
        assert(i * w + w <= n) by (nonlinear_arith)
            requires
                i < value@.len(),
                n == value@.len() * w,
        ;
        let start: usize = i * w;
        value[i] = T::from_bytes_at(input, start, order);
        assert(input@.subrange(start as int, start + w) =~= bytes.subrange(i * w, i * w + w));
        i = i + 1;
    }
    proof {
        lemma_chunks_flatten(value@, bytes, order);
    }
    let (_, rest) = input.split_at(n);
    *input = rest;
    Ok(())
}

} // verus!
