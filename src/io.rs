//! Writing values and slices to a byte buffer, and reading them from a byte
//! slice, in a chosen byte order.

pub mod bytes;

use vstd::prelude::*;
use crate::endian::{Endian, FixedWidth};
use crate::order::{ByteOrder, native_order};

verus! {

/// `std::io::Error`, carried through unopened: the error that the stream
/// operations report.
#[verifier::external_type_specification]
#[verifier::external_body]
pub struct ExIoError(std::io::Error);

/// Relies on `std::io::Error::from(ErrorKind::UnexpectedEof)`: the error that
/// a read reports when its input ends before the bytes it needs.
#[verifier::external_body]
pub(crate) fn unexpected_eof() -> std::io::Error {
    std::io::Error::from(std::io::ErrorKind::UnexpectedEof)
}

/// A sink of bytes that a value of type `T` can be written to, in a chosen
/// byte order.
pub trait WriteEndian<T: ?Sized>: Sized {
    /// Writing `value` in `order` to `self` leaves `after`.
    spec fn writes(&self, after: &Self, value: &T, order: ByteOrder) -> bool;

    /// Writes the bytes of `value`, each number least significant byte first.
    fn write_as_little_endian(&mut self, value: &T) -> (r: Result<(), std::io::Error>)
        ensures
            r.is_ok() ==> old(self).writes(final(self), value, ByteOrder::Little),
    ;

    /// Writes the bytes of `value`, each number most significant byte first.
    fn write_as_big_endian(&mut self, value: &T) -> (r: Result<(), std::io::Error>)
        ensures
            r.is_ok() ==> old(self).writes(final(self), value, ByteOrder::Big),
    ;
}

/// A source of bytes that a value of type `T` can be read from, in a chosen
/// byte order.
pub trait ReadEndian<T: ?Sized>: Sized {
    /// `self` holds enough bytes to fill `value`.
    spec fn has_bytes_for(&self, value: &T) -> bool;

    /// Reading from `self` in `order` gives `value` and leaves `rest`.
    spec fn reads(&self, rest: &Self, value: &T, order: ByteOrder) -> bool;

    /// Fills `value` with numbers stored least significant byte first.
    fn read_from_little_endian_into(&mut self, value: &mut T) -> (r: Result<(), std::io::Error>)
        ensures
            r.is_ok() == old(self).has_bytes_for(old(value)),
            r.is_ok() ==> old(self).reads(final(self), final(value), ByteOrder::Little),
            r.is_err() ==> *final(self) == *old(self),
    ;

    /// Fills `value` with numbers stored most significant byte first.
    fn read_from_big_endian_into(&mut self, value: &mut T) -> (r: Result<(), std::io::Error>)
        ensures
            r.is_ok() == old(self).has_bytes_for(old(value)),
            r.is_ok() ==> old(self).reads(final(self), final(value), ByteOrder::Big),
            r.is_err() ==> *final(self) == *old(self),
    ;

    /// Reads one value stored least significant byte first.
    fn read_from_little_endian(&mut self) -> (r: Result<T, std::io::Error>) where T: Default
        ensures
            (forall|v: T| old(self).has_bytes_for(&v)) ==> r.is_ok(),
            r matches Ok(v) ==> old(self).reads(final(self), &v, ByteOrder::Little),
            r.is_err() ==> *final(self) == *old(self) && exists|v: T| !old(self).has_bytes_for(&v),
    {
        let mut value = T::default();
        match self.read_from_little_endian_into(&mut value) {
            Ok(()) => Ok(value),
            Err(e) => Err(e),
        }
    }

    /// Reads one value stored most significant byte first.
    fn read_from_big_endian(&mut self) -> (r: Result<T, std::io::Error>) where T: Default
        ensures
            (forall|v: T| old(self).has_bytes_for(&v)) ==> r.is_ok(),
            r matches Ok(v) ==> old(self).reads(final(self), &v, ByteOrder::Big),
            r.is_err() ==> *final(self) == *old(self) && exists|v: T| !old(self).has_bytes_for(&v),
    {
        let mut value = T::default();
        match self.read_from_big_endian_into(&mut value) {
            Ok(()) => Ok(value),
            Err(e) => Err(e),
        }
    }
}

/// Reads of single numbers, one method for each integer type and order.
pub trait ReadPrimitives: Sized {
    /// Reads a `u8` stored least significant byte first.
    fn read_u8_from_little_endian(&mut self) -> (r: Result<u8, std::io::Error>) where Self: ReadEndian<u8>
        ensures
            (forall|v: u8| old(self).has_bytes_for(&v)) ==> r.is_ok(),
            r matches Ok(v) ==> old(self).reads(final(self), &v, ByteOrder::Little),
            r.is_err() ==> *final(self) == *old(self),
    {
        ReadEndian::<u8>::read_from_little_endian(self)
    }

    /// Reads a `u8` stored most significant byte first.
    fn read_u8_from_big_endian(&mut self) -> (r: Result<u8, std::io::Error>) where Self: ReadEndian<u8>
        ensures
            (forall|v: u8| old(self).has_bytes_for(&v)) ==> r.is_ok(),
            r matches Ok(v) ==> old(self).reads(final(self), &v, ByteOrder::Big),
            r.is_err() ==> *final(self) == *old(self),
    {
        ReadEndian::<u8>::read_from_big_endian(self)
    }

    /// Reads a `i8` stored least significant byte first.
    fn read_i8_from_little_endian(&mut self) -> (r: Result<i8, std::io::Error>) where Self: ReadEndian<i8>
        ensures
            (forall|v: i8| old(self).has_bytes_for(&v)) ==> r.is_ok(),
            r matches Ok(v) ==> old(self).reads(final(self), &v, ByteOrder::Little),
            r.is_err() ==> *final(self) == *old(self),
    {
        ReadEndian::<i8>::read_from_little_endian(self)
    }

    /// Reads a `i8` stored most significant byte first.
    fn read_i8_from_big_endian(&mut self) -> (r: Result<i8, std::io::Error>) where Self: ReadEndian<i8>
        ensures
            (forall|v: i8| old(self).has_bytes_for(&v)) ==> r.is_ok(),
            r matches Ok(v) ==> old(self).reads(final(self), &v, ByteOrder::Big),
            r.is_err() ==> *final(self) == *old(self),
    {
        ReadEndian::<i8>::read_from_big_endian(self)
    }

    /// Reads a `u16` stored least significant byte first.
    fn read_u16_from_little_endian(&mut self) -> (r: Result<u16, std::io::Error>) where Self: ReadEndian<u16>
        ensures
            (forall|v: u16| old(self).has_bytes_for(&v)) ==> r.is_ok(),
            r matches Ok(v) ==> old(self).reads(final(self), &v, ByteOrder::Little),
            r.is_err() ==> *final(self) == *old(self),
    {
        ReadEndian::<u16>::read_from_little_endian(self)
    }

    /// Reads a `u16` stored most significant byte first.
    fn read_u16_from_big_endian(&mut self) -> (r: Result<u16, std::io::Error>) where Self: ReadEndian<u16>
        ensures
            (forall|v: u16| old(self).has_bytes_for(&v)) ==> r.is_ok(),
            r matches Ok(v) ==> old(self).reads(final(self), &v, ByteOrder::Big),
            r.is_err() ==> *final(self) == *old(self),
    {
        ReadEndian::<u16>::read_from_big_endian(self)
    }

    /// Reads a `i16` stored least significant byte first.
    fn read_i16_from_little_endian(&mut self) -> (r: Result<i16, std::io::Error>) where Self: ReadEndian<i16>
        ensures
            (forall|v: i16| old(self).has_bytes_for(&v)) ==> r.is_ok(),
            r matches Ok(v) ==> old(self).reads(final(self), &v, ByteOrder::Little),
            r.is_err() ==> *final(self) == *old(self),
    {
        ReadEndian::<i16>::read_from_little_endian(self)
    }

    /// Reads a `i16` stored most significant byte first.
    fn read_i16_from_big_endian(&mut self) -> (r: Result<i16, std::io::Error>) where Self: ReadEndian<i16>
        ensures
            (forall|v: i16| old(self).has_bytes_for(&v)) ==> r.is_ok(),
            r matches Ok(v) ==> old(self).reads(final(self), &v, ByteOrder::Big),
            r.is_err() ==> *final(self) == *old(self),
    {
        ReadEndian::<i16>::read_from_big_endian(self)
    }

    /// Reads a `u32` stored least significant byte first.
    fn read_u32_from_little_endian(&mut self) -> (r: Result<u32, std::io::Error>) where Self: ReadEndian<u32>
        ensures
            (forall|v: u32| old(self).has_bytes_for(&v)) ==> r.is_ok(),
            r matches Ok(v) ==> old(self).reads(final(self), &v, ByteOrder::Little),
            r.is_err() ==> *final(self) == *old(self),
    {
        ReadEndian::<u32>::read_from_little_endian(self)
    }

    /// Reads a `u32` stored most significant byte first.
    fn read_u32_from_big_endian(&mut self) -> (r: Result<u32, std::io::Error>) where Self: ReadEndian<u32>
        ensures
            (forall|v: u32| old(self).has_bytes_for(&v)) ==> r.is_ok(),
            r matches Ok(v) ==> old(self).reads(final(self), &v, ByteOrder::Big),
            r.is_err() ==> *final(self) == *old(self),
    {
        ReadEndian::<u32>::read_from_big_endian(self)
    }

    /// Reads a `i32` stored least significant byte first.
    fn read_i32_from_little_endian(&mut self) -> (r: Result<i32, std::io::Error>) where Self: ReadEndian<i32>
        ensures
            (forall|v: i32| old(self).has_bytes_for(&v)) ==> r.is_ok(),
            r matches Ok(v) ==> old(self).reads(final(self), &v, ByteOrder::Little),
            r.is_err() ==> *final(self) == *old(self),
    {
        ReadEndian::<i32>::read_from_little_endian(self)
    }

    /// Reads a `i32` stored most significant byte first.
    fn read_i32_from_big_endian(&mut self) -> (r: Result<i32, std::io::Error>) where Self: ReadEndian<i32>
        ensures
            (forall|v: i32| old(self).has_bytes_for(&v)) ==> r.is_ok(),
            r matches Ok(v) ==> old(self).reads(final(self), &v, ByteOrder::Big),
            r.is_err() ==> *final(self) == *old(self),
    {
        ReadEndian::<i32>::read_from_big_endian(self)
    }

    /// Reads a `u64` stored least significant byte first.
    fn read_u64_from_little_endian(&mut self) -> (r: Result<u64, std::io::Error>) where Self: ReadEndian<u64>
        ensures
            (forall|v: u64| old(self).has_bytes_for(&v)) ==> r.is_ok(),
            r matches Ok(v) ==> old(self).reads(final(self), &v, ByteOrder::Little),
            r.is_err() ==> *final(self) == *old(self),
    {
        ReadEndian::<u64>::read_from_little_endian(self)
    }

    /// Reads a `u64` stored most significant byte first.
    fn read_u64_from_big_endian(&mut self) -> (r: Result<u64, std::io::Error>) where Self: ReadEndian<u64>
        ensures
            (forall|v: u64| old(self).has_bytes_for(&v)) ==> r.is_ok(),
            r matches Ok(v) ==> old(self).reads(final(self), &v, ByteOrder::Big),
            r.is_err() ==> *final(self) == *old(self),
    {
        ReadEndian::<u64>::read_from_big_endian(self)
    }

    /// Reads a `i64` stored least significant byte first.
    fn read_i64_from_little_endian(&mut self) -> (r: Result<i64, std::io::Error>) where Self: ReadEndian<i64>
        ensures
            (forall|v: i64| old(self).has_bytes_for(&v)) ==> r.is_ok(),
            r matches Ok(v) ==> old(self).reads(final(self), &v, ByteOrder::Little),
            r.is_err() ==> *final(self) == *old(self),
    {
        ReadEndian::<i64>::read_from_little_endian(self)
    }

    /// Reads a `i64` stored most significant byte first.
    fn read_i64_from_big_endian(&mut self) -> (r: Result<i64, std::io::Error>) where Self: ReadEndian<i64>
        ensures
            (forall|v: i64| old(self).has_bytes_for(&v)) ==> r.is_ok(),
            r matches Ok(v) ==> old(self).reads(final(self), &v, ByteOrder::Big),
            r.is_err() ==> *final(self) == *old(self),
    {
        ReadEndian::<i64>::read_from_big_endian(self)
    }

    /// Reads a `u128` stored least significant byte first.
    fn read_u128_from_little_endian(&mut self) -> (r: Result<u128, std::io::Error>) where Self: ReadEndian<u128>
        ensures
            (forall|v: u128| old(self).has_bytes_for(&v)) ==> r.is_ok(),
            r matches Ok(v) ==> old(self).reads(final(self), &v, ByteOrder::Little),
            r.is_err() ==> *final(self) == *old(self),
    {
        ReadEndian::<u128>::read_from_little_endian(self)
    }

    /// Reads a `u128` stored most significant byte first.
    fn read_u128_from_big_endian(&mut self) -> (r: Result<u128, std::io::Error>) where Self: ReadEndian<u128>
        ensures
            (forall|v: u128| old(self).has_bytes_for(&v)) ==> r.is_ok(),
            r matches Ok(v) ==> old(self).reads(final(self), &v, ByteOrder::Big),
            r.is_err() ==> *final(self) == *old(self),
    {
        ReadEndian::<u128>::read_from_big_endian(self)
    }

    /// Reads a `i128` stored least significant byte first.
    fn read_i128_from_little_endian(&mut self) -> (r: Result<i128, std::io::Error>) where Self: ReadEndian<i128>
        ensures
            (forall|v: i128| old(self).has_bytes_for(&v)) ==> r.is_ok(),
            r matches Ok(v) ==> old(self).reads(final(self), &v, ByteOrder::Little),
            r.is_err() ==> *final(self) == *old(self),
    {
        ReadEndian::<i128>::read_from_little_endian(self)
    }

    /// Reads a `i128` stored most significant byte first.
    fn read_i128_from_big_endian(&mut self) -> (r: Result<i128, std::io::Error>) where Self: ReadEndian<i128>
        ensures
            (forall|v: i128| old(self).has_bytes_for(&v)) ==> r.is_ok(),
            r matches Ok(v) ==> old(self).reads(final(self), &v, ByteOrder::Big),
            r.is_err() ==> *final(self) == *old(self),
    {
        ReadEndian::<i128>::read_from_big_endian(self)
    }
}

impl<'a> ReadPrimitives for &'a [u8] {
}

impl<T: FixedWidth> WriteEndian<T> for Vec<u8> {
    open spec fn writes(&self, after: &Self, value: &T, order: ByteOrder) -> bool {
        after@ == self@ + value.bytes_in(order)
    }

    fn write_as_little_endian(&mut self, value: &T) -> (r: Result<(), std::io::Error>)
        ensures
            r.is_ok(),
            final(self)@ == old(self)@ + value.bytes_in(ByteOrder::Little),
    {
        let v = value.from_current_into_little_endian();
        proof {
            v.lemma_reordered_bytes(value, native_order() != ByteOrder::Little, native_order());
        }
        bytes::write_value(self, &v);
        Ok(())
    }

    fn write_as_big_endian(&mut self, value: &T) -> (r: Result<(), std::io::Error>)
        ensures
            r.is_ok(),
            final(self)@ == old(self)@ + value.bytes_in(ByteOrder::Big),
    {
        let v = value.from_current_into_big_endian();
        proof {
            v.lemma_reordered_bytes(value, native_order() != ByteOrder::Big, native_order());
        }
        bytes::write_value(self, &v);
        Ok(())
    }
}

impl<T: FixedWidth> WriteEndian<[T]> for Vec<u8> {
    open spec fn writes(&self, after: &Self, value: &[T], order: ByteOrder) -> bool {
        after@ == self@ + value.bytes_in(order)
    }

    fn write_as_little_endian(&mut self, value: &[T]) -> (r: Result<(), std::io::Error>)
        ensures
            r.is_ok(),
            final(self)@ == old(self)@ + value.bytes_in(ByteOrder::Little),
    {
        let mut converted: Vec<T> = vstd::slice::slice_to_vec(value);
        let elements = converted.as_mut_slice();
        elements.convert_current_to_little_endian();
        proof {
            let sw = native_order() != ByteOrder::Little;
            elements.lemma_reordered_bytes(value, sw, native_order());
        }
        bytes::write_slice(self, elements);
        Ok(())
    }

    fn write_as_big_endian(&mut self, value: &[T]) -> (r: Result<(), std::io::Error>)
        ensures
            r.is_ok(),
            final(self)@ == old(self)@ + value.bytes_in(ByteOrder::Big),
    {
        let mut converted: Vec<T> = vstd::slice::slice_to_vec(value);
        let elements = converted.as_mut_slice();
        elements.convert_current_to_big_endian();
        proof {
            let sw = native_order() != ByteOrder::Big;
            elements.lemma_reordered_bytes(value, sw, native_order());
        }
        bytes::write_slice(self, elements);
        Ok(())
    }
}

impl<'a, T: FixedWidth> ReadEndian<T> for &'a [u8] {
    open spec fn has_bytes_for(&self, value: &T) -> bool {
        self@.len() >= T::width()
    }

    open spec fn reads(&self, rest: &Self, value: &T, order: ByteOrder) -> bool {
        &&& self@.len() >= T::width()
        &&& value.bytes_in(order) == self@.take(T::width() as int)
        &&& rest@ == self@.skip(T::width() as int)
    }

    fn read_from_little_endian_into(&mut self, value: &mut T) -> (r: Result<(), std::io::Error>)
        ensures
            r.is_err() ==> *final(value) == *old(value),
    {
        match bytes::read_value(self, value) {
            Ok(()) => {},
            Err(e) => {
                return Err(e);
            },
        }
        let ghost held = *value;
        value.convert_little_endian_to_current();
        proof {
            let sw = native_order() != ByteOrder::Little;
            value.lemma_reordered_bytes(&held, sw, ByteOrder::Little);
        }
        Ok(())
    }

    fn read_from_big_endian_into(&mut self, value: &mut T) -> (r: Result<(), std::io::Error>)
        ensures
            r.is_err() ==> *final(value) == *old(value),
    {
        match bytes::read_value(self, value) {
            Ok(()) => {},
            Err(e) => {
                return Err(e);
            },
        }
        let ghost held = *value;
        value.convert_big_endian_to_current();
        proof {
            let sw = native_order() != ByteOrder::Big;
            value.lemma_reordered_bytes(&held, sw, ByteOrder::Big);
        }
        Ok(())
    }
}

impl<'a, T: FixedWidth> ReadEndian<[T]> for &'a [u8] {
    open spec fn has_bytes_for(&self, value: &[T]) -> bool {
        self@.len() >= value@.len() * T::width()
    }

    open spec fn reads(&self, rest: &Self, value: &[T], order: ByteOrder) -> bool {
        &&& self@.len() >= value@.len() * T::width()
        &&& value.bytes_in(order) == self@.take(value@.len() * T::width() as int)
        &&& rest@ == self@.skip(value@.len() * T::width() as int)
    }

    fn read_from_little_endian_into(&mut self, value: &mut [T]) -> (r: Result<(), std::io::Error>)
        ensures
            final(value)@.len() == old(value)@.len(),
            r.is_err() ==> final(value)@ == old(value)@,
    {
        match bytes::read_slice(self, value) {
            Ok(()) => {},
            Err(e) => {
                return Err(e);
            },
        }
        let ghost held = value@;
        value.convert_little_endian_to_current();
        proof {
            let sw = native_order() != ByteOrder::Little;
            crate::endian::lemma_reordered_elements_bytes(value@, held, sw, ByteOrder::Little);
        }
        Ok(())
    }

    fn read_from_big_endian_into(&mut self, value: &mut [T]) -> (r: Result<(), std::io::Error>)
        ensures
            final(value)@.len() == old(value)@.len(),
            r.is_err() ==> final(value)@ == old(value)@,
    {
        match bytes::read_slice(self, value) {
            Ok(()) => {},
            Err(e) => {
                return Err(e);
            },
        }
        let ghost held = value@;
        value.convert_big_endian_to_current();
        proof {
            let sw = native_order() != ByteOrder::Big;
            crate::endian::lemma_reordered_elements_bytes(value@, held, sw, ByteOrder::Big);
        }
        Ok(())
    }
}

} // verus!
