//! Byte orders, and the byte order of the machine that runs the code.

use vstd::prelude::*;
use crate::bits::u16_le;

verus! {

/// The order in which the bytes of a number are laid out.
#[derive(Clone, Copy, Debug, PartialEq, Eq, Structural)]
pub enum ByteOrder {
    /// Least significant byte first.
    Little,
    /// Most significant byte first.
    Big,
}

impl ByteOrder {
    /// The other order.
    pub open spec fn opposite(self) -> ByteOrder {
        match self {
            ByteOrder::Little => ByteOrder::Big,
            ByteOrder::Big => ByteOrder::Little,
        }
    }
}

/// A number's bytes, given least significant first in `le`, laid out in `order`.
pub open spec fn laid_out(le: Seq<u8>, order: ByteOrder) -> Seq<u8> {
    match order {
        ByteOrder::Little => le,
        ByteOrder::Big => le.reverse(),
    }
}

/// Laying out in the opposite order reverses the bytes.
pub proof fn lemma_laid_out_opposite(le: Seq<u8>, order: ByteOrder)
    ensures
        laid_out(le, order.opposite()) == laid_out(le, order).reverse(),
{
    assert(le.reverse().reverse() =~= le);
}

/// The byte order of the executing machine, as vstd models it.
pub open spec fn native_order() -> ByteOrder {
    if vstd::endian::endianness() == vstd::endian::Endian::Little {
        ByteOrder::Little
    } else {
        ByteOrder::Big
    }
}

/// Relies on `u16::to_le`: a no-op on a little-endian machine, a byte swap on
/// a big-endian one.
pub assume_specification[ u16::to_le ](x: u16) -> (r: u16)
    ensures
        vstd::endian::endianness() == vstd::endian::Endian::Little ==> r == x,
        vstd::endian::endianness() != vstd::endian::Endian::Little ==> u16_le(r) == u16_le(x).reverse(),
;

/// The byte order of the executing machine.
pub fn native() -> (r: ByteOrder)
    ensures
        r == native_order(),
{
    let probe: u16 = u16::to_le(1u16);
    if probe == 1u16 {
        proof {
            if vstd::endian::endianness() != vstd::endian::Endian::Little {
                assert(u16_le(probe)[0] == u16_le(1u16).reverse()[0]);
                assert((1u16 >> 8u16) as u8 == 0u8) by (bit_vector);
            }
        }
        ByteOrder::Little
    } else {
        proof {
            if vstd::endian::endianness() == vstd::endian::Endian::Little {
                assert(false);
            }
        }
        ByteOrder::Big
    }
}

} // verus!
