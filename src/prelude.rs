//! The traits that callers use most, for a single import.

pub use crate::endian::{Endian, FixedWidth};
pub use crate::io::{ReadEndian, ReadPrimitives, WriteEndian};
pub use crate::order::ByteOrder;
