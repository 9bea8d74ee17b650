//! Endian-aware conversion of fixed-width numbers and of slices of them,
//! with byte-exact encoding to and decoding from byte streams.

pub mod bits;
pub mod endian;
pub mod io;
pub mod kernel;
pub mod laws;
pub mod order;
pub mod prelude;
pub mod primitives;

pub use endian::{Endian, FixedWidth};
pub use order::ByteOrder;
