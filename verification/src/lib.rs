//! A conventional, compact, fixed-capacity bitmap.
//!
//! A [`Bitmap`] packs `BYTES * 8` individually addressable boolean flags into
//! a byte array of exactly `BYTES` bytes, with no further allocation. It
//! offers single-bit reads and writes, whole-map operations, scans for the
//! first set or clear bit, a population count, bitwise interoperation with
//! byte arrays and little-endian integers, and a human-readable rendering of
//! any bit range. Every operation carries a contract stating exactly what it
//! returns or changes, verified against the bit-level model in [`bits`].

pub mod bitmap;
pub mod bits;
pub mod convert;
pub mod fmt;
pub mod index;
pub mod laws;
pub mod ops;
pub mod refs;
pub mod scan;

pub use bitmap::Bitmap;
pub use ops::FillPrefix;
pub use refs::BitRef;
pub use refs::BitRefMut;
