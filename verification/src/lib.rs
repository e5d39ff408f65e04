//! Compact approximate storage of `u128` values in a fixed number of bytes.
//!
//! A `Vint<A>` keeps a number as its most significant bytes, starting at the
//! first non-zero one, in `A` bytes; the low nibble of the last byte holds the
//! position of that first non-zero byte. Numbers with fewer than `A`
//! significant bytes are kept exactly, larger ones are rounded down.
pub mod bytes;
pub mod decimal;
pub mod laws;
mod operand;
pub mod ops;
pub mod vint;

pub use crate::vint::{floor, Vint};
