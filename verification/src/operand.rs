//! The numbers that can stand on the right of an operator whose left operand
//! is a `Vint`: the unsigned integers, `bool`, `char` and `Vint`s, each taken
//! by the `u128` it converts to without loss.
use crate::vint::Vint;
use vstd::prelude::*;

verus! {

/// A right operand of the `Vint` operators.
pub trait Operand: Sized {
    /// The operand can be converted (a `Vint` needs at least one byte).
    spec fn converts(self) -> bool;

    /// The `u128` that the operand stands for.
    spec fn as_u128(self) -> u128;

    /// Converts the operand to the `u128` it stands for.
    fn to_u128(self) -> (r: u128)
        requires
            self.converts(),
        ensures
            r == self.as_u128(),
    ;
}

impl Operand for u8 {
    open spec fn converts(self) -> bool {
        true
    }

    open spec fn as_u128(self) -> u128 {
        self as u128
    }

    fn to_u128(self) -> (r: u128) {
        self as u128
    }
}

impl Operand for u16 {
    open spec fn converts(self) -> bool {
        true
    }

    open spec fn as_u128(self) -> u128 {
        self as u128
    }

    fn to_u128(self) -> (r: u128) {
        self as u128
    }
}

impl Operand for u32 {
    open spec fn converts(self) -> bool {
        true
    }

    open spec fn as_u128(self) -> u128 {
        self as u128
    }

    fn to_u128(self) -> (r: u128) {
        self as u128
    }
}

impl Operand for u64 {
    open spec fn converts(self) -> bool {
        true
    }

    open spec fn as_u128(self) -> u128 {
        self as u128
    }

    fn to_u128(self) -> (r: u128) {
        self as u128
    }
}

impl Operand for u128 {
    open spec fn converts(self) -> bool {
        true
    }

    open spec fn as_u128(self) -> u128 {
        self
    }

    fn to_u128(self) -> (r: u128) {
        self
    }
}

impl Operand for bool {
    open spec fn converts(self) -> bool {
        true
    }

    /// `1` for `true`, `0` for `false`.
    open spec fn as_u128(self) -> u128 {
        if self {
            1
        } else {
            0
        }
    }

    fn to_u128(self) -> (r: u128) {
        if self {
            1
        } else {
            0
        }
    }
}

impl Operand for char {
    open spec fn converts(self) -> bool {
        true
    }

    /// The code point of the character.
    open spec fn as_u128(self) -> u128 {
        self as u128
    }

    fn to_u128(self) -> (r: u128) {
        self as u128
    }
}

impl<const B: usize> Operand for Vint<B> {
    open spec fn converts(self) -> bool {
        B > 0
    }

    /// The number the value stands for.
    open spec fn as_u128(self) -> u128 {
        self.value() as u128
    }

    fn to_u128(self) -> (r: u128) {
        u128::from(self)
    }
}

} // verus!
