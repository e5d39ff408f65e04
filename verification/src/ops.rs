//! The arithmetic and bitwise operators of values with `u128` numbers and
//! with any other `Operand` (unsigned integers, `bool`, `char`, `Vint`s).
//!
//! Each operator works on the numbers that the operands stand for, with the
//! `u128` operation, and keeps the result in the encoding of its `Vint`
//! operand; its compound assignment on a `u128` keeps the exact `u128`
//! result. An operand of `A == 0` bytes, an overflowing `+`, `-` or `*`, a
//! zero divisor and a shift by 128 or more are outside every operator.
use crate::operand::Operand;
use crate::vint::{encode, lemma_decode_fits, Vint};
use core::ops::{
    Add, AddAssign, Sub, SubAssign, Mul, MulAssign, Div, DivAssign, Rem, RemAssign,
    BitAnd, BitAndAssign, BitOr, BitOrAssign, BitXor, BitXorAssign, Shl, ShlAssign, Shr, ShrAssign,
};
use vstd::prelude::*;
use vstd::std_specs::ops::{
    AddSpec, SubSpec, MulSpec, DivSpec, RemSpec, BitAndSpec, BitOrSpec, BitXorSpec, ShlSpec, ShrSpec,
    AddSpecImpl, SubSpecImpl, MulSpecImpl, DivSpecImpl, RemSpecImpl,
    BitAndSpecImpl, BitOrSpecImpl, BitXorSpecImpl, ShlSpecImpl, ShrSpecImpl,
};

verus! {

// sum

impl<const A: usize> Add<Vint<A>> for u128 {
    type Output = Vint<A>;

    /// The sum of the two numbers, kept in `A` bytes.
    fn add(self, rhs: Vint<A>) -> (r: Vint<A>)
        ensures
            r@ == encode((self as nat + rhs.value()) as nat, A as nat),
    {
        Vint::from(self + u128::from(rhs))
    }
}

impl<const A: usize> AddSpecImpl<Vint<A>> for u128 {
    open spec fn obeys_add_spec() -> bool {
        true
    }

    open spec fn add_req(self, rhs: Vint<A>) -> bool {
        A > 0 && self as nat + rhs.value() <= u128::MAX
    }

    open spec fn add_spec(self, rhs: Vint<A>) -> Vint<A> {
        Vint::<A>::encoding_of((self as nat + rhs.value()) as nat)
    }
}

impl<const A: usize, T: Operand> Add<T> for Vint<A> {
    type Output = Vint<A>;

    /// The sum of the two numbers, kept in `A` bytes.
    fn add(self, rhs: T) -> (r: Vint<A>)
        ensures
            r@ == encode((self.value() + rhs.as_u128() as nat) as nat, A as nat),
    {
        Vint::from(u128::from(self) + rhs.to_u128())
    }
}

impl<const A: usize, T: Operand> AddSpecImpl<T> for Vint<A> {
    open spec fn obeys_add_spec() -> bool {
        true
    }

    open spec fn add_req(self, rhs: T) -> bool {
        A > 0 && rhs.converts() && self.value() + rhs.as_u128() as nat <= u128::MAX
    }

    open spec fn add_spec(self, rhs: T) -> Vint<A> {
        Vint::<A>::encoding_of((self.value() + rhs.as_u128() as nat) as nat)
    }
}

impl<const A: usize> AddAssign<Vint<A>> for u128 {
    /// Replaces the number by its sum with the number that `rhs` stands for.
    fn add_assign(&mut self, rhs: Vint<A>)
        requires
            A > 0,
            *old(self) as nat + rhs.value() <= u128::MAX,
        ensures
            *final(self) == (*old(self) as nat + rhs.value()) as u128,
    {
        *self = *self + u128::from(rhs);
    }
}

impl<const A: usize, T: Operand> AddAssign<T> for Vint<A> {
    /// Replaces the value by the encoding of its sum with `rhs`.
    fn add_assign(&mut self, rhs: T)
        requires
            A > 0,
            rhs.converts(),
            old(self).value() + rhs.as_u128() as nat <= u128::MAX,
        ensures
            final(self)@ == encode((old(self).value() + rhs.as_u128() as nat) as nat, A as nat),
    {
        *self = Vint::from(u128::from(*self) + rhs.to_u128());
    }
}

// difference

impl<const A: usize> Sub<Vint<A>> for u128 {
    type Output = Vint<A>;

    /// The difference of the two numbers, kept in `A` bytes.
    fn sub(self, rhs: Vint<A>) -> (r: Vint<A>)
        ensures
            r@ == encode((self as nat - rhs.value()) as nat, A as nat),
    {
        Vint::from(self - u128::from(rhs))
    }
}

impl<const A: usize> SubSpecImpl<Vint<A>> for u128 {
    open spec fn obeys_sub_spec() -> bool {
        true
    }

    open spec fn sub_req(self, rhs: Vint<A>) -> bool {
        A > 0 && self as nat >= rhs.value()
    }

    open spec fn sub_spec(self, rhs: Vint<A>) -> Vint<A> {
        Vint::<A>::encoding_of((self as nat - rhs.value()) as nat)
    }
}

impl<const A: usize, T: Operand> Sub<T> for Vint<A> {
    type Output = Vint<A>;

    /// The difference of the two numbers, kept in `A` bytes.
    fn sub(self, rhs: T) -> (r: Vint<A>)
        ensures
            r@ == encode((self.value() - rhs.as_u128() as nat) as nat, A as nat),
    {
        Vint::from(u128::from(self) - rhs.to_u128())
    }
}

impl<const A: usize, T: Operand> SubSpecImpl<T> for Vint<A> {
    open spec fn obeys_sub_spec() -> bool {
        true
    }

    open spec fn sub_req(self, rhs: T) -> bool {
        A > 0 && rhs.converts() && self.value() >= rhs.as_u128() as nat
    }

    open spec fn sub_spec(self, rhs: T) -> Vint<A> {
        Vint::<A>::encoding_of((self.value() - rhs.as_u128() as nat) as nat)
    }
}

impl<const A: usize> SubAssign<Vint<A>> for u128 {
    /// Replaces the number by its difference with the number that `rhs` stands for.
    fn sub_assign(&mut self, rhs: Vint<A>)
        requires
            A > 0,
            *old(self) as nat >= rhs.value(),
        ensures
            *final(self) == (*old(self) as nat - rhs.value()) as u128,
    {
        *self = *self - u128::from(rhs);
    }
}

impl<const A: usize, T: Operand> SubAssign<T> for Vint<A> {
    /// Replaces the value by the encoding of its difference with `rhs`.
    fn sub_assign(&mut self, rhs: T)
        requires
            A > 0,
            rhs.converts(),
            old(self).value() >= rhs.as_u128() as nat,
        ensures
            final(self)@ == encode((old(self).value() - rhs.as_u128() as nat) as nat, A as nat),
    {
        *self = Vint::from(u128::from(*self) - rhs.to_u128());
    }
}

// product

impl<const A: usize> Mul<Vint<A>> for u128 {
    type Output = Vint<A>;

    /// The product of the two numbers, kept in `A` bytes.
    fn mul(self, rhs: Vint<A>) -> (r: Vint<A>)
        ensures
            r@ == encode((self as nat * rhs.value()) as nat, A as nat),
    {
        Vint::from(self * u128::from(rhs))
    }
}

impl<const A: usize> MulSpecImpl<Vint<A>> for u128 {
    open spec fn obeys_mul_spec() -> bool {
        true
    }

    open spec fn mul_req(self, rhs: Vint<A>) -> bool {
        A > 0 && self as nat * rhs.value() <= u128::MAX
    }

    open spec fn mul_spec(self, rhs: Vint<A>) -> Vint<A> {
        Vint::<A>::encoding_of((self as nat * rhs.value()) as nat)
    }
}

impl<const A: usize, T: Operand> Mul<T> for Vint<A> {
    type Output = Vint<A>;

    /// The product of the two numbers, kept in `A` bytes.
    fn mul(self, rhs: T) -> (r: Vint<A>)
        ensures
            r@ == encode((self.value() * rhs.as_u128() as nat) as nat, A as nat),
    {
        Vint::from(u128::from(self) * rhs.to_u128())
    }
}

impl<const A: usize, T: Operand> MulSpecImpl<T> for Vint<A> {
    open spec fn obeys_mul_spec() -> bool {
        true
    }

    open spec fn mul_req(self, rhs: T) -> bool {
        A > 0 && rhs.converts() && self.value() * rhs.as_u128() as nat <= u128::MAX
    }

    open spec fn mul_spec(self, rhs: T) -> Vint<A> {
        Vint::<A>::encoding_of((self.value() * rhs.as_u128() as nat) as nat)
    }
}

impl<const A: usize> MulAssign<Vint<A>> for u128 {
    /// Replaces the number by its product with the number that `rhs` stands for.
    fn mul_assign(&mut self, rhs: Vint<A>)
        requires
            A > 0,
            *old(self) as nat * rhs.value() <= u128::MAX,
        ensures
            *final(self) == (*old(self) as nat * rhs.value()) as u128,
    {
        *self = *self * u128::from(rhs);
    }
}

impl<const A: usize, T: Operand> MulAssign<T> for Vint<A> {
    /// Replaces the value by the encoding of its product with `rhs`.
    fn mul_assign(&mut self, rhs: T)
        requires
            A > 0,
            rhs.converts(),
            old(self).value() * rhs.as_u128() as nat <= u128::MAX,
        ensures
            final(self)@ == encode((old(self).value() * rhs.as_u128() as nat) as nat, A as nat),
    {
        *self = Vint::from(u128::from(*self) * rhs.to_u128());
    }
}

// quotient

impl<const A: usize> Div<Vint<A>> for u128 {
    type Output = Vint<A>;

    /// The quotient of the two numbers, kept in `A` bytes.
    fn div(self, rhs: Vint<A>) -> (r: Vint<A>)
        ensures
            r@ == encode((self as nat / rhs.value()) as nat, A as nat),
    {
        Vint::from(self / u128::from(rhs))
    }
}

impl<const A: usize> DivSpecImpl<Vint<A>> for u128 {
    open spec fn obeys_div_spec() -> bool {
        true
    }

    open spec fn div_req(self, rhs: Vint<A>) -> bool {
        A > 0 && rhs.value() != 0
    }

    open spec fn div_spec(self, rhs: Vint<A>) -> Vint<A> {
        Vint::<A>::encoding_of((self as nat / rhs.value()) as nat)
    }
}

impl<const A: usize, T: Operand> Div<T> for Vint<A> {
    type Output = Vint<A>;

    /// The quotient of the two numbers, kept in `A` bytes.
    fn div(self, rhs: T) -> (r: Vint<A>)
        ensures
            r@ == encode((self.value() / rhs.as_u128() as nat) as nat, A as nat),
    {
        Vint::from(u128::from(self) / rhs.to_u128())
    }
}

impl<const A: usize, T: Operand> DivSpecImpl<T> for Vint<A> {
    open spec fn obeys_div_spec() -> bool {
        true
    }

    open spec fn div_req(self, rhs: T) -> bool {
        A > 0 && rhs.converts() && rhs.as_u128() as nat != 0
    }

    open spec fn div_spec(self, rhs: T) -> Vint<A> {
        Vint::<A>::encoding_of((self.value() / rhs.as_u128() as nat) as nat)
    }
}

impl<const A: usize> DivAssign<Vint<A>> for u128 {
    /// Replaces the number by its quotient with the number that `rhs` stands for.
    fn div_assign(&mut self, rhs: Vint<A>)
        requires
            A > 0,
            rhs.value() != 0,
        ensures
            *final(self) == (*old(self) as nat / rhs.value()) as u128,
    {
        *self = *self / u128::from(rhs);
    }
}

impl<const A: usize, T: Operand> DivAssign<T> for Vint<A> {
    /// Replaces the value by the encoding of its quotient with `rhs`.
    fn div_assign(&mut self, rhs: T)
        requires
            A > 0,
            rhs.converts(),
            rhs.as_u128() as nat != 0,
        ensures
            final(self)@ == encode((old(self).value() / rhs.as_u128() as nat) as nat, A as nat),
    {
        *self = Vint::from(u128::from(*self) / rhs.to_u128());
    }
}

// remainder

impl<const A: usize> Rem<Vint<A>> for u128 {
    type Output = Vint<A>;

    /// The remainder of the two numbers, kept in `A` bytes.
    fn rem(self, rhs: Vint<A>) -> (r: Vint<A>)
        ensures
            r@ == encode((self as nat % rhs.value()) as nat, A as nat),
    {
        Vint::from(self % u128::from(rhs))
    }
}

impl<const A: usize> RemSpecImpl<Vint<A>> for u128 {
    open spec fn obeys_rem_spec() -> bool {
        true
    }

    open spec fn rem_req(self, rhs: Vint<A>) -> bool {
        A > 0 && rhs.value() != 0
    }

    open spec fn rem_spec(self, rhs: Vint<A>) -> Vint<A> {
        Vint::<A>::encoding_of((self as nat % rhs.value()) as nat)
    }
}

impl<const A: usize, T: Operand> Rem<T> for Vint<A> {
    type Output = Vint<A>;

    /// The remainder of the two numbers, kept in `A` bytes.
    fn rem(self, rhs: T) -> (r: Vint<A>)
        ensures
            r@ == encode((self.value() % rhs.as_u128() as nat) as nat, A as nat),
    {
        Vint::from(u128::from(self) % rhs.to_u128())
    }
}

impl<const A: usize, T: Operand> RemSpecImpl<T> for Vint<A> {
    open spec fn obeys_rem_spec() -> bool {
        true
    }

    open spec fn rem_req(self, rhs: T) -> bool {
        A > 0 && rhs.converts() && rhs.as_u128() as nat != 0
    }

    open spec fn rem_spec(self, rhs: T) -> Vint<A> {
        Vint::<A>::encoding_of((self.value() % rhs.as_u128() as nat) as nat)
    }
}

impl<const A: usize> RemAssign<Vint<A>> for u128 {
    /// Replaces the number by its remainder with the number that `rhs` stands for.
    fn rem_assign(&mut self, rhs: Vint<A>)
        requires
            A > 0,
            rhs.value() != 0,
        ensures
            *final(self) == (*old(self) as nat % rhs.value()) as u128,
    {
        *self = *self % u128::from(rhs);
    }
}

impl<const A: usize, T: Operand> RemAssign<T> for Vint<A> {
    /// Replaces the value by the encoding of its remainder with `rhs`.
    fn rem_assign(&mut self, rhs: T)
        requires
            A > 0,
            rhs.converts(),
            rhs.as_u128() as nat != 0,
        ensures
            final(self)@ == encode((old(self).value() % rhs.as_u128() as nat) as nat, A as nat),
    {
        *self = Vint::from(u128::from(*self) % rhs.to_u128());
    }
}

// bitwise and

impl<const A: usize> BitAnd<Vint<A>> for u128 {
    type Output = Vint<A>;

    /// The bitwise and of the two numbers, kept in `A` bytes.
    fn bitand(self, rhs: Vint<A>) -> (r: Vint<A>)
        ensures
            r@ == encode((self & (rhs.value() as u128)) as nat, A as nat),
    {
        Vint::from(self & u128::from(rhs))
    }
}

impl<const A: usize> BitAndSpecImpl<Vint<A>> for u128 {
    open spec fn obeys_bitand_spec() -> bool {
        true
    }

    open spec fn bitand_req(self, rhs: Vint<A>) -> bool {
        A > 0
    }

    open spec fn bitand_spec(self, rhs: Vint<A>) -> Vint<A> {
        Vint::<A>::encoding_of((self & (rhs.value() as u128)) as nat)
    }
}

impl<const A: usize, T: Operand> BitAnd<T> for Vint<A> {
    type Output = Vint<A>;

    /// The bitwise and of the two numbers, kept in `A` bytes.
    fn bitand(self, rhs: T) -> (r: Vint<A>)
        ensures
            r@ == encode(((self.value() as u128) & rhs.as_u128()) as nat, A as nat),
    {
        Vint::from(u128::from(self) & rhs.to_u128())
    }
}

impl<const A: usize, T: Operand> BitAndSpecImpl<T> for Vint<A> {
    open spec fn obeys_bitand_spec() -> bool {
        true
    }

    open spec fn bitand_req(self, rhs: T) -> bool {
        A > 0 && rhs.converts()
    }

    open spec fn bitand_spec(self, rhs: T) -> Vint<A> {
        Vint::<A>::encoding_of(((self.value() as u128) & rhs.as_u128()) as nat)
    }
}

impl<const A: usize> BitAndAssign<Vint<A>> for u128 {
    /// Replaces the number by its bitwise and with the number that `rhs` stands for.
    fn bitand_assign(&mut self, rhs: Vint<A>)
        requires
            A > 0,
        ensures
            *final(self) == *old(self) & (rhs.value() as u128),
    {
        *self = *self & u128::from(rhs);
    }
}

impl<const A: usize, T: Operand> BitAndAssign<T> for Vint<A> {
    /// Replaces the value by the encoding of its bitwise and with `rhs`.
    fn bitand_assign(&mut self, rhs: T)
        requires
            A > 0,
            rhs.converts(),
        ensures
            final(self)@ == encode(((old(self).value() as u128) & rhs.as_u128()) as nat, A as nat),
    {
        *self = Vint::from(u128::from(*self) & rhs.to_u128());
    }
}

// bitwise or

impl<const A: usize> BitOr<Vint<A>> for u128 {
    type Output = Vint<A>;

    /// The bitwise or of the two numbers, kept in `A` bytes.
    fn bitor(self, rhs: Vint<A>) -> (r: Vint<A>)
        ensures
            r@ == encode((self | (rhs.value() as u128)) as nat, A as nat),
    {
        Vint::from(self | u128::from(rhs))
    }
}

impl<const A: usize> BitOrSpecImpl<Vint<A>> for u128 {
    open spec fn obeys_bitor_spec() -> bool {
        true
    }

    open spec fn bitor_req(self, rhs: Vint<A>) -> bool {
        A > 0
    }

    open spec fn bitor_spec(self, rhs: Vint<A>) -> Vint<A> {
        Vint::<A>::encoding_of((self | (rhs.value() as u128)) as nat)
    }
}

impl<const A: usize, T: Operand> BitOr<T> for Vint<A> {
    type Output = Vint<A>;

    /// The bitwise or of the two numbers, kept in `A` bytes.
    fn bitor(self, rhs: T) -> (r: Vint<A>)
        ensures
            r@ == encode(((self.value() as u128) | rhs.as_u128()) as nat, A as nat),
    {
        Vint::from(u128::from(self) | rhs.to_u128())
    }
}

impl<const A: usize, T: Operand> BitOrSpecImpl<T> for Vint<A> {
    open spec fn obeys_bitor_spec() -> bool {
        true
    }

    open spec fn bitor_req(self, rhs: T) -> bool {
        A > 0 && rhs.converts()
    }

    open spec fn bitor_spec(self, rhs: T) -> Vint<A> {
        Vint::<A>::encoding_of(((self.value() as u128) | rhs.as_u128()) as nat)
    }
}

impl<const A: usize> BitOrAssign<Vint<A>> for u128 {
    /// Replaces the number by its bitwise or with the number that `rhs` stands for.
    fn bitor_assign(&mut self, rhs: Vint<A>)
        requires
            A > 0,
        ensures
            *final(self) == *old(self) | (rhs.value() as u128),
    {
        *self = *self | u128::from(rhs);
    }
}

impl<const A: usize, T: Operand> BitOrAssign<T> for Vint<A> {
    /// Replaces the value by the encoding of its bitwise or with `rhs`.
    fn bitor_assign(&mut self, rhs: T)
        requires
            A > 0,
            rhs.converts(),
        ensures
            final(self)@ == encode(((old(self).value() as u128) | rhs.as_u128()) as nat, A as nat),
    {
        *self = Vint::from(u128::from(*self) | rhs.to_u128());
    }
}

// bitwise exclusive or

impl<const A: usize> BitXor<Vint<A>> for u128 {
    type Output = Vint<A>;

    /// The bitwise exclusive or of the two numbers, kept in `A` bytes.
    fn bitxor(self, rhs: Vint<A>) -> (r: Vint<A>)
        ensures
            r@ == encode((self ^ (rhs.value() as u128)) as nat, A as nat),
    {
        Vint::from(self ^ u128::from(rhs))
    }
}

impl<const A: usize> BitXorSpecImpl<Vint<A>> for u128 {
    open spec fn obeys_bitxor_spec() -> bool {
        true
    }

    open spec fn bitxor_req(self, rhs: Vint<A>) -> bool {
        A > 0
    }

    open spec fn bitxor_spec(self, rhs: Vint<A>) -> Vint<A> {
        Vint::<A>::encoding_of((self ^ (rhs.value() as u128)) as nat)
    }
}

impl<const A: usize, T: Operand> BitXor<T> for Vint<A> {
    type Output = Vint<A>;

    /// The bitwise exclusive or of the two numbers, kept in `A` bytes.
    fn bitxor(self, rhs: T) -> (r: Vint<A>)
        ensures
            r@ == encode(((self.value() as u128) ^ rhs.as_u128()) as nat, A as nat),
    {
        Vint::from(u128::from(self) ^ rhs.to_u128())
    }
}

impl<const A: usize, T: Operand> BitXorSpecImpl<T> for Vint<A> {
    open spec fn obeys_bitxor_spec() -> bool {
        true
    }

    open spec fn bitxor_req(self, rhs: T) -> bool {
        A > 0 && rhs.converts()
    }

    open spec fn bitxor_spec(self, rhs: T) -> Vint<A> {
        Vint::<A>::encoding_of(((self.value() as u128) ^ rhs.as_u128()) as nat)
    }
}

impl<const A: usize> BitXorAssign<Vint<A>> for u128 {
    /// Replaces the number by its bitwise exclusive or with the number that `rhs` stands for.
    fn bitxor_assign(&mut self, rhs: Vint<A>)
        requires
            A > 0,
        ensures
            *final(self) == *old(self) ^ (rhs.value() as u128),
    {
        *self = *self ^ u128::from(rhs);
    }
}

impl<const A: usize, T: Operand> BitXorAssign<T> for Vint<A> {
    /// Replaces the value by the encoding of its bitwise exclusive or with `rhs`.
    fn bitxor_assign(&mut self, rhs: T)
        requires
            A > 0,
            rhs.converts(),
        ensures
            final(self)@ == encode(((old(self).value() as u128) ^ rhs.as_u128()) as nat, A as nat),
    {
        *self = Vint::from(u128::from(*self) ^ rhs.to_u128());
    }
}

// left shift

impl<const A: usize> Shl<Vint<A>> for u128 {
    type Output = Vint<A>;

    /// The left shift of the two numbers, kept in `A` bytes.
    fn shl(self, rhs: Vint<A>) -> (r: Vint<A>)
        ensures
            r@ == encode((self << (rhs.value() as u128)) as nat, A as nat),
    {
        Vint::from(self << u128::from(rhs))
    }
}

impl<const A: usize> ShlSpecImpl<Vint<A>> for u128 {
    open spec fn obeys_shl_spec() -> bool {
        true
    }

    open spec fn shl_req(self, rhs: Vint<A>) -> bool {
        A > 0 && (rhs.value() as u128) < 128
    }

    open spec fn shl_spec(self, rhs: Vint<A>) -> Vint<A> {
        Vint::<A>::encoding_of((self << (rhs.value() as u128)) as nat)
    }
}

impl<const A: usize, T: Operand> Shl<T> for Vint<A> {
    type Output = Vint<A>;

    /// The left shift of the two numbers, kept in `A` bytes.
    fn shl(self, rhs: T) -> (r: Vint<A>)
        ensures
            r@ == encode(((self.value() as u128) << rhs.as_u128()) as nat, A as nat),
    {
        Vint::from(u128::from(self) << rhs.to_u128())
    }
}

impl<const A: usize, T: Operand> ShlSpecImpl<T> for Vint<A> {
    open spec fn obeys_shl_spec() -> bool {
        true
    }

    open spec fn shl_req(self, rhs: T) -> bool {
        A > 0 && rhs.converts() && rhs.as_u128() < 128
    }

    open spec fn shl_spec(self, rhs: T) -> Vint<A> {
        Vint::<A>::encoding_of(((self.value() as u128) << rhs.as_u128()) as nat)
    }
}

impl<const A: usize> ShlAssign<Vint<A>> for u128 {
    /// Replaces the number by its left shift with the number that `rhs` stands for.
    fn shl_assign(&mut self, rhs: Vint<A>)
        requires
            A > 0,
            (rhs.value() as u128) < 128,
        ensures
            *final(self) == *old(self) << (rhs.value() as u128),
    {
        *self = *self << u128::from(rhs);
    }
}

impl<const A: usize, T: Operand> ShlAssign<T> for Vint<A> {
    /// Replaces the value by the encoding of its left shift with `rhs`.
    fn shl_assign(&mut self, rhs: T)
        requires
            A > 0,
            rhs.converts(),
            rhs.as_u128() < 128,
        ensures
            final(self)@ == encode(((old(self).value() as u128) << rhs.as_u128()) as nat, A as nat),
    {
        *self = Vint::from(u128::from(*self) << rhs.to_u128());
    }
}

// right shift

impl<const A: usize> Shr<Vint<A>> for u128 {
    type Output = Vint<A>;

    /// The right shift of the two numbers, kept in `A` bytes.
    fn shr(self, rhs: Vint<A>) -> (r: Vint<A>)
        ensures
            r@ == encode((self >> (rhs.value() as u128)) as nat, A as nat),
    {
        Vint::from(self >> u128::from(rhs))
    }
}

impl<const A: usize> ShrSpecImpl<Vint<A>> for u128 {
    open spec fn obeys_shr_spec() -> bool {
        true
    }

    open spec fn shr_req(self, rhs: Vint<A>) -> bool {
        A > 0 && (rhs.value() as u128) < 128
    }

    open spec fn shr_spec(self, rhs: Vint<A>) -> Vint<A> {
        Vint::<A>::encoding_of((self >> (rhs.value() as u128)) as nat)
    }
}

impl<const A: usize, T: Operand> Shr<T> for Vint<A> {
    type Output = Vint<A>;

    /// The right shift of the two numbers, kept in `A` bytes.
    fn shr(self, rhs: T) -> (r: Vint<A>)
        ensures
            r@ == encode(((self.value() as u128) >> rhs.as_u128()) as nat, A as nat),
    {
        Vint::from(u128::from(self) >> rhs.to_u128())
    }
}

impl<const A: usize, T: Operand> ShrSpecImpl<T> for Vint<A> {
    open spec fn obeys_shr_spec() -> bool {
        true
    }

    open spec fn shr_req(self, rhs: T) -> bool {
        A > 0 && rhs.converts() && rhs.as_u128() < 128
    }

    open spec fn shr_spec(self, rhs: T) -> Vint<A> {
        Vint::<A>::encoding_of(((self.value() as u128) >> rhs.as_u128()) as nat)
    }
}

impl<const A: usize> ShrAssign<Vint<A>> for u128 {
    /// Replaces the number by its right shift with the number that `rhs` stands for.
    fn shr_assign(&mut self, rhs: Vint<A>)
        requires
            A > 0,
            (rhs.value() as u128) < 128,
        ensures
            *final(self) == *old(self) >> (rhs.value() as u128),
    {
        *self = *self >> u128::from(rhs);
    }
}

impl<const A: usize, T: Operand> ShrAssign<T> for Vint<A> {
    /// Replaces the value by the encoding of its right shift with `rhs`.
    fn shr_assign(&mut self, rhs: T)
        requires
            A > 0,
            rhs.converts(),
            rhs.as_u128() < 128,
        ensures
            final(self)@ == encode(((old(self).value() as u128) >> rhs.as_u128()) as nat, A as nat),
    {
        *self = Vint::from(u128::from(*self) >> rhs.to_u128());
    }
}

// the right operands

/// Every right operand stands for its own number: an unsigned integer for
/// itself, `bool` for `1` or `0`, `char` for its code point and a `Vint` for the
/// number it stands for.
pub proof fn lemma_operand_values<const B: usize>(
    a: u8,
    b: u16,
    c: u32,
    d: u64,
    e: u128,
    t: bool,
    ch: char,
    v: Vint<B>,
)
    ensures
        a.converts() && a.as_u128() as nat == a as nat,
        b.converts() && b.as_u128() as nat == b as nat,
        c.converts() && c.as_u128() as nat == c as nat,
        d.converts() && d.as_u128() as nat == d as nat,
        e.converts() && e.as_u128() == e,
        t.converts() && t.as_u128() == (if t {
            1u128
        } else {
            0u128
        }),
        ch.converts() && ch.as_u128() as nat == (ch as u32) as nat,
        v.converts() == (B > 0) && v.as_u128() as nat == v.value(),
{
    lemma_decode_fits(v@);
}

/// An operator with an unsigned byte on its right gives what it gives with the same
/// number as a `u128`.
pub proof fn lemma_u8_operand<const A: usize>(v: Vint<A>, x: u8)
    ensures
        AddSpec::add_req(v, x) == AddSpec::add_req(v, x as u128),
        AddSpec::add_spec(v, x) == AddSpec::add_spec(v, x as u128),
        SubSpec::sub_req(v, x) == SubSpec::sub_req(v, x as u128),
        SubSpec::sub_spec(v, x) == SubSpec::sub_spec(v, x as u128),
        MulSpec::mul_req(v, x) == MulSpec::mul_req(v, x as u128),
        MulSpec::mul_spec(v, x) == MulSpec::mul_spec(v, x as u128),
        DivSpec::div_req(v, x) == DivSpec::div_req(v, x as u128),
        DivSpec::div_spec(v, x) == DivSpec::div_spec(v, x as u128),
        RemSpec::rem_req(v, x) == RemSpec::rem_req(v, x as u128),
        RemSpec::rem_spec(v, x) == RemSpec::rem_spec(v, x as u128),
        BitAndSpec::bitand_req(v, x) == BitAndSpec::bitand_req(v, x as u128),
        BitAndSpec::bitand_spec(v, x) == BitAndSpec::bitand_spec(v, x as u128),
        BitOrSpec::bitor_req(v, x) == BitOrSpec::bitor_req(v, x as u128),
        BitOrSpec::bitor_spec(v, x) == BitOrSpec::bitor_spec(v, x as u128),
        BitXorSpec::bitxor_req(v, x) == BitXorSpec::bitxor_req(v, x as u128),
        BitXorSpec::bitxor_spec(v, x) == BitXorSpec::bitxor_spec(v, x as u128),
        ShlSpec::shl_req(v, x) == ShlSpec::shl_req(v, x as u128),
        ShlSpec::shl_spec(v, x) == ShlSpec::shl_spec(v, x as u128),
        ShrSpec::shr_req(v, x) == ShrSpec::shr_req(v, x as u128),
        ShrSpec::shr_spec(v, x) == ShrSpec::shr_spec(v, x as u128),
{
}

/// An operator with a `u16` on its right gives what it gives with the same
/// number as a `u128`.
pub proof fn lemma_u16_operand<const A: usize>(v: Vint<A>, x: u16)
    ensures
        AddSpec::add_req(v, x) == AddSpec::add_req(v, x as u128),
        AddSpec::add_spec(v, x) == AddSpec::add_spec(v, x as u128),
        SubSpec::sub_req(v, x) == SubSpec::sub_req(v, x as u128),
        SubSpec::sub_spec(v, x) == SubSpec::sub_spec(v, x as u128),
        MulSpec::mul_req(v, x) == MulSpec::mul_req(v, x as u128),
        MulSpec::mul_spec(v, x) == MulSpec::mul_spec(v, x as u128),
        DivSpec::div_req(v, x) == DivSpec::div_req(v, x as u128),
        DivSpec::div_spec(v, x) == DivSpec::div_spec(v, x as u128),
        RemSpec::rem_req(v, x) == RemSpec::rem_req(v, x as u128),
        RemSpec::rem_spec(v, x) == RemSpec::rem_spec(v, x as u128),
        BitAndSpec::bitand_req(v, x) == BitAndSpec::bitand_req(v, x as u128),
        BitAndSpec::bitand_spec(v, x) == BitAndSpec::bitand_spec(v, x as u128),
        BitOrSpec::bitor_req(v, x) == BitOrSpec::bitor_req(v, x as u128),
        BitOrSpec::bitor_spec(v, x) == BitOrSpec::bitor_spec(v, x as u128),
        BitXorSpec::bitxor_req(v, x) == BitXorSpec::bitxor_req(v, x as u128),
        BitXorSpec::bitxor_spec(v, x) == BitXorSpec::bitxor_spec(v, x as u128),
        ShlSpec::shl_req(v, x) == ShlSpec::shl_req(v, x as u128),
        ShlSpec::shl_spec(v, x) == ShlSpec::shl_spec(v, x as u128),
        ShrSpec::shr_req(v, x) == ShrSpec::shr_req(v, x as u128),
        ShrSpec::shr_spec(v, x) == ShrSpec::shr_spec(v, x as u128),
{
}

/// An operator with a `u32` on its right gives what it gives with the same
/// number as a `u128`.
pub proof fn lemma_u32_operand<const A: usize>(v: Vint<A>, x: u32)
    ensures
        AddSpec::add_req(v, x) == AddSpec::add_req(v, x as u128),
        AddSpec::add_spec(v, x) == AddSpec::add_spec(v, x as u128),
        SubSpec::sub_req(v, x) == SubSpec::sub_req(v, x as u128),
        SubSpec::sub_spec(v, x) == SubSpec::sub_spec(v, x as u128),
        MulSpec::mul_req(v, x) == MulSpec::mul_req(v, x as u128),
        MulSpec::mul_spec(v, x) == MulSpec::mul_spec(v, x as u128),
        DivSpec::div_req(v, x) == DivSpec::div_req(v, x as u128),
        DivSpec::div_spec(v, x) == DivSpec::div_spec(v, x as u128),
        RemSpec::rem_req(v, x) == RemSpec::rem_req(v, x as u128),
        RemSpec::rem_spec(v, x) == RemSpec::rem_spec(v, x as u128),
        BitAndSpec::bitand_req(v, x) == BitAndSpec::bitand_req(v, x as u128),
        BitAndSpec::bitand_spec(v, x) == BitAndSpec::bitand_spec(v, x as u128),
        BitOrSpec::bitor_req(v, x) == BitOrSpec::bitor_req(v, x as u128),
        BitOrSpec::bitor_spec(v, x) == BitOrSpec::bitor_spec(v, x as u128),
        BitXorSpec::bitxor_req(v, x) == BitXorSpec::bitxor_req(v, x as u128),
        BitXorSpec::bitxor_spec(v, x) == BitXorSpec::bitxor_spec(v, x as u128),
        ShlSpec::shl_req(v, x) == ShlSpec::shl_req(v, x as u128),
        ShlSpec::shl_spec(v, x) == ShlSpec::shl_spec(v, x as u128),
        ShrSpec::shr_req(v, x) == ShrSpec::shr_req(v, x as u128),
        ShrSpec::shr_spec(v, x) == ShrSpec::shr_spec(v, x as u128),
{
}

/// An operator with a `u64` on its right gives what it gives with the same
/// number as a `u128`.
pub proof fn lemma_u64_operand<const A: usize>(v: Vint<A>, x: u64)
    ensures
        AddSpec::add_req(v, x) == AddSpec::add_req(v, x as u128),
        AddSpec::add_spec(v, x) == AddSpec::add_spec(v, x as u128),
        SubSpec::sub_req(v, x) == SubSpec::sub_req(v, x as u128),
        SubSpec::sub_spec(v, x) == SubSpec::sub_spec(v, x as u128),
        MulSpec::mul_req(v, x) == MulSpec::mul_req(v, x as u128),
        MulSpec::mul_spec(v, x) == MulSpec::mul_spec(v, x as u128),
        DivSpec::div_req(v, x) == DivSpec::div_req(v, x as u128),
        DivSpec::div_spec(v, x) == DivSpec::div_spec(v, x as u128),
        RemSpec::rem_req(v, x) == RemSpec::rem_req(v, x as u128),
        RemSpec::rem_spec(v, x) == RemSpec::rem_spec(v, x as u128),
        BitAndSpec::bitand_req(v, x) == BitAndSpec::bitand_req(v, x as u128),
        BitAndSpec::bitand_spec(v, x) == BitAndSpec::bitand_spec(v, x as u128),
        BitOrSpec::bitor_req(v, x) == BitOrSpec::bitor_req(v, x as u128),
        BitOrSpec::bitor_spec(v, x) == BitOrSpec::bitor_spec(v, x as u128),
        BitXorSpec::bitxor_req(v, x) == BitXorSpec::bitxor_req(v, x as u128),
        BitXorSpec::bitxor_spec(v, x) == BitXorSpec::bitxor_spec(v, x as u128),
        ShlSpec::shl_req(v, x) == ShlSpec::shl_req(v, x as u128),
        ShlSpec::shl_spec(v, x) == ShlSpec::shl_spec(v, x as u128),
        ShrSpec::shr_req(v, x) == ShrSpec::shr_req(v, x as u128),
        ShrSpec::shr_spec(v, x) == ShrSpec::shr_spec(v, x as u128),
{
}

/// An operator with a `bool` on its right gives what it gives with the same
/// number as a `u128`.
pub proof fn lemma_bool_operand<const A: usize>(v: Vint<A>, x: bool)
    ensures
        AddSpec::add_req(v, x) == AddSpec::add_req(v, (if x {
            1u128
        } else {
            0u128
        })),
        AddSpec::add_spec(v, x) == AddSpec::add_spec(v, (if x {
            1u128
        } else {
            0u128
        })),
        SubSpec::sub_req(v, x) == SubSpec::sub_req(v, (if x {
            1u128
        } else {
            0u128
        })),
        SubSpec::sub_spec(v, x) == SubSpec::sub_spec(v, (if x {
            1u128
        } else {
            0u128
        })),
        MulSpec::mul_req(v, x) == MulSpec::mul_req(v, (if x {
            1u128
        } else {
            0u128
        })),
        MulSpec::mul_spec(v, x) == MulSpec::mul_spec(v, (if x {
            1u128
        } else {
            0u128
        })),
        DivSpec::div_req(v, x) == DivSpec::div_req(v, (if x {
            1u128
        } else {
            0u128
        })),
        DivSpec::div_spec(v, x) == DivSpec::div_spec(v, (if x {
            1u128
        } else {
            0u128
        })),
        RemSpec::rem_req(v, x) == RemSpec::rem_req(v, (if x {
            1u128
        } else {
            0u128
        })),
        RemSpec::rem_spec(v, x) == RemSpec::rem_spec(v, (if x {
            1u128
        } else {
            0u128
        })),
        BitAndSpec::bitand_req(v, x) == BitAndSpec::bitand_req(v, (if x {
            1u128
        } else {
            0u128
        })),
        BitAndSpec::bitand_spec(v, x) == BitAndSpec::bitand_spec(v, (if x {
            1u128
        } else {
            0u128
        })),
        BitOrSpec::bitor_req(v, x) == BitOrSpec::bitor_req(v, (if x {
            1u128
        } else {
            0u128
        })),
        BitOrSpec::bitor_spec(v, x) == BitOrSpec::bitor_spec(v, (if x {
            1u128
        } else {
            0u128
        })),
        BitXorSpec::bitxor_req(v, x) == BitXorSpec::bitxor_req(v, (if x {
            1u128
        } else {
            0u128
        })),
        BitXorSpec::bitxor_spec(v, x) == BitXorSpec::bitxor_spec(v, (if x {
            1u128
        } else {
            0u128
        })),
        ShlSpec::shl_req(v, x) == ShlSpec::shl_req(v, (if x {
            1u128
        } else {
            0u128
        })),
        ShlSpec::shl_spec(v, x) == ShlSpec::shl_spec(v, (if x {
            1u128
        } else {
            0u128
        })),
        ShrSpec::shr_req(v, x) == ShrSpec::shr_req(v, (if x {
            1u128
        } else {
            0u128
        })),
        ShrSpec::shr_spec(v, x) == ShrSpec::shr_spec(v, (if x {
            1u128
        } else {
            0u128
        })),
{
}

/// An operator with a `char` on its right gives what it gives with the same
/// number as a `u128`.
pub proof fn lemma_char_operand<const A: usize>(v: Vint<A>, x: char)
    ensures
        AddSpec::add_req(v, x) == AddSpec::add_req(v, ((x as u32) as u128)),
        AddSpec::add_spec(v, x) == AddSpec::add_spec(v, ((x as u32) as u128)),
        SubSpec::sub_req(v, x) == SubSpec::sub_req(v, ((x as u32) as u128)),
        SubSpec::sub_spec(v, x) == SubSpec::sub_spec(v, ((x as u32) as u128)),
        MulSpec::mul_req(v, x) == MulSpec::mul_req(v, ((x as u32) as u128)),
        MulSpec::mul_spec(v, x) == MulSpec::mul_spec(v, ((x as u32) as u128)),
        DivSpec::div_req(v, x) == DivSpec::div_req(v, ((x as u32) as u128)),
        DivSpec::div_spec(v, x) == DivSpec::div_spec(v, ((x as u32) as u128)),
        RemSpec::rem_req(v, x) == RemSpec::rem_req(v, ((x as u32) as u128)),
        RemSpec::rem_spec(v, x) == RemSpec::rem_spec(v, ((x as u32) as u128)),
        BitAndSpec::bitand_req(v, x) == BitAndSpec::bitand_req(v, ((x as u32) as u128)),
        BitAndSpec::bitand_spec(v, x) == BitAndSpec::bitand_spec(v, ((x as u32) as u128)),
        BitOrSpec::bitor_req(v, x) == BitOrSpec::bitor_req(v, ((x as u32) as u128)),
        BitOrSpec::bitor_spec(v, x) == BitOrSpec::bitor_spec(v, ((x as u32) as u128)),
        BitXorSpec::bitxor_req(v, x) == BitXorSpec::bitxor_req(v, ((x as u32) as u128)),
        BitXorSpec::bitxor_spec(v, x) == BitXorSpec::bitxor_spec(v, ((x as u32) as u128)),
        ShlSpec::shl_req(v, x) == ShlSpec::shl_req(v, ((x as u32) as u128)),
        ShlSpec::shl_spec(v, x) == ShlSpec::shl_spec(v, ((x as u32) as u128)),
        ShrSpec::shr_req(v, x) == ShrSpec::shr_req(v, ((x as u32) as u128)),
        ShrSpec::shr_spec(v, x) == ShrSpec::shr_spec(v, ((x as u32) as u128)),
{
}

/// An operator with a `Vint` on its right gives what it gives with the number
/// that `Vint` stands for as a `u128`.
pub proof fn lemma_vint_operand<const A: usize, const B: usize>(v: Vint<A>, x: Vint<B>)
    requires
        B > 0,
    ensures
        AddSpec::add_req(v, x) == AddSpec::add_req(v, (x.value() as u128)),
        AddSpec::add_spec(v, x) == AddSpec::add_spec(v, (x.value() as u128)),
        SubSpec::sub_req(v, x) == SubSpec::sub_req(v, (x.value() as u128)),
        SubSpec::sub_spec(v, x) == SubSpec::sub_spec(v, (x.value() as u128)),
        MulSpec::mul_req(v, x) == MulSpec::mul_req(v, (x.value() as u128)),
        MulSpec::mul_spec(v, x) == MulSpec::mul_spec(v, (x.value() as u128)),
        DivSpec::div_req(v, x) == DivSpec::div_req(v, (x.value() as u128)),
        DivSpec::div_spec(v, x) == DivSpec::div_spec(v, (x.value() as u128)),
        RemSpec::rem_req(v, x) == RemSpec::rem_req(v, (x.value() as u128)),
        RemSpec::rem_spec(v, x) == RemSpec::rem_spec(v, (x.value() as u128)),
        BitAndSpec::bitand_req(v, x) == BitAndSpec::bitand_req(v, (x.value() as u128)),
        BitAndSpec::bitand_spec(v, x) == BitAndSpec::bitand_spec(v, (x.value() as u128)),
        BitOrSpec::bitor_req(v, x) == BitOrSpec::bitor_req(v, (x.value() as u128)),
        BitOrSpec::bitor_spec(v, x) == BitOrSpec::bitor_spec(v, (x.value() as u128)),
        BitXorSpec::bitxor_req(v, x) == BitXorSpec::bitxor_req(v, (x.value() as u128)),
        BitXorSpec::bitxor_spec(v, x) == BitXorSpec::bitxor_spec(v, (x.value() as u128)),
        ShlSpec::shl_req(v, x) == ShlSpec::shl_req(v, (x.value() as u128)),
        ShlSpec::shl_spec(v, x) == ShlSpec::shl_spec(v, (x.value() as u128)),
        ShrSpec::shr_req(v, x) == ShrSpec::shr_req(v, (x.value() as u128)),
        ShrSpec::shr_spec(v, x) == ShrSpec::shr_spec(v, (x.value() as u128)),
{
    lemma_decode_fits(x@);
}

} // verus!
