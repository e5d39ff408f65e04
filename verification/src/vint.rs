//! The `Vint` type: a `u128` kept in `A` bytes as a big-endian mantissa whose
//! last byte carries, in its low nibble, the position of the value's most
//! significant byte.
//!
//! Encoding keeps the most significant bytes of the value, starting at its
//! first non-zero byte; the low nibble of the last stored byte is given up to
//! the exponent. Decoding puts the stored bytes back at their places and fills
//! the rest with zeros, so values with fewer than `A` significant bytes come
//! back exactly and larger ones are rounded down.
use crate::bytes::{
    be_value, byte_at, lemma_be_value_bound, lemma_be_value_leading_zeros, lemma_be_value_zeros,
    lemma_nonzero_byte, lemma_pow256_16, lemma_pow256_le, lemma_pow256_one, lemma_pow256_pos,
    lemma_pow256_pow2, lemma_top_byte_unique, lemma_zero_top_byte, pow256, top_byte, zeros,
};
use crate::decimal::{decimal, decimal_string};
use crate::laws::{floor_value, lemma_decode_encode};
use vstd::bits::lemma_u128_shr_is_div;
use vstd::prelude::*;

verus! {

/// A `u128` kept in `A` bytes.
#[derive(Clone, Copy, Debug, PartialEq, Eq, PartialOrd, Ord)]
pub struct Vint<const A: usize>(pub [u8; A]);

impl<const A: usize> View for Vint<A> {
    type V = Seq<u8>;

    open spec fn view(&self) -> Seq<u8> {
        self.0@
    }
}

/// The exponent of a non-empty encoding: the low nibble of its last byte.
pub open spec fn exponent(b: Seq<u8>) -> nat {
    (b.last() & 0x0f) as nat
}

/// The `exponent + 1` digits of the decoded value, most significant first:
/// the stored bytes, the last of them without its low nibble, then zeros.
pub open spec fn mantissa(b: Seq<u8>) -> Seq<u8> {
    Seq::new(
        exponent(b) + 1,
        |i: int|
            if i < b.len() - 1 {
                b[i]
            } else if i == b.len() - 1 {
                b[i] & 0xf0
            } else {
                0u8
            },
    )
}

/// The number that an encoding stands for (zero for the empty encoding).
pub open spec fn decode(b: Seq<u8>) -> nat {
    if b.len() == 0 {
        0
    } else {
        be_value(mantissa(b))
    }
}

/// The `n`-byte encoding of `u`: its bytes from the most significant non-zero
/// one downwards (zeros once they run out), with the low nibble of the last
/// byte replaced by the position of that most significant byte.
pub open spec fn encode(u: nat, n: nat) -> Seq<u8> {
    let s = top_byte(u);
    Seq::new(
        n,
        |j: int|
            {
                let m = if j <= s {
                    byte_at(u, (s - j) as nat)
                } else {
                    0u8
                };
                if j == n - 1 {
                    (m & 0xf0) | (s as u8)
                } else {
                    m
                }
            },
    )
}

impl<const A: usize> Vint<A> {
    /// The number this value stands for.
    pub open spec fn value(self) -> nat {
        decode(self@)
    }

    /// The value whose bytes are the `A`-byte encoding of `u`.
    pub open spec fn encoding_of(u: nat) -> Vint<A> {
        choose|v: Vint<A>| v@ == encode(u, A as nat)
    }

    /// A value is the encoding of `u` exactly when its bytes are.
    pub proof fn lemma_encoding_of(v: Vint<A>, u: nat)
        requires
            v@ == encode(u, A as nat),
        ensures
            Vint::<A>::encoding_of(u) == v,
    {
        broadcast use vstd::array::group_array_axioms;

        let c = Vint::<A>::encoding_of(u);
        assert(c@ == encode(u, A as nat));
        assert(c.0 =~= v.0);
    }
}

/// The bytes of an encoding have at most 16 digits, so its value fits in a `u128`.
pub proof fn lemma_decode_fits(b: Seq<u8>)
    ensures
        decode(b) <= u128::MAX,
{
    if b.len() > 0 {
        let e = exponent(b);
        let l = b.last();
        assert(l & 0x0f <= 15) by (bit_vector);
        lemma_be_value_bound(mantissa(b));
        lemma_pow256_le(e + 1, 16);
        lemma_pow256_16();
    }
}

/// Byte `15 - k` of `u`: its `k`-th byte in big-endian order.
fn be_byte(u: u128, k: usize) -> (b: u8)
    requires
        k < 16,
    ensures
        b == byte_at(u as nat, (15 - k) as nat),
{
    let sh: u128 = 8 * (15 - k) as u128;
    let shifted = u >> sh;
    proof {
        lemma_u128_shr_is_div(u, sh);
        lemma_pow256_pow2((15 - k) as nat);
    }
    let low = shifted & 0xff;
    assert(low == shifted % 256) by (bit_vector)
        requires
            low == shifted & 0xff,
    ;
    low as u8
}

/// The big-endian value of 16 bytes.
fn be_u128(b: &[u8; 16]) -> (r: u128)
    ensures
        r as nat == be_value(b@),
{
    let mut acc: u128 = 0;
    let mut k: usize = 0;
    while k < 16
        invariant
            k <= 16,
            acc as nat == be_value(b@.take(k as int)),
        decreases 16 - k,
    {
        proof {
            lemma_be_value_bound(b@.take(k as int));
            lemma_pow256_le(k as nat + 1, 16);
            lemma_pow256_16();
            assert(pow256(k as nat + 1) == 256 * pow256(k as nat));
            assert(b@.take(k + 1).drop_last() =~= b@.take(k as int));
            let x = acc as nat;
            let p = pow256(k as nat);
            let d = b@[k as int] as nat;
            assert(x * 256 + d < 256 * p) by (nonlinear_arith)
                requires
                    x < p,
                    d < 256,
            ;
        }
        acc = acc * 256 + b[k] as u128;
        k += 1;
    }
    assert(b@.take(16) =~= b@);
    acc
}

impl<const A: usize> Default for Vint<A> {
    /// All bytes zero: the encoding of zero.
    fn default() -> (v: Vint<A>)
        ensures
            v@ == zeros(A as nat),
            v@ == encode(0, A as nat),
            v.value() == 0,
    {
        broadcast use vstd::array::group_array_axioms;

        let v = Vint([0u8; A]);
        proof {
            assert(v@ =~= zeros(A as nat));
            assert(top_byte(0) == 0);
            assert(byte_at(0, 0) == 0) by {
                lemma_pow256_pos(0);
            }
            assert((0u8 & 0xf0u8) | 0u8 == 0u8) by (bit_vector);
            assert(v@ =~= encode(0, A as nat));
            if A > 0 {
                assert((0u8 & 0x0fu8) == 0u8) by (bit_vector);
                assert((0u8 & 0xf0u8) == 0u8) by (bit_vector);
                assert(mantissa(v@) =~= zeros(1));
                lemma_be_value_zeros(1);
            }
        }
        v
    }
}

impl<const A: usize> From<Vint<A>> for u128 {
    /// The number that the bytes stand for (zero when `A` is zero).
    fn from(vint: Vint<A>) -> (r: u128)
        ensures
            r as nat == vint.value(),
    {
        if A == 0 {
            return 0;
        }
        let last = vint.0[A - 1];
        let size = (last & 0x0f) as usize;
        assert(last & 0x0f <= 15) by (bit_vector);
        assert(vint@.last() == last);
        assert(size == exponent(vint@));
        let ghost m = mantissa(vint@);
        let mut bytes = [0u8; 16];
        proof {
            broadcast use vstd::array::group_array_axioms;

        }
        let mut i: usize = 0;
        loop
            invariant_except_break
                A > 0,
                size <= 15,
                m == mantissa(vint@),
                size == exponent(vint@),
                i < A,
                i <= size + 1,
                bytes@.len() == 16,
                forall|k: int|
                    0 <= k < 16 ==> bytes@[k] == (if 15 - size <= k < 15 - size + i {
                        vint@[k - (15 - size)]
                    } else {
                        0u8
                    }),
            ensures
                bytes@ =~= zeros((15 - size) as nat) + m,
            decreases A - i,
        {
            let j = 15 - size + i;
            if j == 16 {
                break;
            }
            if i == A - 1 {
                bytes[j] = vint.0[i] & 0xf0;
                break;
            }
            bytes[j] = vint.0[i];
            i += 1;
        }
        let r = be_u128(&bytes);
        proof {
            lemma_be_value_leading_zeros((15 - size) as nat, m);
        }
        r
    }
}

impl<const A: usize> vstd::std_specs::convert::FromSpecImpl<Vint<A>> for u128 {
    open spec fn obeys_from_spec() -> bool {
        true
    }

    open spec fn from_spec(v: Vint<A>) -> u128 {
        v.value() as u128
    }
}

impl<const A: usize> From<u128> for Vint<A> {
    /// The `A`-byte encoding of `u` (all zeros when `A` is zero).
    fn from(u: u128) -> (vint: Vint<A>)
        ensures
            vint@ == encode(u as nat, A as nat),
            A > 0 ==> vint.value() == floor_value(u as nat, A as nat),
    {
        proof {
            if A > 0 {
                lemma_decode_encode(u as nat, A as nat);
            }
        }
        broadcast use vstd::array::group_array_axioms;

        let mut vint = Vint([0u8; A]);
        if u == 0 || A == 0 {
            proof {
                if A > 0 {
                    assert(top_byte(0) == 0);
                    lemma_pow256_pos(0);
                    assert(byte_at(0, 0) == 0);
                    assert((0u8 & 0xf0u8) | 0u8 == 0u8) by (bit_vector);
                }
                assert(vint@ =~= encode(u as nat, A as nat));
                Vint::<A>::lemma_encoding_of(vint, u as nat);
            }
            return vint;
        }
        // count the leading zero bytes
        let mut i: usize = 0;
        proof {
            lemma_pow256_16();
        }
        while be_byte(u, i) == 0
            invariant
                i <= 15,
                u != 0,
                u < pow256((16 - i) as nat),
            decreases 15 - i,
        {
            proof {
                lemma_zero_top_byte(u as nat, (15 - i) as nat);
                if i == 15 {
                    lemma_pow256_one();
                }
            }
            i += 1;
        }
        let size = 15 - i;
        proof {
            lemma_nonzero_byte(u as nat, size as nat);
            lemma_top_byte_unique(u as nat, size as nat);
        }
        let mut j: usize = 0;
        while j < A && i + j < 16
            invariant
                i <= 15,
                size == 15 - i,
                top_byte(u as nat) == size,
                j <= A,
                i + j <= 16,
                vint@.len() == A,
                forall|t: int| 0 <= t < j ==> vint@[t] == byte_at(u as nat, (size - t) as nat),
                forall|t: int| j <= t < A ==> vint@[t] == 0u8,
            decreases A - j,
        {
            vint.0[j] = be_byte(u, i + j);
            j += 1;
        }
        let last = vint.0[A - 1];
        vint.0[A - 1] = (last & 0xf0) | size as u8;
        proof {
            assert(vint@ =~= encode(u as nat, A as nat));
            Vint::<A>::lemma_encoding_of(vint, u as nat);
        }
        vint
    }
}

impl<const A: usize> vstd::std_specs::convert::FromSpecImpl<u128> for Vint<A> {
    open spec fn obeys_from_spec() -> bool {
        true
    }

    open spec fn from_spec(u: u128) -> Vint<A> {
        Vint::<A>::encoding_of(u as nat)
    }
}

impl<const A: usize> Vint<A> {
    /// The decimal notation of the number this value stands for.
    pub fn to_string(&self) -> (s: String)
        requires
            A > 0,
        ensures
            s@ == decimal(self.value()),
    {
        decimal_string(u128::from(*self))
    }
}

/// `u` rounded down to what `A` bytes keep: its `A`-byte encoding, decoded.
pub fn floor<const A: usize>(u: u128) -> (r: u128)
    requires
        A > 0,
    ensures
        r as nat == decode(encode(u as nat, A as nat)),
        r as nat == floor_value(u as nat, A as nat),
{
    let v: Vint<A> = Vint::from(u);
    u128::from(v)
}

} // verus!
