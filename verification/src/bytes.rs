//! Base-256 arithmetic on natural numbers: powers of 256, the bytes of a
//! number, its most significant byte and the big-endian value of a byte
//! sequence, with the lemmas that relate them.
use vstd::arithmetic::div_mod::*;
use vstd::arithmetic::mul::*;
use vstd::arithmetic::power2::*;
use vstd::prelude::*;

verus! {

/// `256` raised to the power `n`.
pub open spec fn pow256(n: nat) -> nat
    decreases n,
{
    if n == 0 {
        1
    } else {
        256 * pow256((n - 1) as nat)
    }
}

/// The byte of `u` at position `k`, counted from the least significant byte.
pub open spec fn byte_at(u: nat, k: nat) -> u8 {
    ((u / pow256(k)) % 256) as u8
}

/// The position of the most significant non-zero byte of `u`
/// (`0` for every `u` below `256`, zero included).
pub open spec fn top_byte(u: nat) -> nat
    decreases u,
{
    if u < 256 {
        0
    } else {
        1 + top_byte(u / 256)
    }
}

/// The value of a byte sequence read as a big-endian base-256 number.
pub open spec fn be_value(d: Seq<u8>) -> nat
    decreases d.len(),
{
    if d.len() == 0 {
        0
    } else {
        be_value(d.drop_last()) * 256 + d.last() as nat
    }
}

/// A sequence of `n` zero bytes.
pub open spec fn zeros(n: nat) -> Seq<u8> {
    Seq::new(n, |i: int| 0u8)
}

/// The `n` bytes of `u` at positions `lo + n - 1` down to `lo`, most significant first.
pub open spec fn byte_window(u: nat, lo: nat, n: nat) -> Seq<u8> {
    Seq::new(n, |i: int| byte_at(u, (lo + n - 1 - i) as nat))
}

pub proof fn lemma_pow256_pos(n: nat)
    ensures
        pow256(n) > 0,
    decreases n,
{
    if n > 0 {
        lemma_pow256_pos((n - 1) as nat);
    }
}

pub proof fn lemma_pow256_adds(a: nat, b: nat)
    ensures
        pow256(a + b) == pow256(a) * pow256(b),
    decreases b,
{
    assert(pow256(a) * pow256(b) >= 0) by (nonlinear_arith);
    if b > 0 {
        let b1 = (b - 1) as nat;
        lemma_pow256_adds(a, b1);
        let pa = pow256(a);
        let pb1 = pow256(b1);
        assert(pow256(a + b1) == pa * pb1);
        assert(pow256(a + b) == 256 * pow256(a + b1));
        assert(pow256(b) == 256 * pb1);
        assert(pa * (256 * pb1) == 256 * (pa * pb1)) by (nonlinear_arith);
    } else {
        assert(pow256(b) == 1);
        assert(pow256(a) * pow256(b) == pow256(a)) by (nonlinear_arith)
            requires
                pow256(b) == 1,
        ;
    }
}

pub proof fn lemma_pow256_le(a: nat, b: nat)
    requires
        a <= b,
    ensures
        pow256(a) <= pow256(b),
    decreases b,
{
    if a < b {
        lemma_pow256_le(a, (b - 1) as nat);
        lemma_pow256_pos((b - 1) as nat);
    }
}

pub proof fn lemma_pow256_one()
    ensures
        pow256(0) == 1,
        pow256(1) == 256,
{
    assert(pow256(0) == 1);
    assert(pow256(1) == 256 * pow256(0));
}

/// `256^n` is `2^(8n)`.
pub proof fn lemma_pow256_pow2(n: nat)
    ensures
        pow256(n) == pow2(8 * n),
    decreases n,
{
    lemma2_to64();
    if n > 0 {
        lemma_pow256_pow2((n - 1) as nat);
        lemma_pow2_adds(8 * (n - 1) as nat, 8);
        assert(8 * (n - 1) as nat + 8 == 8 * n);
    }
}

/// `256^16` is one more than the largest `u128`.
pub proof fn lemma_pow256_16()
    ensures
        pow256(16) == u128::MAX + 1,
{
    reveal_with_fuel(pow256, 17);
    assert(pow256(16) == 0x1_0000_0000_0000_0000_0000_0000_0000_0000);
}

/// Dividing by `256^a` and then by `256^b` is dividing by `256^(a + b)`.
pub proof fn lemma_div_pow256_twice(u: nat, a: nat, b: nat)
    ensures
        (u / pow256(a)) / pow256(b) == u / pow256(a + b),
{
    lemma_pow256_pos(a);
    lemma_pow256_pos(b);
    lemma_pow256_adds(a, b);
    lemma_div_denominator(u as int, pow256(a) as int, pow256(b) as int);
}

/// Every byte of a number is below 256.
pub proof fn lemma_byte_at_value(u: nat, k: nat)
    ensures
        byte_at(u, k) as nat == (u / pow256(k)) % 256,
{
    lemma_pow256_pos(k);
}

/// `top_byte(u)` is the position `s` with `256^s <= u < 256^(s + 1)`.
pub proof fn lemma_top_byte_bounds(u: nat)
    ensures
        u < pow256(top_byte(u) + 1),
        u > 0 ==> pow256(top_byte(u)) <= u,
    decreases u,
{
    lemma_pow256_one();
    if u >= 256 {
        lemma_top_byte_bounds(u / 256);
        let t = top_byte(u / 256);
        assert(top_byte(u) == t + 1);
        assert(pow256(t + 2) == 256 * pow256(t + 1));
        assert(pow256(t + 1) == 256 * pow256(t));
        assert(u / 256 < pow256(t + 1));
        assert(u < 256 * pow256(t + 1));
        assert(pow256(t) <= u / 256);
        assert(256 * pow256(t) <= u);
    }
}

/// The position `s` with `256^s <= u < 256^(s + 1)` is `top_byte(u)`.
pub proof fn lemma_top_byte_unique(u: nat, s: nat)
    requires
        pow256(s) <= u < pow256(s + 1),
    ensures
        top_byte(u) == s,
    decreases s,
{
    if s > 0 {
        assert(pow256(s) == 256 * pow256((s - 1) as nat));
        assert(pow256(s + 1) == 256 * pow256(s));
        lemma_pow256_pos((s - 1) as nat);
        assert(u >= 256);
        assert(pow256((s - 1) as nat) <= u / 256);
        assert(u / 256 < pow256(s));
        lemma_top_byte_unique(u / 256, (s - 1) as nat);
    } else {
        lemma_pow256_one();
    }
}

/// A number below `256^(m + 1)` whose byte `m` is zero is below `256^m`.
pub proof fn lemma_zero_top_byte(u: nat, m: nat)
    requires
        u < pow256(m + 1),
        byte_at(u, m) == 0,
    ensures
        u < pow256(m),
{
    lemma_pow256_pos(m);
    let p = pow256(m);
    assert(pow256(m + 1) == 256 * p);
    lemma_fundamental_div_mod(u as int, p as int);
    assert(u / p < 256) by {
        lemma_div_is_ordered(u as int, (256 * p - 1) as int, p as int);
        lemma_div_multiples_vanish_fancy(255, (p - 1) as int, p as int);
        assert(256 * p - 1 == 255 * p + (p - 1)) by (nonlinear_arith);
        lemma_mul_is_commutative(255, p as int);
    }
    lemma_small_mod((u / p) as nat, 256);
    assert(u / p == 0);
    lemma_remainder(u as int, p as int);
}

/// A number whose byte `m` is non-zero is at least `256^m`.
pub proof fn lemma_nonzero_byte(u: nat, m: nat)
    requires
        byte_at(u, m) != 0,
    ensures
        pow256(m) <= u,
{
    lemma_pow256_pos(m);
    if u < pow256(m) {
        lemma_basic_div(u as int, pow256(m) as int);
        assert(u / pow256(m) == 0);
    }
}

/// The value of a byte sequence is below `256^len`.
pub proof fn lemma_be_value_bound(d: Seq<u8>)
    ensures
        be_value(d) < pow256(d.len()),
    decreases d.len(),
{
    if d.len() > 0 {
        lemma_be_value_bound(d.drop_last());
        let p = pow256((d.len() - 1) as nat);
        assert(pow256(d.len()) == 256 * p);
        let x = be_value(d.drop_last());
        let l = d.last() as nat;
        assert(x * 256 + l < 256 * p) by (nonlinear_arith)
            requires
                x < p,
                l < 256,
        ;
    }
}

/// The value of a concatenation: the first part is shifted by the length of the second.
pub proof fn lemma_be_value_concat(x: Seq<u8>, y: Seq<u8>)
    ensures
        be_value(x + y) == be_value(x) * pow256(y.len()) + be_value(y),
    decreases y.len(),
{
    if y.len() == 0 {
        assert(x + y =~= x);
        assert(pow256(0) == 1);
    } else {
        let z = x + y;
        assert(z.drop_last() =~= x + y.drop_last());
        assert(z.last() == y.last());
        lemma_be_value_concat(x, y.drop_last());
        let a = be_value(x);
        let p = pow256((y.len() - 1) as nat);
        let b = be_value(y.drop_last());
        assert(pow256(y.len()) == 256 * p);
        assert((a * p + b) * 256 + y.last() == a * (256 * p) + (b * 256 + y.last()))
            by (nonlinear_arith);
    }
}

/// Zero bytes have the value zero.
pub proof fn lemma_be_value_zeros(n: nat)
    ensures
        be_value(zeros(n)) == 0,
    decreases n,
{
    if n > 0 {
        assert(zeros(n).drop_last() =~= zeros((n - 1) as nat));
        lemma_be_value_zeros((n - 1) as nat);
    }
}

/// Leading zero bytes do not change the value.
pub proof fn lemma_be_value_leading_zeros(n: nat, d: Seq<u8>)
    ensures
        be_value(zeros(n) + d) == be_value(d),
{
    lemma_be_value_concat(zeros(n), d);
    lemma_be_value_zeros(n);
}

/// Trailing zero bytes multiply the value by a power of 256.
pub proof fn lemma_be_value_trailing_zeros(d: Seq<u8>, n: nat)
    ensures
        be_value(d + zeros(n)) == be_value(d) * pow256(n),
{
    lemma_be_value_concat(d, zeros(n));
    lemma_be_value_zeros(n);
}

/// A window of `n` bytes of `u` starting at position `lo` has the value
/// `(u / 256^lo) % 256^n`.
pub proof fn lemma_be_value_window(u: nat, lo: nat, n: nat)
    ensures
        be_value(byte_window(u, lo, n)) == (u / pow256(lo)) % pow256(n),
    decreases n,
{
    let w = byte_window(u, lo, n);
    lemma_pow256_pos(lo);
    lemma_pow256_pos(n);
    if n == 0 {
        assert(pow256(0) == 1);
    } else {
        let v = u / pow256(lo);
        assert(w.drop_last() =~= byte_window(u, lo + 1, (n - 1) as nat));
        lemma_be_value_window(u, lo + 1, (n - 1) as nat);
        // the higher bytes: (u / 256^(lo + 1)) % 256^(n - 1)
        lemma_div_pow256_twice(u, lo, 1);
        lemma_pow256_one();
        assert(u / pow256(lo + 1) == v / 256);
        // the last byte: v % 256
        assert(w.last() == byte_at(u, lo));
        lemma_byte_at_value(u, lo);
        let p = pow256((n - 1) as nat);
        lemma_pow256_pos((n - 1) as nat);
        assert(pow256(n) == 256 * p);
        // (v / 256 % p) * 256 + v % 256 == v % (256 * p)
        lemma_breakdown(v as int, 256, p as int);
        lemma_mul_is_commutative(256, ((v / 256) % p) as int);
    }
}

/// The `s + 1` bytes of a number below `256^(s + 1)` have that number as their value.
pub proof fn lemma_be_value_all_bytes(u: nat, s: nat)
    requires
        u < pow256(s + 1),
    ensures
        be_value(byte_window(u, 0, s + 1)) == u,
{
    lemma_be_value_window(u, 0, s + 1);
    assert(pow256(0) == 1);
    lemma_small_mod(u, pow256(s + 1));
}

} // verus!
