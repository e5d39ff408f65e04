//! What encoding and decoding do to a number: decoding gives back the number
//! rounded down to the precision of the encoding, exactly when it has fewer
//! significant bytes than the encoding, and encoding that rounded number again
//! gives the same bytes. Every value that bytes stand for is kept exactly by
//! its encoding, the rounding is the best value below the number, and the
//! operators keep the bounds that follow from these.
use crate::bytes::{
    be_value, byte_at, byte_window, lemma_be_value_all_bytes, lemma_be_value_bound,
    lemma_be_value_trailing_zeros, lemma_be_value_window, lemma_div_pow256_twice,
    lemma_nonzero_byte, lemma_pow256_16, lemma_pow256_adds, lemma_pow256_le, lemma_pow256_one,
    lemma_pow256_pos, lemma_pow256_pow2, lemma_top_byte_bounds, lemma_top_byte_unique, pow256,
    top_byte, zeros,
};
use crate::vint::{decode, encode, exponent, lemma_decode_fits, mantissa};
use vstd::arithmetic::div_mod::{
    lemma_breakdown, lemma_div_denominator, lemma_div_multiples_vanish,
    lemma_div_is_ordered, lemma_div_multiples_vanish_quotient, lemma_fundamental_div_mod,
    lemma_fundamental_div_mod_converse_mod, lemma_mod_mod, lemma_mod_multiples_basic, lemma_small_mod,
};
use vstd::arithmetic::mul::{lemma_mul_is_commutative, lemma_mul_strictly_positive};
use vstd::arithmetic::power2::{
    lemma2_to64, lemma_pow2_adds, lemma_pow2_pos, lemma_pow2_unfold, pow2,
};
use vstd::prelude::*;

verus! {

/// The step below which an `n`-byte encoding of `u` loses the low part:
/// 16 times `256` to the number of bytes of `u` that do not fit.
pub open spec fn granularity(u: nat, n: nat) -> nat {
    16 * pow256((top_byte(u) + 1 - n) as nat)
}

/// `u` as an `n`-byte encoding keeps it: unchanged when it has fewer than `n`
/// significant bytes, otherwise rounded down to a multiple of its granularity.
pub open spec fn floor_value(u: nat, n: nat) -> nat {
    if top_byte(u) + 2 <= n {
        u
    } else {
        (u - u % granularity(u, n)) as nat
    }
}

/// A `u128` has at most 16 bytes.
pub proof fn lemma_top_byte_u128(u: nat)
    requires
        u <= u128::MAX,
    ensures
        top_byte(u) <= 15,
{
    lemma_top_byte_bounds(u);
    lemma_pow256_16();
    if top_byte(u) > 15 && u > 0 {
        lemma_pow256_le(16, top_byte(u));
    }
    if u == 0 {
        assert(top_byte(0) == 0);
    }
}

/// The exponent and digits of the encoding of `u`, most significant first.
proof fn lemma_mantissa_of_encoding(u: nat, n: nat)
    requires
        n > 0,
        u <= u128::MAX,
    ensures
        exponent(encode(u, n)) == top_byte(u),
        mantissa(encode(u, n)) =~= Seq::new(
            top_byte(u) + 1,
            |i: int|
                if i < n - 1 {
                    byte_at(u, (top_byte(u) - i) as nat)
                } else if i == n - 1 {
                    byte_at(u, (top_byte(u) - i) as nat) & 0xf0
                } else {
                    0u8
                },
        ),
{
    let s = top_byte(u);
    lemma_top_byte_u128(u);
    let b = encode(u, n);
    let m = if n - 1 <= s {
        byte_at(u, (s - (n - 1)) as nat)
    } else {
        0u8
    };
    let su = s as u8;
    assert(b.last() == (m & 0xf0) | su);
    assert(((m & 0xf0) | su) & 0x0f == su && ((m & 0xf0) | su) & 0xf0 == m & 0xf0) by (bit_vector)
        requires
            su < 16,
    ;
}

/// Decoding the `n`-byte encoding of a `u128` gives it back rounded down to
/// what `n` bytes keep (`floor_value`).
pub proof fn lemma_decode_encode(u: nat, n: nat)
    requires
        n > 0,
        u <= u128::MAX,
    ensures
        decode(encode(u, n)) == floor_value(u, n),
{
    let s = top_byte(u);
    lemma_mantissa_of_encoding(u, n);
    lemma_top_byte_bounds(u);
    let d = mantissa(encode(u, n));
    if s + 2 <= n {
        assert(d =~= byte_window(u, 0, s + 1));
        lemma_be_value_all_bytes(u, s);
    } else {
        let e = (s + 1 - n) as nat;
        let p = pow256(e);
        lemma_pow256_pos(e);
        let hi = byte_window(u, e + 1, (n - 1) as nat);
        let c = byte_at(u, e);
        let c2 = c & 0xf0;
        assert(d =~= hi.push(c2) + zeros(e));
        lemma_be_value_trailing_zeros(hi.push(c2), e);
        assert(hi.push(c2).drop_last() =~= hi);
        assert(be_value(hi.push(c2)) == be_value(hi) * 256 + c2 as nat);
        // the high bytes are u / 256^(e + 1)
        let w = u / p;
        lemma_be_value_window(u, e + 1, (n - 1) as nat);
        lemma_div_pow256_twice(u, e, 1);
        lemma_pow256_one();
        lemma_pow256_adds(e + 1, (n - 1) as nat);
        assert(e + 1 + (n - 1) == s + 1);
        lemma_pow256_pos((n - 1) as nat);
        lemma_pow256_pos(e + 1);
        assert(u / pow256(e + 1) < pow256((n - 1) as nat)) by {
            let q = pow256(e + 1);
            let r = pow256((n - 1) as nat);
            lemma_fundamental_div_mod(u as int, q as int);
            assert(u < q * r);
            if u / q >= r {
                assert(q * (u / q) >= q * r) by (nonlinear_arith)
                    requires
                        u / q >= r,
                        q > 0,
                ;
            }
        }
        lemma_small_mod(u / pow256(e + 1), pow256((n - 1) as nat));
        assert(be_value(hi) == w / 256);
        // the byte at e without its low nibble
        assert(c as nat == w % 256);
        assert(c2 == c - c % 16) by (bit_vector)
            requires
                c2 == c & 0xf0,
        ;
        lemma_mod_mod(w as int, 16, 16);
        assert(c % 16 == w % 16);
        lemma_fundamental_div_mod(w as int, 256);
        assert(be_value(hi) * 256 + c2 as nat == w - w % 16);
        lemma_floor_value_form(u, n);
    }
}

/// When `u` has at least `n` significant bytes, rounding it down clears the low
/// nibble of its byte at position `e = top_byte(u) + 1 - n` and every byte below.
proof fn lemma_floor_value_form(u: nat, n: nat)
    requires
        n > 0,
        top_byte(u) + 1 >= n,
    ensures
        ({
            let p = pow256((top_byte(u) + 1 - n) as nat);
            let w = u / p;
            floor_value(u, n) == (w - w % 16) * p
        }),
{
    let e = (top_byte(u) + 1 - n) as nat;
    let p = pow256(e);
    lemma_pow256_pos(e);
    let w = u / p;
    let g = granularity(u, n);
    assert(g == 16 * p);
    lemma_mul_is_commutative(16, p as int);
    lemma_breakdown(u as int, p as int, 16);
    lemma_fundamental_div_mod(u as int, p as int);
    assert(u % g == p * (w % 16) + u % p);
    assert(u == p * w + u % p);
    assert(p * (w % 16) <= p * w) by (nonlinear_arith)
        requires
            w % 16 <= w,
    ;
    assert(u - u % g == p * w - p * (w % 16));
    assert(u % g <= u);
    assert(floor_value(u, n) == u - u % g);
    assert(p * w - p * (w % 16) == (w - w % 16) * p) by (nonlinear_arith);
}

/// Re-encoding a decoded value gives the same bytes, for encodings of at least
/// two bytes: the bytes that rounding keeps are those that encoding stores.
pub proof fn lemma_encode_floor_value(u: nat, n: nat)
    requires
        n >= 2,
        u <= u128::MAX,
    ensures
        encode(floor_value(u, n), n) == encode(u, n),
{
    let s = top_byte(u);
    if s + 1 >= n {
        let e = (s + 1 - n) as nat;
        let p = pow256(e);
        lemma_pow256_pos(e);
        let w = u / p;
        let f = floor_value(u, n);
        lemma_floor_value_form(u, n);
        lemma_floor_value_bounds(u, n);
        let v = (w - w % 16) as nat;
        assert(f == v * p);
        lemma_mul_is_commutative(v as int, p as int);
        lemma_div_multiples_vanish(v as int, p as int);
        assert(f / p == v);
        lemma_fundamental_div_mod(w as int, 16);
        assert(v == 16 * (w / 16));
        // the bytes above position e are kept
        assert forall|k: nat| e < k implies byte_at(f, k) == byte_at(u, k) by {
            let t = (k - e) as nat;
            let t1 = (t - 1) as nat;
            lemma_div_pow256_twice(f, e, t);
            lemma_div_pow256_twice(u, e, t);
            assert(e + t == k);
            lemma_pow256_pos(t1);
            assert(pow256(t) == 256 * pow256(t1));
            assert(pow256(t) == 16 * (16 * pow256(t1)));
            lemma_div_multiples_vanish_quotient(16, (w / 16) as int, (16 * pow256(t1)) as int);
            lemma_div_denominator(w as int, 16, (16 * pow256(t1)) as int);
            assert(v / pow256(t) == w / pow256(t));
        }
        // the byte at position e keeps its high nibble
        let c = byte_at(u, e);
        let cf = byte_at(f, e);
        assert(c as nat == w % 256);
        assert(cf as nat == v % 256);
        lemma_fundamental_div_mod(w as int, 256);
        lemma_mod_mod(w as int, 16, 16);
        assert((c as nat) % 16 == w % 16);
        assert(v == 256 * (w / 256) + (c - c % 16));
        lemma_fundamental_div_mod_converse_mod(
            v as int,
            256,
            (w / 256) as int,
            (c - c % 16) as int,
        );
        assert(cf == c - c % 16);
        assert(cf & 0xf0 == c & 0xf0) by (bit_vector)
            requires
                cf == c - c % 16,
        ;
        // the most significant byte stays where it was
        lemma_top_byte_bounds(u);
        lemma_top_byte_u128(u);
        if u > 0 {
            lemma_nonzero_top(u);
            assert(byte_at(f, s) != 0);
            lemma_nonzero_byte(f, s);
            lemma_top_byte_unique(f, s);
        }
        assert(encode(f, n) =~= encode(u, n));
    }
}

/// Rounding down keeps the order of numbers, for encodings of at least two bytes.
pub proof fn lemma_floor_value_monotone(u: nat, w: nat, n: nat)
    requires
        n >= 2,
        u <= w <= u128::MAX,
    ensures
        floor_value(u, n) <= floor_value(w, n),
{
    let su = top_byte(u);
    let sw = top_byte(w);
    lemma_top_byte_bounds(u);
    lemma_top_byte_bounds(w);
    lemma_floor_value_bounds(u, n);
    lemma_floor_value_bounds(w, n);
    if u > 0 && sw < su {
        lemma_pow256_le(sw + 1, su);
    }
    if u == 0 {
        assert(top_byte(0) == 0);
    }
    assert(su <= sw);
    if su == sw {
        if su + 1 >= n {
            let g = granularity(u, n);
            lemma_pow256_pos((su + 1 - n) as nat);
            assert(g == granularity(w, n));
            lemma_fundamental_div_mod(u as int, g as int);
            lemma_fundamental_div_mod(w as int, g as int);
            lemma_div_is_ordered(u as int, w as int, g as int);
            assert(g * (u / g) <= g * (w / g)) by (nonlinear_arith)
                requires
                    u / g <= w / g,
                    g > 0,
            ;
        }
    } else {
        // the rounded w keeps its most significant byte, which is above u
        let f = floor_value(w, n);
        lemma_encode_floor_value(w, n);
        lemma_mantissa_of_encoding(w, n);
        lemma_mantissa_of_encoding(f, n);
        assert(top_byte(f) == sw);
        if f == 0 {
            assert(top_byte(0) == 0);
        }
        lemma_top_byte_bounds(f);
        lemma_pow256_le(su + 1, sw);
    }
}

/// A multiple of the granularity of the encoding is kept exactly, as long as
/// that granularity is at least the one for the number's own top byte.
proof fn lemma_floor_value_of_multiple(d: nat, n: nat, e: nat)
    requires
        n > 0,
        d % (16 * pow256(e)) == 0,
        top_byte(d) + 1 <= e + n,
    ensures
        floor_value(d, n) == d,
{
    let t = top_byte(d);
    if t + 2 > n {
        let k = (t + 1 - n) as nat;
        let g = granularity(d, n);
        let big = 16 * pow256(e);
        lemma_pow256_pos(k);
        lemma_pow256_pos((e - k) as nat);
        lemma_pow256_adds(k, (e - k) as nat);
        assert(k + (e - k) as nat == e);
        lemma_pow256_pos(e);
        lemma_fundamental_div_mod(d as int, big as int);
        let q = d / big;
        let r = pow256((e - k) as nat);
        assert(d == big * q);
        assert(big * q == (q * r) * g) by (nonlinear_arith)
            requires
                big == 16 * pow256(e),
                pow256(e) == pow256(k) * r,
                g == 16 * pow256(k),
        ;
        lemma_mod_multiples_basic((q * r) as int, g as int);
    }
}

/// The value of an encoding is below `256^(exponent + 1)` and, when the
/// mantissa runs past the stored bytes, a multiple of the granularity there.
proof fn lemma_decode_shape(b: Seq<u8>)
    requires
        b.len() > 0,
    ensures
        decode(b) < pow256(exponent(b) + 1),
        b.len() <= exponent(b) + 1 ==> decode(b) % (16 * pow256(
            (exponent(b) + 1 - b.len()) as nat,
        )) == 0,
{
    let n = b.len();
    let s = exponent(b);
    let m = mantissa(b);
    lemma_be_value_bound(m);
    if n <= s + 1 {
        let e = (s + 1 - n) as nat;
        let p = pow256(e);
        lemma_pow256_pos(e);
        let hi = b.take(n - 1);
        let l = b[n - 1];
        let c2 = l & 0xf0;
        assert(m =~= hi.push(c2) + zeros(e));
        lemma_be_value_trailing_zeros(hi.push(c2), e);
        assert(hi.push(c2).drop_last() =~= hi);
        let h = be_value(hi);
        assert(c2 % 16 == 0) by (bit_vector)
            requires
                c2 == l & 0xf0,
        ;
        let c = c2 as nat;
        assert(be_value(m) == (h * 256 + c) * p);
        assert((h * 256 + c) * p == (h * 16 + c / 16) * (16 * p)) by (nonlinear_arith)
            requires
                c % 16 == 0,
        ;
        lemma_mod_multiples_basic((h * 16 + c / 16) as int, (16 * p) as int);
    }
}

/// The value that an encoding stands for is kept exactly by that encoding:
/// encoding it again in as many bytes and decoding gives it back, whatever
/// the bytes were.
pub proof fn lemma_decode_is_kept(b: Seq<u8>)
    requires
        b.len() > 0,
    ensures
        floor_value(decode(b), b.len()) == decode(b),
        decode(encode(decode(b), b.len())) == decode(b),
{
    let n = b.len();
    let s = exponent(b);
    let d = decode(b);
    lemma_decode_shape(b);
    lemma_top_byte_bounds(d);
    if d > 0 && top_byte(d) > s {
        lemma_pow256_le(s + 1, top_byte(d));
    }
    if d == 0 {
        assert(top_byte(0) == 0);
    }
    assert(top_byte(d) <= s);
    if n <= s + 1 {
        lemma_floor_value_of_multiple(d, n, (s + 1 - n) as nat);
    }
    lemma_decode_fits(b);
    lemma_decode_encode(d, n);
}

/// For encodings of at least two bytes, rounding down gives the largest value
/// that an encoding of that size stands for and that is not above the number.
pub proof fn lemma_floor_value_is_best(b: Seq<u8>, u: nat)
    requires
        b.len() >= 2,
        u <= u128::MAX,
        decode(b) <= u,
    ensures
        decode(b) <= floor_value(u, b.len()),
{
    lemma_decode_is_kept(b);
    lemma_decode_fits(b);
    lemma_floor_value_monotone(decode(b), u, b.len());
}

/// Clearing bits of a multiple of `2^k` leaves a multiple of `2^k`.
proof fn lemma_mask_keeps_multiple(a: u128, x: u128, k: nat)
    requires
        a as nat % pow2(k) == 0,
    ensures
        (a & x) as nat % pow2(k) == 0,
    decreases k,
{
    lemma_pow2_pos(k);
    if k == 0 {
        lemma2_to64();
    } else {
        let p = pow2((k - 1) as nat);
        lemma_pow2_unfold(k);
        lemma_pow2_pos((k - 1) as nat);
        let y = a & x;
        // a % (2 * p) == 2 * ((a / 2) % p) + a % 2
        lemma_breakdown(a as int, 2, p as int);
        lemma_breakdown(y as int, 2, p as int);
        assert(a % 2 == 0);
        assert((a / 2) as nat % p == 0);
        assert(y / 2 == (a / 2) & (x / 2) && y % 2 == 0) by (bit_vector)
            requires
                y == a & x,
                a % 2 == 0,
        ;
        lemma_mask_keeps_multiple(a / 2, x / 2, (k - 1) as nat);
    }
}

/// Masking the value of an encoding loses nothing when encoded again in as
/// many bytes: the bits it keeps lie within those that the encoding stores.
pub proof fn lemma_mask_is_kept(b: Seq<u8>, x: u128)
    requires
        b.len() > 0,
    ensures
        floor_value(((decode(b) as u128) & x) as nat, b.len()) == (decode(b) as u128) & x,
        decode(encode(((decode(b) as u128) & x) as nat, b.len())) == (decode(b) as u128) & x,
{
    let n = b.len();
    let s = exponent(b);
    lemma_decode_fits(b);
    let d = decode(b) as u128;
    let y = d & x;
    assert(y <= d) by (bit_vector)
        requires
            y == d & x,
    ;
    lemma_decode_shape(b);
    lemma_top_byte_bounds(y as nat);
    if y > 0 && top_byte(y as nat) > s {
        lemma_pow256_le(s + 1, top_byte(y as nat));
    }
    if y == 0 {
        assert(top_byte(0) == 0);
    }
    assert(top_byte(y as nat) <= s);
    if n <= s + 1 {
        let e = (s + 1 - n) as nat;
        let k = 8 * e + 4;
        lemma_pow256_pow2(e);
        lemma2_to64();
        lemma_pow2_adds(8 * e, 4);
        assert(16 * pow256(e) == pow2(k));
        lemma_mask_keeps_multiple(d, x, k as nat);
        lemma_floor_value_of_multiple(y as nat, n, e);
    }
    lemma_decode_encode(y as nat, n);
}

/// Adding to the value of an encoding of at least two bytes never lowers it,
/// and never raises it above the exact sum.
pub proof fn lemma_add_bounds(b: Seq<u8>, x: nat)
    requires
        b.len() >= 2,
        decode(b) + x <= u128::MAX,
    ensures
        decode(b) <= decode(encode(decode(b) + x, b.len())) <= decode(b) + x,
{
    let u = decode(b) + x;
    lemma_decode_encode(u, b.len());
    lemma_floor_value_bounds(u, b.len());
    lemma_floor_value_is_best(b, u);
}

/// Multiplying the value of an encoding by one keeps the value; by zero gives
/// all zero bytes.
pub proof fn lemma_mul_one_zero(b: Seq<u8>)
    requires
        b.len() > 0,
    ensures
        decode(encode(decode(b) * 1, b.len())) == decode(b),
        encode(decode(b) * 0, b.len()) == zeros(b.len()),
{
    lemma_decode_is_kept(b);
    lemma_encode_zero(b.len());
}

/// The encoding of zero is all zero bytes.
pub proof fn lemma_encode_zero(n: nat)
    ensures
        encode(0, n) == zeros(n),
{
    assert(top_byte(0) == 0);
    lemma_pow256_pos(0);
    assert(byte_at(0, 0) == 0);
    assert((0u8 & 0xf0u8) | 0u8 == 0u8) by (bit_vector);
    assert(encode(0, n) =~= zeros(n));
}

/// Or-ing bits into the value of an encoding of at least two bytes never
/// lowers it, and never raises it above the exact result.
pub proof fn lemma_bitor_bounds(b: Seq<u8>, x: u128)
    requires
        b.len() >= 2,
    ensures
        decode(b) <= decode(encode(((decode(b) as u128) | x) as nat, b.len())),
        decode(encode(((decode(b) as u128) | x) as nat, b.len())) <= (decode(b) as u128) | x,
{
    lemma_decode_fits(b);
    let d = decode(b) as u128;
    let u = d | x;
    assert(d <= u) by (bit_vector)
        requires
            u == d | x,
    ;
    lemma_decode_encode(u as nat, b.len());
    lemma_floor_value_bounds(u as nat, b.len());
    lemma_floor_value_is_best(b, u as nat);
}

/// Exclusive-or with the value itself gives zero bytes, with zero keeps the
/// value, and with any `x` never gives more than the exact result.
pub proof fn lemma_bitxor_facts(b: Seq<u8>, x: u128)
    requires
        b.len() > 0,
    ensures
        encode(((decode(b) as u128) ^ (decode(b) as u128)) as nat, b.len()) == zeros(b.len()),
        decode(encode(((decode(b) as u128) ^ 0u128) as nat, b.len())) == decode(b),
        decode(encode(((decode(b) as u128) ^ x) as nat, b.len())) <= (decode(b) as u128) ^ x,
{
    lemma_decode_fits(b);
    let d = decode(b) as u128;
    assert(d ^ d == 0u128 && d ^ 0u128 == d) by (bit_vector);
    lemma_encode_zero(b.len());
    lemma_decode_is_kept(b);
    let u = d ^ x;
    lemma_decode_encode(u as nat, b.len());
    lemma_floor_value_bounds(u as nat, b.len());
}

/// The layout of the `n`-byte encoding of a `u128`: the bytes of the number
/// from its most significant one downwards, zeros in the spare bytes past its
/// least significant one, and in the last byte the high nibble of the byte
/// that falls there with the position of the most significant byte as low nibble.
pub proof fn lemma_encode_layout(u: nat, n: nat)
    requires
        n > 0,
        u <= u128::MAX,
    ensures
        encode(u, n).len() == n,
        exponent(encode(u, n)) == top_byte(u),
        forall|j: int|
            0 <= j < n - 1 && j <= top_byte(u) ==> #[trigger] encode(u, n)[j] == byte_at(
                u,
                (top_byte(u) - j) as nat,
            ),
        forall|j: int| top_byte(u) < j < n - 1 ==> #[trigger] encode(u, n)[j] == 0u8,
        encode(u, n)[n - 1] & 0xf0 == (if n - 1 <= top_byte(u) {
            byte_at(u, (top_byte(u) - (n - 1)) as nat)
        } else {
            0u8
        }) & 0xf0,
{
    lemma_mantissa_of_encoding(u, n);
    let s = top_byte(u);
    lemma_top_byte_u128(u);
    let m = if n - 1 <= s {
        byte_at(u, (s - (n - 1)) as nat)
    } else {
        0u8
    };
    let su = s as u8;
    assert(((m & 0xf0) | su) & 0xf0 == m & 0xf0) by (bit_vector)
        requires
            su < 16,
    ;
}

/// A number with fewer than `n - 1` significant bytes is stored left-aligned:
/// the bytes before the last one, read as a big-endian number, are the number
/// shifted up by the spare bytes past its least significant byte.
pub proof fn lemma_encode_left_aligned(u: nat, n: nat)
    requires
        n >= 2,
        u < pow256((n - 1) as nat),
    ensures
        be_value(encode(u, n).take(n - 1)) == u * pow256((n - 2 - top_byte(u)) as nat),
{
    let s = top_byte(u);
    lemma_top_byte_bounds(u);
    if u > 0 && s + 2 > n {
        lemma_pow256_le((n - 1) as nat, s);
    }
    if u == 0 {
        assert(top_byte(0) == 0);
    }
    assert(s + 2 <= n);
    let spare = (n - 2 - s) as nat;
    assert(encode(u, n).take(n - 1) =~= byte_window(u, 0, s + 1) + zeros(spare));
    lemma_be_value_trailing_zeros(byte_window(u, 0, s + 1), spare);
    lemma_be_value_all_bytes(u, s);
}

/// The most significant byte of a non-zero number is not zero.
proof fn lemma_nonzero_top(u: nat)
    requires
        u > 0,
    ensures
        byte_at(u, top_byte(u)) != 0,
{
    let s = top_byte(u);
    lemma_top_byte_bounds(u);
    lemma_pow256_pos(s);
    let p = pow256(s);
    assert(pow256(s + 1) == 256 * p);
    lemma_fundamental_div_mod(u as int, p as int);
    if u / p >= 256 {
        assert(p * (u / p) >= p * 256) by (nonlinear_arith)
            requires
                u / p >= 256,
                p > 0,
        ;
    }
    if u / p == 0 {
        assert(p * (u / p) == 0);
    }
    lemma_small_mod(u / p, 256);
}

/// Rounding down never increases a number, and loses less than the granularity.
pub proof fn lemma_floor_value_bounds(u: nat, n: nat)
    requires
        n > 0,
    ensures
        floor_value(u, n) <= u,
        top_byte(u) + 2 <= n ==> floor_value(u, n) == u,
        top_byte(u) + 1 >= n ==> u - floor_value(u, n) < granularity(u, n),
        top_byte(u) + 1 >= n ==> floor_value(u, n) % granularity(u, n) == 0,
{
    if top_byte(u) + 1 >= n {
        let g = granularity(u, n);
        lemma_pow256_pos((top_byte(u) + 1 - n) as nat);
        lemma_fundamental_div_mod(u as int, g as int);
        assert(u - u % g == g * (u / g));
        vstd::arithmetic::div_mod::lemma_mod_multiples_basic((u / g) as int, g as int);
        lemma_mul_is_commutative((u / g) as int, g as int);
    }
}

/// A number with fewer than `n` significant bytes is kept exactly.
pub proof fn lemma_floor_value_exact(u: nat, n: nat)
    requires
        n > 0,
        u < pow256((n - 1) as nat),
    ensures
        floor_value(u, n) == u,
{
    lemma_top_byte_bounds(u);
    if u > 0 && top_byte(u) + 2 > n {
        lemma_pow256_le((n - 1) as nat, top_byte(u));
    }
    if u == 0 {
        assert(top_byte(0) == 0);
    }
}

} // verus!
