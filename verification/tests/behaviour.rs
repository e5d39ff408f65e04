use vint::{floor, Vint};

#[test]
fn large_values_round_down_to_their_granularity() {
    // 0x12345 has three significant bytes; two bytes keep 0x01 and the high nibble of 0x23
    let v = Vint::<2>::from(0x12345u128);
    assert_eq!(v.0, [0x01, 0x22]);
    assert_eq!(u128::from(v), 0x12000);
    assert_eq!(floor::<2>(0x12345), 0x12000);
    assert_eq!(floor::<1>(u128::MAX), 0xf000_0000_0000_0000_0000_0000_0000_0000);
    assert_eq!(floor::<1>(0x0f), 0);
}

#[test]
fn small_values_are_kept_exactly() {
    assert_eq!(floor::<3>(0xffff), 0xffff);
    assert_eq!(floor::<2>(0xff), 0xff);
    assert_eq!(floor::<17>(u128::MAX), u128::MAX);
    let v = Vint::<17>::from(u128::MAX);
    assert_eq!(v.0[16], 0x0f);
    assert_eq!(u128::from(v), u128::MAX);
}

#[test]
fn reencoding_a_decoded_value_keeps_the_bytes() {
    let v = Vint::<2>::from(0x12345u128);
    assert_eq!(Vint::<2>::from(u128::from(v)), v);
    let w = Vint::<3>::from(0xdead_beef_u128);
    assert_eq!(Vint::<3>::from(u128::from(w)), w);
}

#[test]
fn one_byte_encodings_can_lose_their_top_byte() {
    let v = Vint::<1>::from(256u128);
    assert_eq!(v.0, [0x01]);
    assert_eq!(u128::from(v), 0);
    assert_eq!(Vint::<1>::from(u128::from(v)).0, [0x00]);
}

#[test]
fn zero_width_values() {
    assert_eq!(Vint::<0>::from(0u128), Vint([]));
    assert_eq!(Vint::<0>::from(5u128), Vint([]));
    assert_eq!(u128::from(Vint([])), 0);
}

#[test]
fn bitwise_operators() {
    let v = Vint::<2>::from(0xf0u128);
    assert_eq!(v & 0x3cu128, Vint::from(0x30u128));
    assert_eq!(v | 0x0fu128, Vint::from(0xffu128));
    assert_eq!(v ^ 0xffu128, Vint::from(0x0fu128));
    assert_eq!(0x3cu128 & v, Vint::<2>::from(0x30u128));
    assert_eq!(0x0fu128 | v, Vint::<2>::from(0xffu128));
    assert_eq!(0xffu128 ^ v, Vint::<2>::from(0x0fu128));
    assert_eq!(v & Vint::<3>::from(0x3cu128), Vint::from(0x30u128));
    let one = Vint::<2>::from(1u128);
    assert_eq!(one << 8u128, Vint::from(256u128));
    assert_eq!((one << 8u128).0, [0x01, 0x01]);
    assert_eq!(Vint::<2>::from(256u128) >> 8u128, one);
    assert_eq!(1u128 << Vint::<2>::from(4u128), Vint::<2>::from(16u128));
    assert_eq!(256u128 >> Vint::<2>::from(4u128), Vint::<2>::from(16u128));
    assert_eq!(one << Vint::<2>::from(4u128), Vint::from(16u128));
    // a one-byte value of 4 stands for 0
    assert_eq!(one << Vint::<1>::from(4u128), one);
    assert_eq!(Vint::<2>::from(16u128) >> Vint::<2>::from(4u128), one);
}

#[test]
fn bitwise_assignments() {
    let mut a = 0xffu128;
    a &= Vint::<2>::from(0x0fu128);
    assert_eq!(a, 0x0f);
    a |= Vint::<2>::from(0xf0u128);
    assert_eq!(a, 0xff);
    a ^= Vint::<2>::from(0x0fu128);
    assert_eq!(a, 0xf0);
    a <<= Vint::<2>::from(4u128);
    assert_eq!(a, 0xf00);
    a >>= Vint::<2>::from(8u128);
    assert_eq!(a, 0x0f);

    let mut v = Vint::<2>::from(0xffu128);
    v &= 0x0fu128;
    assert_eq!(u128::from(v), 0x0f);
    v |= Vint::<2>::from(0xf0u128);
    assert_eq!(u128::from(v), 0xff);
    v ^= 0x0fu128;
    assert_eq!(u128::from(v), 0xf0);
    v <<= 4u128;
    assert_eq!(u128::from(v), 0xf00);
    v >>= Vint::<2>::from(8u128);
    assert_eq!(u128::from(v), 0x0f);
}

#[test]
fn operators_keep_the_left_precision() {
    // two bytes keep 0x1234 as 0x1230; three keep 0x100 exactly
    let a = Vint::<2>::from(0x1234u128);
    let b = Vint::<3>::from(0x100u128);
    assert_eq!(u128::from(a), 0x1230);
    assert_eq!(u128::from(a * b), 0x123000);
    assert_eq!(u128::from(b * a), 0x123000);
    assert_eq!(u128::from(b * 0x1234u128), 0x123400);
    let mut c = Vint::<2>::from(0x1234u128);
    c *= b;
    assert_eq!(u128::from(c), 0x123000);
    let mut d = 0x1234u128;
    d *= b;
    assert_eq!(d, 0x123400);
}

#[test]
fn arithmetic_on_rounded_values() {
    // 1000 = 0x3e8 is kept as 0x3e0 = 992 in two bytes
    let v = Vint::<2>::from(1000u128);
    assert_eq!(u128::from(v), 992);
    assert_eq!(u128::from(v + 8u128), 1000 & !0xf);
    assert_eq!(u128::from(v - 2u128), 0x3d0);
    assert_eq!(u128::from(v / 3u128), 330 & !0xf);
    assert_eq!(u128::from(v % 100u128), 92);
    assert_eq!(1000u128 - v, Vint::<2>::from(8u128));
}

#[test]
fn decimal_text() {
    assert_eq!(Vint::<2>::from(1234u128).to_string(), "1232");
    assert_eq!(Vint::<3>::from(0u128).to_string(), "0");
    assert_eq!(Vint::<1>::from(9u128).to_string(), "0");
    assert_eq!(Vint::<2>::from(9u128).to_string(), "9");
    assert_eq!(
        Vint::<17>::from(u128::MAX).to_string(),
        "340282366920938463463374607431768211455"
    );
}

#[test]
fn default_is_zero() {
    assert_eq!(u128::from(Vint::<4>::default()), 0);
    assert_eq!(Vint::<4>::default(), Vint::<4>::from(0u128));
}

#[test]
fn rounding_keeps_order_from_two_bytes_on() {
    assert!(floor::<2>(0xffff) <= floor::<2>(0x10000));
    assert!(floor::<2>(0x12345) <= floor::<2>(0x12346));
    assert!(floor::<3>(255) <= floor::<3>(256));
    // with one byte, 256 keeps only its exponent and comes back as 0
    assert_eq!(floor::<1>(255), 240);
    assert_eq!(floor::<1>(256), 0);
}

#[test]
fn narrower_right_operands() {
    let v = Vint::<2>::from(0x10u128);
    assert_eq!(v + 1u8, Vint::from(0x11u128));
    assert_eq!(v - 1u16, Vint::from(0x0fu128));
    assert_eq!(v * 2u32, Vint::from(0x20u128));
    assert_eq!(v / 2u64, Vint::from(0x08u128));
    assert_eq!(v % 3u8, Vint::from(1u128));
    assert_eq!(v | true, Vint::from(0x11u128));
    assert_eq!(v & false, Vint::from(0u128));
    assert_eq!(v + 'a', Vint::from(0x71u128));
    assert_eq!(v ^ 0x01u8, Vint::from(0x11u128));
    assert_eq!(v << 4u8, Vint::from(0x100u128));
    assert_eq!(v >> 4u64, Vint::from(1u128));
    let mut w = Vint::<2>::from(0x10u128);
    w += 2u8;
    w *= true;
    w -= 'A' as u8 - 64;
    assert_eq!(u128::from(w), 0x11);
    w <<= 1u32;
    assert_eq!(u128::from(w), 0x22);
}

#[test]
fn decoded_values_are_kept_by_their_encoding() {
    // bytes that no encoding produces still stand for a value that encodes back
    let odd = Vint([0x01u8]);
    assert_eq!(u128::from(odd), 0);
    assert_eq!(u128::from(Vint::<1>::from(u128::from(odd))), 0);
    let v = Vint([0x12u8, 0x35]);
    assert_eq!(u128::from(v), 0x1230_0000_0000);
    assert_eq!(u128::from(Vint::<2>::from(u128::from(v))), 0x1230_0000_0000);
    assert_eq!(u128::from(v * 1u8), u128::from(v));
    assert_eq!(odd * 1u8, Vint([0x00]));
    assert_eq!(v * 0u128, Vint([0, 0]));
}

#[test]
fn rounding_gives_the_best_value_below() {
    // every two-byte value not above 0x1234 is at most its rounding
    let below = Vint([0x12u8, 0x31]);
    assert_eq!(u128::from(below), 0x1230);
    assert!(u128::from(below) <= floor::<2>(0x1234));
    assert_eq!(floor::<2>(0x1234), 0x1230);
}

#[test]
fn operator_bounds() {
    let v = Vint::<2>::from(0x1234u128);
    let x = 0x0fu128;
    assert_eq!(u128::from(v & x), u128::from(v) & x);
    assert_eq!(u128::from(v & 0xff00u128), 0x1200);
    let s = u128::from(v + x);
    assert!(u128::from(v) <= s && s <= u128::from(v) + x);
    let o = u128::from(v | 0x4000u128);
    assert!(u128::from(v) <= o && o <= (u128::from(v) | 0x4000));
    assert_eq!(v ^ v, Vint([0, 0]));
    assert_eq!(u128::from(v ^ 0u8), u128::from(v));
    assert!(u128::from(v ^ 0x0ff0u128) <= (u128::from(v) ^ 0x0ff0));
}
