use vint::{floor, Vint};

#[test]
fn macros() {
    assert_eq!(Vint::<1>::from(0u128).0, [0]);
    assert_eq!(Vint::<1>::from(0u128).0, [0]);
    assert_eq!(Vint::<1>::from(0u128), Vint::<1>::from(0));
    assert_eq!(Vint::<1>::from(0u128), Vint::from(0));
    assert_eq!(Vint::<1>::from(0x00u128).0, [0x00]);
    assert_eq!(Vint::<1>::from(0x01u128).0, [0x00]);
    assert_eq!(Vint::<1>::from(0x10u128).0, [0x10]);
    assert_eq!(Vint::<1>::from(0x11u128).0, [0x10]);
    assert_eq!(
        Vint::<1>::from(0x10000000000000000000000000000000u128).0,
        [0x1f]
    );
    assert_eq!(Vint::<2>::from(0x00u128).0, [0x00, 0x00]);
    assert_eq!(Vint::<2>::from(0x01u128).0, [0x01, 0x00]);
    assert_eq!(Vint::<2>::from(0x10u128).0, [0x10, 0x00]);
    assert_eq!(Vint::<2>::from(0x11u128).0, [0x11, 0x00]);
    assert_eq!(
        Vint::<2>::from(0x10000000000000000000000000000000u128).0,
        [0x10, 0x0f]
    );
    assert_eq!(floor::<1>(100), 96);
}

#[test]
fn from() {
    assert_eq!(u128::from(Vint([0x00])), 0x00);
    assert_eq!(u128::from(Vint([0x01])), 0x00);
    assert_eq!(u128::from(Vint([0x10])), 0x10);
    assert_eq!(u128::from(Vint([0x11])), 0x1000);
    assert_eq!(u128::from(Vint([0x1f])), 0x10000000000000000000000000000000);
    assert_eq!(u128::from(Vint([0x00, 0x00])), 0x00);
    assert_eq!(u128::from(Vint([0x01, 0x00])), 0x01);
    assert_eq!(u128::from(Vint([0x10, 0x00])), 0x10);
    assert_eq!(u128::from(Vint([0x11, 0x00])), 0x11);
    assert_eq!(
        u128::from(Vint([0x10, 0x0f])),
        0x10000000000000000000000000000000
    );
}

#[test]
fn add() {
    {
        let a = 1;
        let b = Vint::<2>::from(1u128);
        assert_eq!(a + b, Vint::from(2u128));
        assert_eq!(b + a, Vint::from(2u128));
        assert_eq!(b + b, Vint::from(2u128));
    }
    {
        let mut a = 1;
        a += Vint::<2>::from(1u128);
        assert_eq!(a, 2);
    }
    {
        let mut a = Vint::<2>::from(1u128);
        a += 1_u128;
        assert_eq!(u128::from(a), 2);
    }
}

#[test]
fn sub() {
    {
        let a = 1;
        let b = Vint::<2>::from(1u128);
        assert_eq!(a - b, Vint::from(0u128));
        assert_eq!(b - a, Vint::from(0u128));
        assert_eq!(b - b, Vint::from(0u128));
    }
    {
        let mut a = 1;
        a -= Vint::<2>::from(1u128);
        assert_eq!(a, 0);
    }
    {
        let mut a = Vint::<2>::from(1u128);
        a -= 1_u128;
        assert_eq!(u128::from(a), 0);
    }
}

#[test]
fn mul() {
    {
        let a = 2;
        let b = Vint::<2>::from(2u128);
        assert_eq!(a * b, Vint::from(4u128));
        assert_eq!(b * a, Vint::from(4u128));
        assert_eq!(b * b, Vint::from(4u128));
    }
    {
        let mut a = 2;
        a *= Vint::<2>::from(2u128);
        assert_eq!(a, 4);
    }
    {
        let mut a = Vint::<2>::from(2u128);
        a *= 2_u128;
        assert_eq!(u128::from(a), 4);
    }
}

#[test]
fn div() {
    {
        let a = 2;
        let b = Vint::<2>::from(2u128);
        assert_eq!(a / b, Vint::from(1u128));
        assert_eq!(b / a, Vint::from(1u128));
        assert_eq!(b / b, Vint::from(1u128));
    }
    {
        let mut a = 2;
        a /= Vint::<2>::from(2u128);
        assert_eq!(a, 1);
    }
    {
        let mut a = Vint::<2>::from(2u128);
        a /= 2_u128;
        assert_eq!(u128::from(a), 1);
    }
}

#[test]
fn rem() {
    {
        let a = 2;
        let b = Vint::<2>::from(2u128);
        assert_eq!(a % b, Vint::from(0u128));
        assert_eq!(b % a, Vint::from(0u128));
        assert_eq!(b % b, Vint::from(0u128));
    }
    {
        let mut a = 2;
        a %= Vint::<2>::from(2u128);
        assert_eq!(a, 0);
    }
    {
        let mut a = Vint::<2>::from(2u128);
        a %= 2_u128;
        assert_eq!(u128::from(a), 0);
    }
}

#[test]
fn default() {
    assert_eq!(Vint::default(), Vint([]));
    assert_eq!(Vint::default(), Vint([0]));
    assert_eq!(Vint::default(), Vint([0, 0]));
}
