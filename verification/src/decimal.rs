//! Decimal notation of unsigned numbers.
use vstd::arithmetic::div_mod::{lemma_div_denominator, lemma_fundamental_div_mod};
use vstd::prelude::*;
use vstd::string::StringExecFns;

verus! {

/// The character of a decimal digit.
pub open spec fn digit_char(d: nat) -> char {
    if d == 0 {
        '0'
    } else if d == 1 {
        '1'
    } else if d == 2 {
        '2'
    } else if d == 3 {
        '3'
    } else if d == 4 {
        '4'
    } else if d == 5 {
        '5'
    } else if d == 6 {
        '6'
    } else if d == 7 {
        '7'
    } else if d == 8 {
        '8'
    } else {
        '9'
    }
}

/// The decimal notation of `n`: its digits, most significant first, without
/// leading zeros (a single `0` for zero).
pub open spec fn decimal(n: nat) -> Seq<char>
    decreases n,
{
    if n < 10 {
        seq![digit_char(n)]
    } else {
        decimal(n / 10).push(digit_char(n % 10))
    }
}

/// `10` raised to the power `k`.
pub open spec fn pow10(k: nat) -> nat
    decreases k,
{
    if k == 0 {
        1
    } else {
        10 * pow10((k - 1) as nat)
    }
}

/// The text of one decimal digit.
fn digit_str(d: u8) -> (s: &'static str)
    requires
        d < 10,
    ensures
        s@ == seq![digit_char(d as nat)],
{
    proof {
        reveal_strlit("0");
        reveal_strlit("1");
        reveal_strlit("2");
        reveal_strlit("3");
        reveal_strlit("4");
        reveal_strlit("5");
        reveal_strlit("6");
        reveal_strlit("7");
        reveal_strlit("8");
        reveal_strlit("9");
    }
    if d == 0 {
        "0"
    } else if d == 1 {
        "1"
    } else if d == 2 {
        "2"
    } else if d == 3 {
        "3"
    } else if d == 4 {
        "4"
    } else if d == 5 {
        "5"
    } else if d == 6 {
        "6"
    } else if d == 7 {
        "7"
    } else if d == 8 {
        "8"
    } else {
        "9"
    }
}

/// The decimal notation of `n`.
pub fn decimal_string(n: u128) -> (s: String)
    ensures
        s@ == decimal(n as nat),
{
    // the largest power of ten not above n (one for n below ten)
    let mut p: u128 = 1;
    let ghost mut k: nat = 0;
    while n / p >= 10
        invariant
            p == pow10(k),
            p >= 1,
            p <= n || p == 1,
        decreases n - p,
    {
        assert(p * 10 <= n) by {
            lemma_fundamental_div_mod(n as int, p as int);
            assert(p * (n / p) >= p * 10) by (nonlinear_arith)
                requires
                    n / p >= 10,
                    p >= 1,
            ;
        }
        p = p * 10;
        proof {
            k = k + 1;
        }
    }
    let mut s = String::new();
    s.append(digit_str((n / p) as u8));
    assert(s@ =~= decimal((n / p) as nat));
    while p > 1
        invariant
            p == pow10(k),
            p >= 1,
            p <= n || p == 1,
            s@ == decimal((n / p) as nat),
        decreases p,
    {
        let ghost old_p = p;
        assert(k > 0);
        assert(p == 10 * pow10((k - 1) as nat));
        p = p / 10;
        proof {
            k = (k - 1) as nat;
            lemma_div_denominator(n as int, p as int, 10);
            assert(p * 10 == old_p);
            let x = (n / p) as nat;
            assert(x / 10 == n / old_p);
            assert(n > 0);
            assert(n / old_p >= 1) by {
                lemma_fundamental_div_mod(n as int, old_p as int);
                if n / old_p == 0 {
                    assert(old_p * (n / old_p) == 0) by (nonlinear_arith)
                        requires
                            n / old_p == 0,
                    ;
                }
            }
            assert(x >= 10);
        }
        let d = ((n / p) % 10) as u8;
        s.append(digit_str(d));
        assert(s@ =~= decimal((n / p) as nat));
    }
    assert(n / 1 == n);
    s
}

} // verus!
