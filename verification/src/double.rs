//! The rounding of IEEE 754 doubles, in whole numbers.
//!
//! A positive double is a whole multiple of a unit that depends on its size: it has 53
//! significant bits. Counted in units that are small enough, the doubles of a calculation
//! are whole numbers, and each step of it is an exact result rounded to 53 bits.

use vstd::arithmetic::div_mod::lemma_fundamental_div_mod;
use vstd::arithmetic::power2::{
    lemma2_to64, lemma_pow2_strictly_increases, lemma_pow2_unfold, pow2,
};
use vstd::prelude::*;

verus! {

/// Two to the number of significant bits.
pub const SIGNIFICANT: u128 = 0x20_0000_0000_0000;

/// The whole number nearest to `n / d`, and the even one of two that are equally near.
pub open spec fn half_even(n: nat, d: nat) -> nat {
    let below = n / d;
    let rest = n % d;
    if 2 * rest < d || (2 * rest == d && below % 2 == 0) {
        below
    } else {
        below + 1
    }
}

/// The distance of neighbouring doubles around `v`, where doubles of that size are whole
/// numbers.
pub open spec fn unit_of(v: nat) -> nat
    decreases v,
{
    if v < SIGNIFICANT {
        1
    } else {
        2 * unit_of(v / 2)
    }
}

/// The double nearest to `n / d`, where doubles of that size are whole numbers.
pub open spec fn double_of(n: nat, d: nat) -> nat {
    let unit = unit_of(n / d);
    half_even(n, d * unit) * unit
}

/// Units are powers of two, and no larger than the size of the number asks for.
pub proof fn lemma_unit(v: nat, bits: nat) -> (exponent: nat)
    requires
        v < SIGNIFICANT * pow2(bits),
    ensures
        exponent <= bits,
        unit_of(v) == pow2(exponent),
        unit_of(v) > 0,
    decreases bits,
{
    lemma2_to64();
    if v < SIGNIFICANT {
        0
    } else {
        assert(bits > 0);
        lemma_pow2_unfold(bits);
        let smaller = (bits - 1) as nat;
        assert(v / 2 < SIGNIFICANT * pow2(smaller)) by (nonlinear_arith)
            requires
                v < SIGNIFICANT * pow2(bits),
                pow2(bits) == 2 * pow2(smaller),
        ;
        let exponent = lemma_unit(v / 2, smaller);
        lemma_pow2_unfold(exponent + 1);
        exponent + 1
    }
}

/// A double is less than one unit away from what it is rounded from.
pub proof fn lemma_double_is_near(n: nat, d: nat, bits: nat)
    requires
        d > 0,
        n / d < SIGNIFICANT * pow2(bits),
    ensures
        double_of(n, d) * d <= n + d * unit_of(n / d),
        n < double_of(n, d) * d + d * unit_of(n / d),
        unit_of(n / d) <= pow2(bits),
{
    let exponent = lemma_unit(n / d, bits);
    if exponent < bits {
        lemma_pow2_strictly_increases(exponent, bits);
    }
    let unit = unit_of(n / d);
    let wide = d * unit;
    assert(wide > 0) by (nonlinear_arith)
        requires
            wide == d * unit,
            d > 0,
            unit > 0,
    ;
    let below = n / wide;
    lemma_fundamental_div_mod(n as int, wide as int);
    let near = half_even(n, wide);
    assert(near == below || near == below + 1);
    assert(double_of(n, d) * d == wide * near) by (nonlinear_arith)
        requires
            double_of(n, d) == near * unit,
            wide == d * unit,
    ;
    assert(wide * (below + 1) == wide * below + wide) by (nonlinear_arith);
}

/// Rounding does not lead below a whole multiple of the unit.
pub proof fn lemma_double_at_least(n: nat, d: nat, multiple: nat, bits: nat)
    requires
        d > 0,
        n / d < SIGNIFICANT * pow2(bits),
        multiple * unit_of(n / d) * d <= n,
    ensures
        double_of(n, d) >= multiple * unit_of(n / d),
{
    let exponent = lemma_unit(n / d, bits);
    let unit = unit_of(n / d);
    let wide = d * unit;
    assert(wide > 0 && wide * multiple <= n) by (nonlinear_arith)
        requires
            wide == d * unit,
            d > 0,
            unit > 0,
            multiple * unit * d <= n,
    ;
    lemma_fundamental_div_mod(n as int, wide as int);
    let below = n / wide;
    assert(below >= multiple) by (nonlinear_arith)
        requires
            wide * multiple <= n,
            n < wide * below + wide,
            wide > 0,
    ;
    let near = half_even(n, wide);
    assert(near >= multiple);
    assert(near * unit >= multiple * unit) by (nonlinear_arith)
        requires
            near >= multiple,
    ;
}

/// The double nearest to `n / d`.
pub fn double(n: u128, d: u128) -> (r: u128)
    requires
        0 < d <= 0x10_0000_0000_0000,
        (n as nat) / (d as nat) < SIGNIFICANT * 32768,
    ensures
        r == double_of(n as nat, d as nat),
{
    let ghost whole = n as nat / d as nat;
    let mut v: u128 = n / d;
    let mut unit: u128 = 1;
    proof {
        lemma2_to64();
        let exponent = lemma_unit(whole, 15);
        lemma_double_is_near(n as nat, d as nat, 15);
    }
    while v >= SIGNIFICANT
        invariant
            unit * unit_of(v as nat) == unit_of(whole),
            unit_of(whole) <= 32768,
            unit > 0,
        decreases v,
    {
        proof {
            let rest = unit_of(v as nat / 2);
            assert((2 * unit) * rest == unit * (2 * rest)) by (nonlinear_arith);
            assert(unit_of(v as nat) == 2 * rest);
            lemma_unit_positive(v as nat / 2);
            assert(2 * unit <= 32768) by (nonlinear_arith)
                requires
                    (2 * unit) * rest <= 32768,
                    rest > 0,
            ;
        }
        v = v / 2;
        unit = 2 * unit;
    }
    assert(unit * unit_of(v as nat) == unit) by (nonlinear_arith)
        requires
            unit_of(v as nat) == 1,
    ;
    assert(0 < d * unit <= 0x10_0000_0000_0000 * 32768) by (nonlinear_arith)
        requires
            0 < d <= 0x10_0000_0000_0000,
            0 < unit <= 32768,
    ;
    let wide: u128 = d * unit;
    let below: u128 = n / wide;
    let rest: u128 = n % wide;
    proof {
        lemma_fundamental_div_mod(n as int, d as int);
        lemma_fundamental_div_mod(n as int, wide as int);
        assert(below <= whole) by (nonlinear_arith)
            requires
                wide * below <= n,
                n < d * whole + d,
                wide == d * unit,
                d > 0,
                unit > 0,
        ;
    }
    let near: u128 = if 2 * rest < wide || (2 * rest == wide && below % 2 == 0) {
        below
    } else {
        below + 1
    };
    assert(near * unit <= SIGNIFICANT * 32768 + 32768) by {
        lemma_double_is_near(n as nat, d as nat, 15);
        let r = double_of(n as nat, d as nat);
        assert(r == near * unit);
        lemma_fundamental_div_mod(n as int, d as int);
        assert(r <= whole + unit + 1) by (nonlinear_arith)
            requires
                r * d <= n + d * unit,
                n < d * whole + d,
                d > 0,
        ;
    }
    near * unit
}

proof fn lemma_unit_positive(v: nat)
    ensures
        unit_of(v) > 0,
    decreases v,
{
    if v >= SIGNIFICANT {
        lemma_unit_positive(v / 2);
    }
}

/// Rounding gives the nearest whole number, and the even one where two are equally near.
pub proof fn lemma_rounding_is_to_the_nearest(n: nat, d: nat)
    requires
        d > 0,
    ensures
        2 * (d * half_even(n, d)) <= 2 * n + d,
        2 * n <= 2 * (d * half_even(n, d)) + d,
        2 * (d * half_even(n, d)) == 2 * n + d || 2 * n == 2 * (d * half_even(n, d)) + d
            ==> half_even(n, d) % 2 == 0,
{
    lemma_fundamental_div_mod(n as int, d as int);
    let below = n / d;
    assert(d * (below + 1) == d * below + d) by (nonlinear_arith);
}

/// A unit leaves 53 significant bits, and is no larger than that takes.
pub proof fn lemma_unit_leaves_53_bits(v: nat)
    ensures
        v < 9_007_199_254_740_992 ==> unit_of(v) == 1,
        v >= 9_007_199_254_740_992 ==> 4_503_599_627_370_496 * unit_of(v) <= v
            < 9_007_199_254_740_992 * unit_of(v),
    decreases v,
{
    if v >= SIGNIFICANT {
        lemma_unit_leaves_53_bits(v / 2);
    }
}

/// A double is a whole number of units, the nearest one.
pub proof fn lemma_double_is_the_nearest(n: nat, d: nat)
    requires
        d > 0,
    ensures
        ({
            let unit = unit_of(n / d);
            let units = half_even(n, d * unit);
            &&& double_of(n, d) == units * unit
            &&& 2 * (d * unit * units) <= 2 * n + d * unit
            &&& 2 * n <= 2 * (d * unit * units) + d * unit
        }),
{
    lemma_unit_positive(n / d);
    let unit = unit_of(n / d);
    assert(d * unit > 0) by (nonlinear_arith)
        requires
            d > 0,
            unit > 0,
    ;
    lemma_rounding_is_to_the_nearest(n, d * unit);
}

} // verus!
