//! What arithmetic does to the order of numbers.

use vstd::arithmetic::power2::lemma_pow2_pos;
use vstd::arithmetic::power2::pow2;
use vstd::prelude::*;

use crate::double::magnitude_of;
use crate::double::one_units;
use crate::double::significand;
use crate::double::units;
use crate::double::Double;
use crate::double::num;
use crate::double::ZERO;
use crate::motion_laws::lemma_scale;
use crate::motion_laws::numbers_are_nearest_to_themselves;
use crate::rounding::lemma_divide_scaled;
use crate::rounding::lemma_nearest_zero;
use crate::rounding::lemma_scale_is;
use crate::rounding::lemma_two52;
use crate::rounding::nearest;
use crate::rounding::scale_of;
use crate::rounding::INFINITY_BITS;
use crate::speed_laws::lemma_units_monotone;
use crate::speed_laws::not_negative;
use crate::speed_laws::rounding_is_monotone;

verus! {

/// A ratio is rounded in the same way whatever it is expanded with.
pub proof fn rounding_depends_on_the_ratio(n: nat, d: nat, c: nat)
    requires
        d > 0,
        c > 0,
    ensures
        nearest(n * c, d * c) == nearest(n, d),
{
    let k = scale_of(n, d);
    let p = pow2(k);
    lemma_scale(n, d);
    lemma_pow2_pos(k);
    assert(d * c > 0) by (nonlinear_arith)
        requires
            d > 0,
            c > 0,
    ;
    assert(n * c < (d * c) * 0x20_0000_0000_0000 * p) by (nonlinear_arith)
        requires
            n < d * p * 0x20_0000_0000_0000,
            c > 0,
    ;
    assert(k > 0 ==> (d * c) * 0x10_0000_0000_0000 * p <= n * c) by (nonlinear_arith)
        requires
            k > 0 ==> d * p * 0x10_0000_0000_0000 <= n,
            c > 0,
    ;
    lemma_scale_is(n * c, d * c, k);
    assert(d * p > 0) by (nonlinear_arith)
        requires
            d > 0,
            p > 0,
    ;
    lemma_divide_scaled(n, d * p, c);
    assert((d * p) * c == (d * c) * p) by (nonlinear_arith);
}

/// A smaller divisor gives no smaller a number.
pub proof fn rounding_falls_with_the_divisor(n: nat, d: nat, e: nat)
    requires
        0 < d <= e,
    ensures
        nearest(n, e) <= nearest(n, d) <= INFINITY_BITS,
{
    rounding_depends_on_the_ratio(n, d, e);
    rounding_depends_on_the_ratio(n, e, d);
    assert(d * e == e * d) by (nonlinear_arith);
    assert(n * d <= n * e) by (nonlinear_arith)
        requires
            d <= e,
    ;
    assert(d * e > 0) by (nonlinear_arith)
        requires
            0 < d <= e,
    ;
    rounding_is_monotone(n * d, n * e, d * e);
}

/// A positive magnitude stands for at least one unit.
pub proof fn lemma_some_units(mag: nat)
    requires
        mag > 0,
    ensures
        units(mag) > 0,
        units(0) == 0,
{
    lemma_two52();
    assert(units(0) == 0) by {
        assert(significand(0) == 0);
        assert(0 * pow2(0) == 0);
    }
    lemma_units_monotone(1, mag);
    assert(significand(1) == 1);
    assert(1 * pow2(0) == 1);
}

/// A larger number stands for more units.
pub proof fn lemma_value_monotone(a: Double, b: Double)
    requires
        a <= b,
    ensures
        a.value() <= b.value(),
{
    lemma_some_units(1);
    if a.magnitude() <= b.magnitude() {
        lemma_units_monotone(a.magnitude(), b.magnitude());
    } else {
        lemma_units_monotone(b.magnitude(), a.magnitude());
    }
}

proof fn lemma_round_trip(v: int)
    ensures
        nearest(magnitude_of(v), 1) <= INFINITY_BITS,
{
    rounding_is_monotone(magnitude_of(v), magnitude_of(v), 1);
}

/// Adding the same to a larger number gives no smaller a sum.
pub proof fn sums_are_monotone(a: Double, b: Double, c: Double)
    requires
        a <= b,
        !(a + c).nan(),
        !(b + c).nan(),
    ensures
        a + c <= b + c,
{
    reveal(Double::spec_add);
    lemma_two52();
    if a.finite() && b.finite() && c.finite() {
        lemma_value_monotone(a, b);
        let v = a.value() + c.value();
        let w = b.value() + c.value();
        lemma_round_trip(v);
        lemma_round_trip(w);
        if v >= 0 && w >= 0 {
            rounding_is_monotone(magnitude_of(v), magnitude_of(w), 1);
        } else if v < 0 && w < 0 {
            rounding_is_monotone(magnitude_of(w), magnitude_of(v), 1);
        }
    } else if b.finite() && c.finite() {
        lemma_round_trip(b.value() + c.value());
    } else if a.finite() && c.finite() {
        lemma_round_trip(a.value() + c.value());
    }
}

/// Taking away more leaves no more.
pub proof fn differences_are_monotone(a: Double, b: Double, c: Double)
    requires
        a <= b,
        !(c - a).nan(),
        !(c - b).nan(),
    ensures
        c - b <= c - a,
{
    crate::motion_laws::sums_commute(c, a.negated());
    crate::motion_laws::sums_commute(c, b.negated());
    sums_are_monotone(b.negated(), a.negated(), c);
}

/// Multiplying a larger number gives no smaller a product.
pub proof fn products_are_monotone(a: Double, b: Double, c: Double)
    requires
        not_negative(a),
        a <= b,
        not_negative(c),
        !(a * c).nan(),
        !(b * c).nan(),
    ensures
        not_negative(a * c),
        a * c <= b * c,
{
    reveal(Double::spec_mul);
    lemma_two52();
    lemma_pow2_pos(1074);
    lemma_nearest_zero(one_units());
    let x = units(a.magnitude());
    let y = units(b.magnitude());
    let z = units(c.magnitude());
    lemma_units_monotone(a.magnitude(), b.magnitude());
    assert(units(0) == 0) by {
        lemma_some_units(1);
    }
    assert(x * z <= y * z) by (nonlinear_arith)
        requires
            x <= y,
    ;
    rounding_is_monotone(x * z, y * z, one_units());
    assert(x == 0 || z == 0 ==> x * z == 0) by (nonlinear_arith);
    assert(y == 0 || z == 0 ==> y * z == 0) by (nonlinear_arith);
}

/// Dividing a larger number gives no smaller a quotient.
pub proof fn quotients_are_monotone(a: Double, b: Double, c: Double)
    requires
        not_negative(a),
        a <= b,
        c > num(ZERO),
        !(a / c).nan(),
        !(b / c).nan(),
    ensures
        not_negative(a / c),
        a / c <= b / c,
{
    reveal(Double::over);
    lemma_two52();
    let x = units(a.magnitude());
    let y = units(b.magnitude());
    let z = units(c.magnitude());
    lemma_units_monotone(a.magnitude(), b.magnitude());
    lemma_some_units(c.magnitude());
    assert(x * one_units() <= y * one_units()) by (nonlinear_arith)
        requires
            x <= y,
    ;
    rounding_is_monotone(x * one_units(), y * one_units(), z);
    assert(x == 0 ==> x * one_units() == 0) by (nonlinear_arith);
    assert(y == 0 ==> y * one_units() == 0) by (nonlinear_arith);
    lemma_nearest_zero(z);
}

/// Dividing by a larger number gives no larger a quotient.
pub proof fn quotients_fall_with_the_divisor(a: Double, b: Double, c: Double)
    requires
        a > num(ZERO),
        a <= b,
        not_negative(c),
        !(c / a).nan(),
        !(c / b).nan(),
    ensures
        c / b <= c / a,
{
    reveal(Double::over);
    lemma_two52();
    let x = units(a.magnitude());
    let y = units(b.magnitude());
    let z = units(c.magnitude());
    lemma_units_monotone(a.magnitude(), b.magnitude());
    lemma_some_units(a.magnitude());
    lemma_some_units(b.magnitude());
    rounding_falls_with_the_divisor(z * one_units(), x, y);
    assert(z == 0 ==> z * one_units() == 0) by (nonlinear_arith);
    lemma_nearest_zero(x);
    lemma_nearest_zero(y);
    rounding_is_monotone(z * one_units(), z * one_units(), x);
}

/// A number divided by itself is one.
pub proof fn numbers_over_themselves_are_one(a: Double)
    requires
        a > num(ZERO),
        a.finite(),
    ensures
        a / a == num(crate::double::ONE),
{
    reveal(Double::over);
    lemma_two52();
    let x = units(a.magnitude());
    lemma_some_units(a.magnitude());
    rounding_depends_on_the_ratio(one_units(), 1, x);
    assert(x * one_units() == one_units() * x) by (nonlinear_arith);
    assert(1 * x == x);
    one_is_one();
    numbers_are_nearest_to_themselves(num(crate::double::ONE).magnitude());
}

/// The number one stands for as many units as there are in one.
pub proof fn one_is_one()
    ensures
        units(crate::double::ONE as nat) == one_units(),
{
    lemma_two52();
    let mag = crate::double::ONE as nat;
    assert(mag / (crate::rounding::HIDDEN_BIT as nat) == 1023);
    assert(significand(mag) == 0x10_0000_0000_0000);
    vstd::arithmetic::power2::lemma_pow2_adds(52, 1022);
}

} // verus!
