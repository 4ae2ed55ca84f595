//! Rounding to whole numbers.

use vstd::arithmetic::div_mod::lemma_div_is_ordered;
use vstd::arithmetic::div_mod::lemma_fundamental_div_mod;
use vstd::arithmetic::div_mod::lemma_fundamental_div_mod_converse;
use vstd::arithmetic::power2::lemma_pow2_adds;
use vstd::arithmetic::power2::lemma_pow2_pos;
use vstd::arithmetic::power2::lemma_pow2_strictly_increases;
use vstd::arithmetic::power2::pow2;
use vstd::prelude::*;

use crate::double::exponent_index;
use crate::double::has_fraction;
use crate::double::nearest_integer;
use crate::double::one_units;
use crate::double::significand;
use crate::double::units;
use crate::double::whole_part;
use crate::double::Double;
use crate::motion_laws::lemma_packed_units;
use crate::motion_laws::lemma_scale;
use crate::motion_laws::numbers_are_nearest_to_themselves;
use crate::rounding::lemma_nearest_zero;
use crate::rounding::lemma_two52;
use crate::rounding::nearest;
use crate::rounding::scale_of;
use crate::rounding::INFINITY_BITS;

verus! {

/// Numbers of up to 53 binary digits are held exactly.
pub proof fn lemma_exact(w: nat, e: nat)
    requires
        w < 0x20_0000_0000_0000,
        e <= 1074,
    ensures
        units(nearest(w * pow2(e), 1)) == w * pow2(e),
        nearest(w * pow2(e), 1) < INFINITY_BITS,
{
    let o = pow2(e);
    let n = w * o;
    lemma_two52();
    lemma_pow2_pos(e);
    vstd::arithmetic::power2::lemma2_to64();
    if w == 0 {
        assert(n == 0) by (nonlinear_arith)
            requires
                n == w * o,
                w == 0,
        ;
        lemma_nearest_zero(1);
        crate::order_laws::lemma_some_units(1);
    } else {
        let k = scale_of(n, 1);
        lemma_scale(n, 1);
        lemma_pow2_pos(k);
        assert(1 * pow2(k) == pow2(k));
        assert(n < 0x20_0000_0000_0000 * o) by (nonlinear_arith)
            requires
                n == w * o,
                w < 0x20_0000_0000_0000,
                o > 0,
        ;
        if k > e {
            lemma_pow2_adds(1, e);
            if k > e + 1 {
                lemma_pow2_strictly_increases(e + 1, k);
            }
            assert(false);
        }
        let g = pow2((e - k) as nat);
        let p = pow2(k);
        lemma_pow2_adds((e - k) as nat, k);
        let q = w * g;
        assert(n == q * p) by (nonlinear_arith)
            requires
                n == w * o,
                o == g * p,
                q == w * g,
        ;
        lemma_fundamental_div_mod_converse(n as int, p as int, q as int, 0);
        assert(q < 0x20_0000_0000_0000) by (nonlinear_arith)
            requires
                q * p < p * 0x20_0000_0000_0000,
                p > 0,
        ;
        assert(k > 0 ==> q >= 0x10_0000_0000_0000) by (nonlinear_arith)
            requires
                k > 0 ==> p * 0x10_0000_0000_0000 <= q * p,
                p > 0,
        ;
        lemma_packed_units(k, q);
    }
}

/// Whole numbers of up to 53 binary digits are held exactly.
pub proof fn small_whole_numbers_are_exact(w: nat)
    requires
        w < 0x20_0000_0000_0000,
    ensures
        units(nearest_integer(w)) == w * one_units(),
        nearest_integer(w) < INFINITY_BITS,
{
    lemma_exact(w, 1074);
}

/// A number with a part below one is small, and a number without one is its own whole part.
proof fn lemma_fraction(mag: nat)
    requires
        mag < INFINITY_BITS,
    ensures
        units(mag) == whole_part(mag) * one_units() + units(mag) % one_units(),
        units(mag) % one_units() < one_units(),
        has_fraction(mag) ==> whole_part(mag) < 0x10_0000_0000_0000,
        !has_fraction(mag) ==> nearest_integer(whole_part(mag)) == mag,
{
    let o = one_units();
    let u = units(mag);
    lemma_two52();
    lemma_pow2_pos(1074);
    lemma_fundamental_div_mod(u as int, o as int);
    assert(o * (u / o) == (u / o) * o) by (nonlinear_arith);
    let e = exponent_index(mag);
    let s = significand(mag);
    lemma_pow2_pos(e);
    assert(s < 0x20_0000_0000_0000);
    if has_fraction(mag) {
        if e >= 1074 {
            let g = pow2((e - 1074) as nat);
            lemma_pow2_adds((e - 1074) as nat, 1074);
            assert(u == (s * g) * o) by (nonlinear_arith)
                requires
                    u == s * pow2(e),
                    pow2(e) == g * o,
            ;
            lemma_fundamental_div_mod_converse(u as int, o as int, (s * g) as int, 0);
            assert(false);
        }
        let g = pow2(e);
        lemma_pow2_adds(1, 1073);
        let h = pow2(1073);
        if e < 1073 {
            lemma_pow2_strictly_increases(e, 1073);
        }
        assert(u < 0x10_0000_0000_0000 * o) by (nonlinear_arith)
            requires
                u == s * g,
                s < 0x20_0000_0000_0000,
                g <= h,
                o == 2 * h,
                g > 0,
        ;
        let w = u / o;
        assert(w < 0x10_0000_0000_0000) by (nonlinear_arith)
            requires
                w * o <= u,
                u < 0x10_0000_0000_0000 * o,
                o > 0,
        ;
    } else {
        numbers_are_nearest_to_themselves(mag);
    }
}

/// The whole number that is nearest to a number of units; halves go up.
pub open spec fn nearest_whole(u: nat) -> nat {
    (2 * u + one_units()) / (2 * one_units())
}

/// A number is rounded to the nearest whole number, and halves away from zero.
pub proof fn numbers_round_to_the_nearest_whole_number(x: Double)
    requires
        x.finite(),
    ensures
        x.round().finite(),
        x.round().negative() == x.negative(),
        units(x.round().magnitude()) == nearest_whole(units(x.magnitude())) * one_units(),
        2 * (nearest_whole(units(x.magnitude())) * one_units()) <= 2 * units(x.magnitude())
            + one_units(),
        2 * (nearest_whole(units(x.magnitude())) * one_units()) > 2 * units(x.magnitude())
            - one_units(),
{
    reveal(Double::rounded);
    let mag = x.magnitude();
    let o = one_units();
    let u = units(mag);
    let w = whole_part(mag);
    let f = u % o;
    lemma_two52();
    lemma_pow2_pos(1074);
    lemma_fraction(mag);
    let n: nat = if 2 * f >= o {
        w + 1
    } else {
        w
    };
    assert((w + 1) * o == w * o + o) by (nonlinear_arith);
    let r: nat = if 2 * f >= o {
        (2 * f - o) as nat
    } else {
        2 * f + o
    };
    assert(2 * u + o == n * (2 * o) + r) by (nonlinear_arith)
        requires
            u == w * o + f,
            n == w + 1 && r == 2 * f - o || n == w && r == 2 * f + o,
    ;
    lemma_fundamental_div_mod_converse((2 * u + o) as int, (2 * o) as int, n as int, r as int);
    if has_fraction(mag) {
        small_whole_numbers_are_exact(n);
    } else {
        assert(n == w);
    }
}

/// A number is rounded down to the largest whole number that is not above it.
pub proof fn numbers_round_down(x: Double)
    requires
        x.finite(),
    ensures
        x.floor().finite(),
        x.floor().value() <= x.value(),
        x.value() < x.floor().value() + one_units(),
        units(x.floor().magnitude()) % one_units() == 0,
        !x.negative() ==> !x.floor().negative() && units(x.floor().magnitude()) == whole_part(
            x.magnitude(),
        ) * one_units(),
{
    reveal(Double::rounded_down);
    let mag = x.magnitude();
    let o = one_units();
    let w = whole_part(mag);
    lemma_two52();
    lemma_pow2_pos(1074);
    lemma_fraction(mag);
    assert((w + 1) * o == w * o + o) by (nonlinear_arith);
    lemma_fundamental_div_mod_converse((w * o) as int, o as int, w as int, 0);
    lemma_fundamental_div_mod_converse(((w + 1) * o) as int, o as int, (w + 1) as int, 0);
    if has_fraction(mag) {
        small_whole_numbers_are_exact(w);
        small_whole_numbers_are_exact(w + 1);
    }
}

/// A number is rounded up to the smallest whole number that is not below it.
pub proof fn numbers_round_up(x: Double)
    requires
        x.finite(),
    ensures
        x.ceil().finite(),
        x.ceil().value() >= x.value(),
        x.value() > x.ceil().value() - one_units(),
        units(x.ceil().magnitude()) % one_units() == 0,
        x.ceil().negative() == x.negative(),
{
    reveal(Double::rounded_up);
    let mag = x.magnitude();
    let o = one_units();
    let w = whole_part(mag);
    lemma_two52();
    lemma_pow2_pos(1074);
    lemma_fraction(mag);
    assert((w + 1) * o == w * o + o) by (nonlinear_arith);
    lemma_fundamental_div_mod_converse((w * o) as int, o as int, w as int, 0);
    lemma_fundamental_div_mod_converse(((w + 1) * o) as int, o as int, (w + 1) as int, 0);
    if has_fraction(mag) {
        small_whole_numbers_are_exact(w);
        small_whole_numbers_are_exact(w + 1);
    }
}

/// Larger numbers round to no smaller whole numbers.
pub proof fn nearest_whole_numbers_are_monotone(a: nat, b: nat)
    requires
        a <= b,
    ensures
        nearest_whole(a) <= nearest_whole(b),
{
    lemma_pow2_pos(1074);
    lemma_div_is_ordered(
        (2 * a + one_units()) as int,
        (2 * b + one_units()) as int,
        (2 * one_units()) as int,
    );
}

} // verus!
