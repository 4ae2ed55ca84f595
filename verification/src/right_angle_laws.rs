//! How fast right angles are taken.

use vstd::arithmetic::div_mod::lemma_fundamental_div_mod;
use vstd::arithmetic::power2::lemma_pow2_adds;
use vstd::arithmetic::power2::lemma_pow2_pos;
use vstd::arithmetic::power2::pow2;
use vstd::prelude::*;

use crate::constants::HALF;
use crate::constants::TWO;
use crate::corner_laws::arc_v2;
use crate::corner_laws::half_sine;
use crate::corner_laws::lemma_quotient;
use crate::corner_laws::lemma_rest;
use crate::corner_laws::straightness;
use crate::double::floor_root;
use crate::double::lemma_root_exists;
use crate::double::nearest_root;
use crate::double::num;
use crate::double::one_units;
use crate::double::units;
use crate::double::Double;
use crate::double::ONE;
use crate::limits::PrinterLimits;
use crate::motion_laws::adding_zero_changes_nothing;
use crate::motion_laws::lemma_packed_units;
use crate::motion_laws::lemma_scale;
use crate::motion_laws::numbers_are_nearest_to_themselves;
use crate::order_laws::differences_are_monotone;
use crate::order_laws::lemma_some_units;
use crate::order_laws::lemma_value_monotone;
use crate::order_laws::one_is_one;
use crate::order_laws::quotients_are_monotone;
use crate::order_laws::quotients_fall_with_the_divisor;
use crate::order_laws::rounding_depends_on_the_ratio;
use crate::planning_move::PlanningMove;
use crate::rounding::divide_half_even;
use crate::rounding::lemma_two52;
use crate::rounding::nearest;
use crate::rounding::scale_of;
use crate::rounding::HIDDEN_BIT;
use crate::rounding::INFINITY_BITS;
use crate::speed_laws::rounding_is_monotone;

verus! {

/// Whether a number is positive and neither too small nor too large for its full precision.
pub open spec fn precise(x: Double) -> bool {
    !x.negative() && HIDDEN_BIT <= x.magnitude() < INFINITY_BITS
}

/// A precise number differs from the ratio that it is nearest to by at most a part in `2^52`.
pub proof fn rounding_is_precise(n: nat, d: nat)
    requires
        d > 0,
        HIDDEN_BIT <= nearest(n, d) < INFINITY_BITS,
    ensures
        0x10_0000_0000_0000 * (units(nearest(n, d)) * d) <= n * 0x10_0000_0000_0001,
        0x10_0000_0000_0000 * (units(nearest(n, d)) * d) >= n * 0xf_ffff_ffff_ffff,
{
    lemma_two52();
    let k = scale_of(n, d);
    let p = pow2(k);
    let u = d * p;
    let q = divide_half_even(n, u);
    lemma_pow2_pos(k);
    assert(u > 0) by (nonlinear_arith)
        requires
            u == d * p,
            d > 0,
            p > 0,
    ;
    lemma_scale(n, d);
    lemma_fundamental_div_mod(n as int, u as int);
    let whole = n / u;
    assert(whole < 0x20_0000_0000_0000) by (nonlinear_arith)
        requires
            n < u * 0x20_0000_0000_0000,
            n >= u * whole,
            u > 0,
    ;
    assert(k > 0 ==> whole >= 0x10_0000_0000_0000) by (nonlinear_arith)
        requires
            k > 0 ==> u * 0x10_0000_0000_0000 <= n,
            n < u * whole + u,
            u > 0,
    ;
    assert(q >= 0x10_0000_0000_0000);
    lemma_packed_units(k, q);
    assert(q * p * d == q * u) by (nonlinear_arith)
        requires
            u == d * p,
    ;
    assert(q == whole ==> q * u == u * whole) by (nonlinear_arith);
    assert(q == whole + 1 ==> q * u == u * whole + u) by (nonlinear_arith);
    assert(2 * (q * u) <= 2 * n + u && 2 * n <= 2 * (q * u) + u);
    assert(q * u >= 0x10_0000_0000_0000 * u) by (nonlinear_arith)
        requires
            q >= 0x10_0000_0000_0000,
            u > 0,
    ;
    assert(2 * n >= 0x1f_ffff_ffff_ffff * u);
}

/// The smallest whole number whose square is above `2^105`.
pub open spec fn root_digits() -> nat {
    0x16_a09e_667f_3bcd
}

/// The root of twice a square lies between two neighbouring numbers.
proof fn lemma_root_of_two(v: nat, k: nat)
    requires
        v * one_units() * pow2(120) == pow2(105) * (pow2(k + 60) * pow2(k + 60)),
        k > 0,
        k * HIDDEN_BIT + 0x20_0000_0000_0000 < INFINITY_BITS,
    ensures
        k * HIDDEN_BIT + root_digits() - 1 <= nearest_root(v) <= k * HIDDEN_BIT + root_digits(),
{
    let t0 = root_digits();
    let n = v * one_units() * pow2(120);
    let g = pow2(k + 60);
    let h = pow2(k);
    let w = lemma_root_exists(n);
    let t = floor_root(n);
    assert(t * t <= n && n < (t + 1) * (t + 1));
    lemma_two52();
    lemma_pow2_adds(52, 53);
    assert(pow2(105) == 0x10_0000_0000_0000 * 0x20_0000_0000_0000);
    lemma_pow2_pos(k + 60);
    lemma_pow2_pos(k);
    assert(t < t0 * g) by (nonlinear_arith)
        requires
            t * t <= n,
            n == pow2(105) * (g * g),
            pow2(105) < t0 * t0,
            g > 0,
            t0 >= 0,
            t >= 0,
    ;
    assert(t + 1 > (t0 - 1) * g) by (nonlinear_arith)
        requires
            n < (t + 1) * (t + 1),
            n == pow2(105) * (g * g),
            pow2(105) > (t0 - 1) * (t0 - 1),
            g > 0,
            t0 >= 1,
            t >= 0,
    ;
    let m: nat = if t * t == n {
        2 * t
    } else {
        2 * t + 1
    };
    lemma_pow2_adds(k, 60);
    lemma_pow2_adds(k, 61);
    lemma_pow2_adds(60, 1);
    let d = pow2(61);
    lemma_pow2_pos(61);
    let hi = (t0 * h) as nat;
    let lo = ((t0 - 1) * h) as nat;
    assert(2 * (t0 * g) == hi * d) by (nonlinear_arith)
        requires
            hi == t0 * h,
            g == h * pow2(60),
            d == pow2(60) * 2,
    ;
    assert(2 * ((t0 - 1) * g) == lo * d) by (nonlinear_arith)
        requires
            lo == (t0 - 1) * h,
            g == h * pow2(60),
            d == pow2(60) * 2,
    ;
    rounding_is_monotone(m, hi * d, d);
    rounding_is_monotone(lo * d, m, d);
    rounding_depends_on_the_ratio(hi, 1, d);
    rounding_depends_on_the_ratio(lo, 1, d);
    assert(1 * d == d);
    lemma_packed_units(k, t0);
    lemma_packed_units(k, (t0 - 1) as nat);
    numbers_are_nearest_to_themselves(k * HIDDEN_BIT as nat + t0);
    numbers_are_nearest_to_themselves((k * HIDDEN_BIT + t0 - 1) as nat);
}

/// The units of one half, one and two.
proof fn lemma_halves_and_twos()
    ensures
        units(HALF as nat) == pow2(1073),
        units(TWO as nat) == pow2(1075),
        units(ONE as nat) == pow2(1074),
{
    lemma_two52();
    lemma_packed_units(1021, 0x10_0000_0000_0000);
    lemma_packed_units(1023, 0x10_0000_0000_0000);
    lemma_pow2_adds(52, 1021);
    lemma_pow2_adds(52, 1023);
    one_is_one();
}

/// The roots of one half and of two.
proof fn lemma_roots()
    ensures
        0x3fe6_a09e_667f_3bcc <= num(HALF).sqrt().bits <= 0x3fe6_a09e_667f_3bcd,
        0x3ff6_a09e_667f_3bcc <= num(TWO).sqrt().bits <= 0x3ff6_a09e_667f_3bcd,
{
    reveal(Double::root);
    lemma_halves_and_twos();
    lemma_pow2_adds(1073, 1074);
    lemma_pow2_adds(2147, 120);
    lemma_pow2_adds(1081, 1081);
    lemma_pow2_adds(105, 2162);
    lemma_root_of_two(pow2(1073), 1021);
    lemma_pow2_adds(1075, 1074);
    lemma_pow2_adds(2149, 120);
    lemma_pow2_adds(1082, 1082);
    lemma_pow2_adds(105, 2164);
    lemma_root_of_two(pow2(1075), 1022);
}


/// A difference that needs no rounding.
proof fn lemma_exact_difference(a: Double, b: Double, q: nat, k: nat)
    requires
        a.finite(),
        b.finite(),
        0x10_0000_0000_0000 <= q < 0x20_0000_0000_0000,
        k * HIDDEN_BIT + 0x20_0000_0000_0000 < INFINITY_BITS,
        a.value() - b.value() == q * pow2(k),
    ensures
        (a - b).value() == q * pow2(k),
        (a - b).finite(),
        (a - b).rank() == k * HIDDEN_BIT + q,
{
    reveal(Double::spec_add);
    lemma_two52();
    lemma_pow2_pos(k);
    assert(q * pow2(k) > 0) by (nonlinear_arith)
        requires
            q > 0,
            pow2(k) > 0,
    ;
    lemma_packed_units(k, q);
    numbers_are_nearest_to_themselves(k * HIDDEN_BIT as nat + q);
}

/// A product with its error.
pub proof fn lemma_product_error(a: Double, b: Double)
    requires
        precise(a),
        precise(b),
        precise(a * b),
    ensures
        0x10_0000_0000_0000 * ((a * b).value() * one_units()) <= (a.value() * b.value())
            * 0x10_0000_0000_0001,
        0x10_0000_0000_0000 * ((a * b).value() * one_units()) >= (a.value() * b.value())
            * 0xf_ffff_ffff_ffff,
{
    reveal(Double::spec_mul);
    lemma_pow2_pos(1074);
    rounding_is_precise(units(a.magnitude()) * units(b.magnitude()), one_units());
}

/// A quotient with its error.
pub proof fn lemma_quotient_error(a: Double, b: Double)
    requires
        precise(a),
        precise(b),
        precise(a / b),
    ensures
        0x10_0000_0000_0000 * ((a / b).value() * b.value()) <= (a.value() * one_units())
            * 0x10_0000_0000_0001,
        0x10_0000_0000_0000 * ((a / b).value() * b.value()) >= (a.value() * one_units())
            * 0xf_ffff_ffff_ffff,
{
    reveal(Double::over);
    lemma_some_units(b.magnitude());
    rounding_is_precise(units(a.magnitude()) * one_units(), units(b.magnitude()));
}

/// The number after the sine of half a right angle, or that sine itself.
spec fn sine_above() -> Double {
    num(0x3fe6_a09e_667f_3bcd)
}

/// The number before the sine of half a right angle, or that sine itself.
spec fn sine_below() -> Double {
    num(0x3fe6_a09e_667f_3bcc)
}

proof fn lemma_sine_bounds()
    ensures
        sine_above().value() == root_digits() * pow2(1021),
        sine_below().value() == (root_digits() - 1) * pow2(1021),
        (num(ONE) - sine_above()).value() == (0x20_0000_0000_0000 - root_digits()) * pow2(1021),
        (num(ONE) - sine_below()).value() == (0x20_0000_0000_0001 - root_digits()) * pow2(1021),
        precise(num(ONE) - sine_above()),
        precise(num(ONE) - sine_below()),
{
    let t = root_digits();
    lemma_two52();
    lemma_packed_units(1021, t);
    lemma_packed_units(1021, (t - 1) as nat);
    one_is_one();
    lemma_pow2_adds(53, 1021);
    lemma_pow2_adds(1, 1020);
    let p = pow2(1021);
    let q = pow2(1020);
    assert(0x20_0000_0000_0000 * p - t * p == (2 * (0x20_0000_0000_0000 - t)) * q)
        by (nonlinear_arith)
        requires
            p == 2 * q,
    ;
    assert(0x20_0000_0000_0000 * p - (t - 1) * p == (2 * (0x20_0000_0000_0001 - t)) * q)
        by (nonlinear_arith)
        requires
            p == 2 * q,
    ;
    lemma_exact_difference(
        num(ONE),
        sine_above(),
        (2 * (0x20_0000_0000_0000 - t)) as nat,
        1020,
    );
    lemma_exact_difference(
        num(ONE),
        sine_below(),
        (2 * (0x20_0000_0000_0001 - t)) as nat,
        1020,
    );
    assert((2 * (0x20_0000_0000_0000 - t)) * q == (0x20_0000_0000_0000 - t) * p)
        by (nonlinear_arith)
        requires
            p == 2 * q,
    ;
    assert((2 * (0x20_0000_0000_0001 - t)) * q == (0x20_0000_0000_0001 - t) * p)
        by (nonlinear_arith)
        requires
            p == 2 * q,
    ;
}


/// The ratio of the sine of half a right angle to what is left of one.
spec fn corner_ratio() -> Double {
    num(HALF).sqrt() / (num(ONE) - num(HALF).sqrt())
}

/// What the root of two has above one.
spec fn root_rest() -> Double {
    num(TWO).sqrt() - num(ONE)
}

proof fn lemma_ratio_of_bound(s: Double, t: nat, d: nat)
    requires
        precise(s),
        precise(num(ONE) - s),
        s.value() == t * pow2(1021),
        (num(ONE) - s).value() == d * pow2(1021),
        0 < d <= t <= 4 * d,
    ensures
        precise(s / (num(ONE) - s)),
        0x10_0000_0000_0000 * ((s / (num(ONE) - s)).value() * d) <= (t * one_units())
            * 0x10_0000_0000_0001,
        0x10_0000_0000_0000 * ((s / (num(ONE) - s)).value() * d) >= (t * one_units())
            * 0xf_ffff_ffff_ffff,
{
    let rest = num(ONE) - s;
    let p = pow2(1021);
    let o = one_units();
    lemma_pow2_pos(1021);
    lemma_pow2_pos(1074);
    lemma_two52();
    assert(precise(s / rest)) by {
        reveal(Double::over);
        lemma_some_units(rest.magnitude());
        let n = units(s.magnitude()) * o;
        let e = units(rest.magnitude());
        assert(n == (t * o) * p) by (nonlinear_arith)
            requires
                n == (t * p) * o,
        ;
        rounding_depends_on_the_ratio(t * o, d, p);
        assert(d * o <= t * o) by (nonlinear_arith)
            requires
                d <= t,
        ;
        assert(t * o <= (4 * o) * d) by (nonlinear_arith)
            requires
                t <= 4 * d,
        ;
        rounding_is_monotone(d * o, t * o, d);
        rounding_is_monotone(t * o, (4 * o) * d, d);
        rounding_depends_on_the_ratio(o, 1, d);
        rounding_depends_on_the_ratio(4 * o, 1, d);
        assert(1 * d == d && o * d == d * o) by (nonlinear_arith);
        one_is_one();
        lemma_pow2_adds(2, 1074);
        vstd::arithmetic::power2::lemma2_to64();
        lemma_packed_units(1024, 0x10_0000_0000_0000);
        lemma_pow2_adds(52, 1024);
        numbers_are_nearest_to_themselves(ONE as nat);
        numbers_are_nearest_to_themselves(1025 * HIDDEN_BIT as nat);
    }
    lemma_quotient_error(s, rest);
    let q = (s / rest).value();
    assert(0x10_0000_0000_0000 * (q * d) <= (t * o) * 0x10_0000_0000_0001) by (nonlinear_arith)
        requires
            0x10_0000_0000_0000 * (q * (d * p)) <= ((t * p) * o) * 0x10_0000_0000_0001,
            p > 0,
    ;
    assert(0x10_0000_0000_0000 * (q * d) >= (t * o) * 0xf_ffff_ffff_ffff) by (nonlinear_arith)
        requires
            0x10_0000_0000_0000 * (q * (d * p)) >= ((t * p) * o) * 0xf_ffff_ffff_ffff,
            p > 0,
    ;
}

proof fn lemma_corner_ratio()
    ensures
        precise(corner_ratio()),
        0x10_0000_0000_0000 * (corner_ratio().value() * (0x20_0000_0000_0000 - root_digits()))
            <= (root_digits() * one_units()) * 0x10_0000_0000_0001,
        0x10_0000_0000_0000 * (corner_ratio().value() * (0x20_0000_0000_0001 - root_digits()))
            >= ((root_digits() - 1) * one_units()) * 0xf_ffff_ffff_ffff,
{
    let s = num(HALF).sqrt();
    let a = sine_above();
    let b = sine_below();
    lemma_roots();
    lemma_sine_bounds();
    lemma_ratio_of_bound(a, root_digits(), (0x20_0000_0000_0000 - root_digits()) as nat);
    lemma_ratio_of_bound(
        b,
        (root_digits() - 1) as nat,
        (0x20_0000_0000_0001 - root_digits()) as nat,
    );
    lemma_rest(s, num(ONE));
    lemma_rest(a, num(ONE));
    lemma_rest(b, num(ONE));
    differences_are_monotone(s, a, num(ONE));
    differences_are_monotone(b, s, num(ONE));
    lemma_quotient(s, num(ONE) - s);
    lemma_quotient(a, num(ONE) - s);
    lemma_quotient(b, num(ONE) - s);
    quotients_are_monotone(s, a, num(ONE) - s);
    quotients_are_monotone(b, s, num(ONE) - s);
    quotients_fall_with_the_divisor(num(ONE) - a, num(ONE) - s, a);
    quotients_fall_with_the_divisor(num(ONE) - s, num(ONE) - b, b);
    let q = corner_ratio();
    lemma_value_monotone(q, a / (num(ONE) - a));
    lemma_value_monotone(b / (num(ONE) - b), q);
    let d = 0x20_0000_0000_0000 - root_digits();
    let x = (a / (num(ONE) - a)).value();
    let y = (b / (num(ONE) - b)).value();
    assert(q.value() * d <= x * d) by (nonlinear_arith)
        requires
            q.value() <= x,
            d > 0,
    ;
    assert(q.value() * (d + 1) >= y * (d + 1)) by (nonlinear_arith)
        requires
            q.value() >= y,
            d > 0,
    ;
}

proof fn lemma_root_rest()
    ensures
        precise(root_rest()),
        root_rest().value() * 0x10_0000_0000_0000 <= (root_digits() - 0x10_0000_0000_0000)
            * one_units(),
        root_rest().value() * 0x10_0000_0000_0000 >= (root_digits() - 0x10_0000_0000_0001)
            * one_units(),
{
    let t = root_digits();
    let r = num(TWO).sqrt();
    let a = num(0x3ff6_a09e_667f_3bcd);
    let b = num(0x3ff6_a09e_667f_3bcc);
    let p = pow2(1022);
    let q = pow2(1020);
    lemma_roots();
    lemma_two52();
    vstd::arithmetic::power2::lemma2_to64();
    lemma_packed_units(1022, t);
    lemma_packed_units(1022, (t - 1) as nat);
    one_is_one();
    lemma_pow2_adds(52, 1022);
    lemma_pow2_adds(2, 1020);
    assert(t * p - 0x10_0000_0000_0000 * p == (4 * (t - 0x10_0000_0000_0000)) * q)
        by (nonlinear_arith)
        requires
            p == 4 * q,
    ;
    assert((t - 1) * p - 0x10_0000_0000_0000 * p == (4 * (t - 0x10_0000_0000_0001)) * q)
        by (nonlinear_arith)
        requires
            p == 4 * q,
    ;
    lemma_exact_difference(a, num(ONE), (4 * (t - 0x10_0000_0000_0000)) as nat, 1020);
    lemma_exact_difference(b, num(ONE), (4 * (t - 0x10_0000_0000_0001)) as nat, 1020);
    assert(!(r - num(ONE)).nan()) by {
        reveal(Double::spec_add);
        let v = r.value() - num(ONE).value();
        rounding_is_monotone(
            crate::double::magnitude_of(v),
            crate::double::magnitude_of(v),
            1,
        );
    }
    crate::order_laws::sums_are_monotone(r, a, num(ONE).negated());
    crate::order_laws::sums_are_monotone(b, r, num(ONE).negated());
    lemma_value_monotone(r - num(ONE), a - num(ONE));
    lemma_value_monotone(b - num(ONE), r - num(ONE));
    let k = root_rest().value();
    assert(k * 0x10_0000_0000_0000 <= (t - 0x10_0000_0000_0000) * (0x10_0000_0000_0000 * p))
        by (nonlinear_arith)
        requires
            k <= (4 * (t - 0x10_0000_0000_0000)) * q,
            p == 4 * q,
    ;
    assert(k * 0x10_0000_0000_0000 >= (t - 0x10_0000_0000_0001) * (0x10_0000_0000_0000 * p))
        by (nonlinear_arith)
        requires
            k >= (4 * (t - 0x10_0000_0000_0001)) * q,
            p == 4 * q,
    ;
}

proof fn lemma_regroup(e: int, q: int, d: int, k: int)
    ensures
        (e * (q * d)) * (k * e) == ((q * k) * (e * e)) * d,
{
    assert((e * (q * d)) * (k * e) == ((q * k) * (e * e)) * d) by (nonlinear_arith);
}

proof fn lemma_regroup_bound(t: int, o: int, f: int, u: int)
    ensures
        ((t * o) * f) * (u * o) == ((o * o) * f) * (t * u),
{
    assert(((t * o) * f) * (u * o) == ((o * o) * f) * (t * u)) by (nonlinear_arith);
}

/// The ratio and what the root of two has above one cancel out, but for rounding.
proof fn lemma_cancel()
    ensures
        ({
            let o = one_units();
            let e = 0x10_0000_0000_0000int;
            let x = corner_ratio().value() * root_rest().value();
            &&& x * (e * e) <= (o * o) * ((e + 1) * (e + 3))
            &&& x * (e * e) >= (o * o) * ((e - 1) * (e - 3))
        }),
{
    let o = one_units() as int;
    let e = 0x10_0000_0000_0000int;
    let t = root_digits() as int;
    let d = 2 * e - t;
    let q = corner_ratio().value();
    let k = root_rest().value();
    lemma_corner_ratio();
    lemma_root_rest();
    lemma_pow2_pos(1074);
    let x = q * k;
    let f = e + 1;
    assert((e * (q * d)) * (k * e) <= ((t * o) * f) * ((t - e) * o)) by (nonlinear_arith)
        requires
            e * (q * d) <= (t * o) * f,
            k * e <= (t - e) * o,
            0 <= e * (q * d),
            0 <= k * e,
    ;
    assert(t * (t - e) * e <= d * e * (e + 3));
    let oo = o * o;
    let top = t * (t - e);
    lemma_regroup(e, q, d, k);
    lemma_regroup_bound(t, o, f, t - e);
    assert((x * (e * e)) * d <= (oo * f) * top);
    assert((oo * f) * top <= (oo * f) * (d * (e + 3))) by (nonlinear_arith)
        requires
            top <= d * (e + 3),
            oo * f >= 0,
    ;
    assert(x * (e * e) <= oo * (f * (e + 3))) by (nonlinear_arith)
        requires
            (x * (e * e)) * d <= (oo * f) * (d * (e + 3)),
            d > 0,
    ;
    let g = e - 1;
    let d1 = d + 1;
    let t1 = t - 1;
    assert((e * (q * d1)) * (k * e) >= ((t1 * o) * g) * ((t1 - e) * o)) by (nonlinear_arith)
        requires
            e * (q * d1) >= (t1 * o) * g,
            k * e >= (t1 - e) * o,
            0 <= (t1 * o) * g,
            0 <= (t1 - e) * o,
    ;
    let low = t1 * (t1 - e);
    assert(t1 == 0x16_a09e_667f_3bcc);
    assert(d1 == 0x9_5f61_9980_c434);
    assert(0x16_a09e_667f_3bccint * 0x6_a09e_667f_3bccint >= 0x9_5f61_9980_c434int
        * 0xf_ffff_ffff_fffdint);
    assert(low >= d1 * (e - 3));
    lemma_regroup(e, q, d1, k);
    lemma_regroup_bound(t1, o, g, t1 - e);
    assert((x * (e * e)) * d1 >= (oo * g) * low);
    assert((oo * g) * low >= (oo * g) * (d1 * (e - 3))) by (nonlinear_arith)
        requires
            low >= d1 * (e - 3),
            oo * g >= 0,
    ;
    assert(x * (e * e) >= oo * (g * (e - 3))) by (nonlinear_arith)
        requires
            (x * (e * e)) * d1 >= (oo * g) * (d1 * (e - 3)),
            d1 > 0,
    ;
}


/// A number times one is that number.
pub proof fn ones_change_nothing(x: Double)
    requires
        x.finite(),
    ensures
        x * num(ONE) == x,
{
    reveal(Double::spec_mul);
    lemma_two52();
    lemma_pow2_pos(1074);
    one_is_one();
    let u = units(x.magnitude());
    rounding_depends_on_the_ratio(u, 1, one_units());
    assert(1 * one_units() == one_units());
    numbers_are_nearest_to_themselves(x.magnitude());
}

/// Without a common direction, half the angle between the legs of a corner has the sine of half
/// a right angle.
proof fn lemma_right_angle(along: Double)
    requires
        along.magnitude() == 0,
    ensures
        half_sine(along) == num(HALF).sqrt(),
{
    adding_zero_changes_nothing(num(ONE), along);
    assert(num(ONE) + along == num(ONE));
    ones_change_nothing(num(HALF));
}

/// Whether the squared corner velocity of a printer, and what follows from it for a right angle,
/// are within the range of full precision.
pub open spec fn precise_corners(l: PrinterLimits) -> bool {
    let v2 = l.square_corner_velocity * l.square_corner_velocity;
    let share = v2 * (num(TWO).sqrt() - num(ONE));
    let sine = num(HALF).sqrt();
    let arc = sine / (num(ONE) - sine) * (share / l.max_acceleration);
    &&& precise(v2)
    &&& precise(l.max_acceleration)
    &&& precise(share)
    &&& precise(share / l.max_acceleration)
    &&& precise(arc)
    &&& precise(arc * l.max_acceleration)
}

proof fn lemma_steps(v: int, k: int, a: int, j: int, acc: int, q: int, b: int, r: int, o: int)
    requires
        v > 0 && k > 0 && a > 0 && j > 0 && acc > 0 && q > 0 && b > 0 && r > 0 && o > 0,
        0x10_0000_0000_0000 * (a * o) <= (v * k) * 0x10_0000_0000_0001,
        0x10_0000_0000_0000 * (a * o) >= (v * k) * 0xf_ffff_ffff_ffff,
        0x10_0000_0000_0000 * (j * acc) <= (a * o) * 0x10_0000_0000_0001,
        0x10_0000_0000_0000 * (j * acc) >= (a * o) * 0xf_ffff_ffff_ffff,
        0x10_0000_0000_0000 * (b * o) <= (q * j) * 0x10_0000_0000_0001,
        0x10_0000_0000_0000 * (b * o) >= (q * j) * 0xf_ffff_ffff_ffff,
        0x10_0000_0000_0000 * (r * o) <= (b * acc) * 0x10_0000_0000_0001,
        0x10_0000_0000_0000 * (r * o) >= (b * acc) * 0xf_ffff_ffff_ffff,
        (q * k) * (0x10_0000_0000_0000int * 0x10_0000_0000_0000int) <= (o * o)
            * (0x10_0000_0000_0001int * 0x10_0000_0000_0003int),
        (q * k) * (0x10_0000_0000_0000int * 0x10_0000_0000_0000int) >= (o * o)
            * (0xf_ffff_ffff_ffffint * 0xf_ffff_ffff_fffdint),
    ensures
        r * 0x1_0000_0000_0000 <= v * 0x1_0000_0000_0001,
        r * 0x1_0000_0000_0000 >= v * 0xffff_ffff_ffff,
{
    let e = 0x10_0000_0000_0000int;
    let f = 0x10_0000_0000_0001int;
    let g = 0xf_ffff_ffff_ffffint;
    let x = j * acc;
    let y = a * o;
    let z = v * k;
    let w = r * (o * o);
    // the product of the last two steps
    let bo = b * o;
    let qj = q * j;
    assert(e * ((r * o) * o) <= (bo * acc) * f && e * ((r * o) * o) >= (bo * acc) * g)
        by (nonlinear_arith)
        requires
            e * (r * o) <= (b * acc) * f,
            e * (r * o) >= (b * acc) * g,
            bo == b * o,
            o > 0,
    ;
    assert((r * o) * o == w) by (nonlinear_arith)
        requires
            w == r * (o * o),
    ;
    assert(e * (bo * acc) <= (q * x) * f && e * (bo * acc) >= (q * x) * g) by (nonlinear_arith)
        requires
            e * bo <= qj * f,
            e * bo >= qj * g,
            qj == q * j,
            x == j * acc,
            acc > 0,
    ;
    assert(e * (q * x) <= (q * y) * f && e * (q * x) >= (q * y) * g) by (nonlinear_arith)
        requires
            e * x <= y * f,
            e * x >= y * g,
            q > 0,
    ;
    let s = q * k;
    assert(e * (q * y) <= (s * v) * f && e * (q * y) >= (s * v) * g) by (nonlinear_arith)
        requires
            e * y <= z * f,
            e * y >= z * g,
            z == v * k,
            s == q * k,
            q > 0,
    ;
    let oo = o * o;
    assert(oo > 0) by (nonlinear_arith)
        requires
            oo == o * o,
            o > 0,
    ;
    assert((s * v) * (e * e) <= (oo * v) * (f * (e + 3)) && (s * v) * (e * e) >= (oo * v) * (g * (e
        - 3))) by (nonlinear_arith)
        requires
            s * (e * e) <= oo * (f * (e + 3)),
            s * (e * e) >= oo * (g * (e - 3)),
            v > 0,
    ;
    let base = oo * v;
    assert(base > 0) by (nonlinear_arith)
        requires
            base == oo * v,
            oo > 0,
            v > 0,
    ;
    lemma_ladder(w, bo * acc, q * x, q * y, s * v, base);
    assert(r * 0x1_0000_0000_0000 <= v * 0x1_0000_0000_0001 && r * 0x1_0000_0000_0000 >= v
        * 0xffff_ffff_ffff) by (nonlinear_arith)
        requires
            (r * oo) * 0x1_0000_0000_0000 <= (oo * v) * 0x1_0000_0000_0001,
            (r * oo) * 0x1_0000_0000_0000 >= (oo * v) * 0xffff_ffff_ffff,
            oo > 0,
    ;
}

proof fn lemma_ladder(w: int, a: int, b: int, c: int, d: int, base: int)
    requires
        base > 0,
        0x10_0000_0000_0000 * w <= a * 0x10_0000_0000_0001,
        0x10_0000_0000_0000 * w >= a * 0xf_ffff_ffff_ffff,
        0x10_0000_0000_0000 * a <= b * 0x10_0000_0000_0001,
        0x10_0000_0000_0000 * a >= b * 0xf_ffff_ffff_ffff,
        0x10_0000_0000_0000 * b <= c * 0x10_0000_0000_0001,
        0x10_0000_0000_0000 * b >= c * 0xf_ffff_ffff_ffff,
        0x10_0000_0000_0000 * c <= d * 0x10_0000_0000_0001,
        0x10_0000_0000_0000 * c >= d * 0xf_ffff_ffff_ffff,
        d * (0x10_0000_0000_0000int * 0x10_0000_0000_0000int) <= base * (0x10_0000_0000_0001int
            * 0x10_0000_0000_0003int),
        d * (0x10_0000_0000_0000int * 0x10_0000_0000_0000int) >= base * (0xf_ffff_ffff_ffffint
            * 0xf_ffff_ffff_fffdint),
    ensures
        w * 0x1_0000_0000_0000 <= base * 0x1_0000_0000_0001,
        w * 0x1_0000_0000_0000 >= base * 0xffff_ffff_ffff,
{
}

/// A right angle may be taken at the square corner velocity of the printer, up to a part in `2^48`
/// of its square, and at no more than that.
pub proof fn right_angles_are_taken_at_the_corner_velocity(
    l: PrinterLimits,
    m: PlanningMove,
    previous: PlanningMove,
    extruder_v2: Double,
)
    requires
        m.is_kinematic_move(),
        previous.is_kinematic_move(),
        !m.max_cruise_v2.nan(),
        straightness(m, previous).magnitude() == 0,
        m.junction_deviation == l.recalculated().junction_deviation,
        m.acceleration == l.max_acceleration,
        precise_corners(l),
    ensures
        ({
            let v2 = (l.square_corner_velocity * l.square_corner_velocity).value();
            let arc = arc_v2(m, half_sine(straightness(m, previous))).value();
            let start = m.joined(previous, extruder_v2).max_start_v2;
            &&& arc * 0x1_0000_0000_0000 <= v2 * 0x1_0000_0000_0001
            &&& arc * 0x1_0000_0000_0000 >= v2 * 0xffff_ffff_ffff
            &&& start.value() * 0x1_0000_0000_0000 <= v2 * 0x1_0000_0000_0001
        }),
{
    let v2 = l.square_corner_velocity * l.square_corner_velocity;
    let k = root_rest();
    let a = v2 * k;
    let acc = m.acceleration;
    let j = a / acc;
    let q = corner_ratio();
    let b = q * j;
    let r = b * acc;
    let sine = half_sine(straightness(m, previous));
    lemma_right_angle(straightness(m, previous));
    assert(arc_v2(m, sine) == r);
    lemma_corner_ratio();
    lemma_root_rest();
    lemma_product_error(v2, k);
    lemma_quotient_error(a, acc);
    lemma_product_error(q, j);
    lemma_product_error(b, acc);
    lemma_cancel();
    lemma_pow2_pos(1074);
    lemma_some_units(v2.magnitude());
    lemma_some_units(k.magnitude());
    lemma_some_units(a.magnitude());
    lemma_some_units(j.magnitude());
    lemma_some_units(acc.magnitude());
    lemma_some_units(q.magnitude());
    lemma_some_units(b.magnitude());
    lemma_some_units(r.magnitude());
    lemma_steps(
        v2.value(),
        k.value(),
        a.value(),
        j.value(),
        acc.value(),
        q.value(),
        b.value(),
        r.value(),
        one_units() as int,
    );
    crate::corner_laws::junctions_are_as_fast_as_corners_allow(
        m,
        previous,
        extruder_v2,
        m.max_cruise_v2,
    );
    lemma_roots();
    assert(sine < num(ONE));
    let along = straightness(m, previous);
    assert(crate::corner_laws::half_cosine(along) == num(HALF).sqrt()) by {
        adding_zero_changes_nothing(num(ONE), along.negated());
        assert(num(ONE) - along == num(ONE));
        ones_change_nothing(num(HALF));
    }
    lemma_value_monotone(m.joined(previous, extruder_v2).max_start_v2, r);
}

} // verus!
