//! Times as text.

use vstd::arithmetic::div_mod::lemma_fundamental_div_mod;
use vstd::arithmetic::div_mod::lemma_fundamental_div_mod_converse;
use vstd::arithmetic::power2::lemma2_to64;
use vstd::arithmetic::power2::lemma2_to64_rest;
use vstd::arithmetic::power2::lemma_pow2_adds;
use vstd::arithmetic::power2::lemma_pow2_pos;
use vstd::arithmetic::power2::pow2;
use vstd::prelude::*;

use crate::constants::DAY;
use crate::constants::HOUR;
use crate::constants::MINUTE;
use crate::decimal::fixed;
use crate::decimal::pow10;
use crate::double::has_fraction;
use crate::double::nearest_integer;
use crate::double::num;
use crate::double::one_units;
use crate::double::units;
use crate::double::Double;
use crate::double::ZERO;
use crate::estimate::time_text;
use crate::estimate::unit_part;
use crate::motion_laws::lemma_packed_units;
use crate::motion_laws::numbers_are_nearest_to_themselves;
use crate::order_laws::lemma_some_units;
use crate::order_laws::rounding_depends_on_the_ratio;
use crate::post_process::long_time;
use crate::post_process::short_time;
use crate::post_process::whole_part;
use crate::rounding::lemma_two52;
use crate::rounding::nearest;
use crate::rounding::INFINITY_BITS;
use crate::speed_laws::lemma_units_monotone;
use crate::speed_laws::rounding_is_monotone;
use crate::text::decimal;
use crate::whole_laws::lemma_exact;
use crate::whole_laws::small_whole_numbers_are_exact;

verus! {

proof fn lemma_from(w: nat)
    requires
        w < 0x20_0000_0000_0000,
    ensures
        Double::from_u64(w as u64).finite(),
        !Double::from_u64(w as u64).negative(),
        Double::from_u64(w as u64).magnitude() == nearest_integer(w),
        units(nearest_integer(w)) == w * one_units(),
        (Double::from_u64(w as u64) > num(ZERO)) == (w > 0),
        (nearest_integer(w) == 0) == (w == 0),
        fixed(Double::from_u64(w as u64), 0) == decimal(w),
{
    reveal(Double::of_integer);
    lemma_two52();
    lemma_pow2_pos(1074);
    small_whole_numbers_are_exact(w);
    lemma_some_units(1);
    let o = one_units();
    assert((w * o > 0) == (w > 0)) by (nonlinear_arith)
        requires
            o > 0,
    ;
    if nearest_integer(w) > 0 {
        lemma_some_units(nearest_integer(w));
    }
    assert(pow10(0) == 1);
    assert(w * o * 1 == w * o);
    lemma_fundamental_div_mod_converse((w * o) as int, o as int, w as int, 0);
}

proof fn lemma_named(bits: u64, k: nat)
    requires
        bits < INFINITY_BITS,
        k < 0x20_0000_0000_0000,
        units(bits as nat) == k * one_units(),
    ensures
        num(bits) == Double::from_u64(k as u64),
{
    reveal(Double::of_integer);
    lemma_two52();
    numbers_are_nearest_to_themselves(bits as nat);
}

proof fn lemma_units_of_time()
    ensures
        num(DAY) == Double::from_u64(86400),
        num(HOUR) == Double::from_u64(3600),
        num(MINUTE) == Double::from_u64(60),
{
    lemma_two52();
    lemma2_to64();
    lemma2_to64_rest();
    lemma_packed_units(1038, 0x15_1800_0000_0000);
    lemma_packed_units(1033, 0x1c_2000_0000_0000);
    lemma_packed_units(1027, 0x1e_0000_0000_0000);
    lemma_pow2_adds(36, 1038);
    lemma_pow2_adds(41, 1033);
    lemma_pow2_adds(47, 1027);
    let a = pow2(1038);
    let b = pow2(1033);
    let c = pow2(1027);
    assert(0x15_1800_0000_0000 * a == 86400 * (0x10_0000_0000 * a)) by (nonlinear_arith);
    assert(0x1c_2000_0000_0000 * b == 3600 * (0x200_0000_0000 * b)) by (nonlinear_arith);
    assert(0x1e_0000_0000_0000 * c == 60 * (0x8000_0000_0000 * c)) by (nonlinear_arith);
    lemma_named(DAY, 86400);
    lemma_named(HOUR, 3600);
    lemma_named(MINUTE, 60);
}

proof fn lemma_quotient_bounds(w: nat, unit: nat)
    requires
        w < 0x1_0000_0000,
        0 < unit <= 0x2_0000,
    ensures
        ({
            let u = units(nearest(w * one_units(), unit));
            (w / unit) * one_units() <= u && u < (w / unit + 1) * one_units()
        }),
        nearest(w * one_units(), unit) < INFINITY_BITS,
{
    let o = one_units();
    let q = w / unit;
    let n = nearest(w * o, unit);
    lemma_pow2_pos(1074);
    lemma_fundamental_div_mod(w as int, unit as int);
    assert(q * unit <= w && w + 1 <= (q + 1) * unit) by (nonlinear_arith)
        requires
            w == unit * q + w % unit,
            0 <= w % unit < unit,
    ;
    assert(q <= w) by (nonlinear_arith)
        requires
            q * unit <= w,
            unit > 0,
    ;
    small_whole_numbers_are_exact(q);
    rounding_depends_on_the_ratio(q * o, 1, unit);
    assert(1 * unit == unit);
    assert((q * o) * unit <= w * o) by (nonlinear_arith)
        requires
            q * unit <= w,
            o > 0,
    ;
    rounding_is_monotone((q * o) * unit, w * o, unit);
    lemma_units_monotone(nearest_integer(q), n);
    let m = ((q + 1) * 0x2_0000 - 1) as nat;
    let g = pow2(1057);
    lemma_pow2_pos(1057);
    lemma_pow2_adds(17, 1057);
    lemma2_to64();
    assert(o == 0x2_0000 * g);
    lemma_exact(m, 1057);
    rounding_depends_on_the_ratio(m * g, 1, unit);
    assert(w * 0x2_0000 <= m * unit) by (nonlinear_arith)
        requires
            m == (q + 1) * 0x2_0000 - 1,
            w + 1 <= (q + 1) * unit,
            unit <= 0x2_0000,
    ;
    assert(w * o <= (m * g) * unit) by (nonlinear_arith)
        requires
            w * 0x2_0000 <= m * unit,
            o == 0x2_0000 * g,
            g > 0,
    ;
    rounding_is_monotone(w * o, (m * g) * unit, unit);
    lemma_units_monotone(n, nearest(m * g, 1));
    assert(m * g < (q + 1) * o) by (nonlinear_arith)
        requires
            m == (q + 1) * 0x2_0000 - 1,
            o == 0x2_0000 * g,
            g > 0,
    ;
}

/// Dividing whole seconds by a unit of time leaves whole units and whole seconds.
proof fn lemma_split(w: nat, unit: nat)
    requires
        w < 0x1_0000_0000,
        0 < unit <= 0x2_0000,
    ensures
        (Double::from_u64(w as u64) / Double::from_u64(unit as u64)).floor() == Double::from_u64(
            (w / unit) as u64,
        ),
        Double::from_u64(w as u64).rem(Double::from_u64(unit as u64)) == Double::from_u64(
            (w % unit) as u64,
        ),
        w / unit <= w,
        (Double::from_u64(w as u64) > Double::from_u64(unit as u64)) == (w > unit),
{
    let o = one_units();
    lemma_two52();
    lemma_pow2_pos(1074);
    lemma_from(w);
    lemma_from(unit);
    lemma_fundamental_div_mod(w as int, unit as int);
    let q = w / unit;
    let r = w % unit;
    assert(q <= w) by (nonlinear_arith)
        requires
            w == unit * q + r,
            unit > 0,
    ;
    lemma_from(q);
    lemma_from(r);
    let a = Double::from_u64(w as u64);
    let b = Double::from_u64(unit as u64);
    reveal(Double::over);
    reveal(Double::rounded_down);
    reveal(Double::remainder);
    reveal(Double::of_integer);
    rounding_depends_on_the_ratio(w * o, unit, o);
    lemma_quotient_bounds(w, unit);
    let n = nearest(w * o, unit);
    let u = units(n);
    let rest = (u - q * o) as int;
    assert(u == q * o + rest && (q + 1) * o == q * o + o) by (nonlinear_arith)
        requires
            rest == u - q * o,
    ;
    lemma_fundamental_div_mod_converse(u as int, o as int, q as int, rest);
    assert(crate::double::whole_part(n) == q);
    assert(unit * o > 0 && r * o < unit * o && w * o == (unit * o) * q + r * o && w * o == q * (unit
        * o) + r * o) by (nonlinear_arith)
        requires
            w == unit * q + r,
            r < unit,
            unit > 0,
            o > 0,
    ;
    lemma_fundamental_div_mod_converse((w * o) as int, (unit * o) as int, q as int, (r * o) as int);
    if w > unit {
        assert(unit * o < w * o) by (nonlinear_arith)
            requires
                unit < w,
                o > 0,
        ;
        rounding_is_monotone(unit * o, w * o, 1);
    } else {
        assert(w * o <= unit * o) by (nonlinear_arith)
            requires
                w <= unit,
        ;
        rounding_is_monotone(w * o, unit * o, 1);
    }
}

/// A number of units with their mark, where there is any.
pub open spec fn counted(n: nat, mark: Seq<char>) -> Seq<char> {
    if n > 0 {
        " "@ + decimal(n) + mark
    } else {
        Seq::empty()
    }
}

/// Whether `w` is the number of seconds rounded up.
pub open spec fn rounds_up_to(t: Double, w: nat) -> bool {
    &&& t.finite() && !t.negative()
    &&& units(t.magnitude()) <= w * one_units()
    &&& w > 0 ==> units(t.magnitude()) > (w - 1) * one_units()
}

proof fn lemma_up(t: Double, w: nat)
    requires
        rounds_up_to(t, w),
        w < 0x1_0000_0000,
    ensures
        t.ceil() == Double::from_u64(w as u64),
{
    reveal(Double::rounded_up);
    reveal(Double::of_integer);
    lemma_pow2_pos(1074);
    let o = one_units();
    let u = units(t.magnitude());
    if w == 0 {
        assert(w * o == 0) by (nonlinear_arith)
            requires
                w == 0,
        ;
        lemma_fundamental_div_mod_converse(u as int, o as int, 0, 0);
    } else if u == w * o {
        lemma_fundamental_div_mod_converse(u as int, o as int, w as int, 0);
    } else {
        let v = (w - 1) as nat;
        let rest = (u - v * o) as int;
        assert(w * o == v * o + o) by (nonlinear_arith)
            requires
                w == v + 1,
        ;
        lemma_fundamental_div_mod_converse(u as int, o as int, v as int, rest);
        assert(has_fraction(t.magnitude()));
    }
}

proof fn lemma_part(w: nat, bits: u64, unit: nat, mark: Seq<char>)
    requires
        w < 0x1_0000_0000,
        0 < unit <= 0x2_0000,
        num(bits) == Double::from_u64(unit as u64),
    ensures
        whole_part(Double::from_u64(w as u64), bits, mark) == (
            counted(w / unit, mark),
            Double::from_u64((w % unit) as u64),
        ),
        unit_part(Double::from_u64(w as u64), bits, mark) == if w > unit {
            (decimal(w / unit) + mark, Double::from_u64((w % unit) as u64))
        } else {
            (Seq::empty(), Double::from_u64(w as u64))
        },
{
    lemma_split(w, unit);
    lemma_from(w / unit);
}

proof fn lemma_clock(w: nat)
    ensures
        w % 86400 % 3600 == w % 3600,
        w % 3600 % 60 == w % 60,
        w == w / 86400 * 86400 + w % 86400 / 3600 * 3600 + w % 3600 / 60 * 60 + w % 60,
        w == w / 3600 * 3600 + w % 3600 / 60 * 60 + w % 60,
        w % 86400 / 3600 < 24,
        w % 3600 / 60 < 60,
        w % 60 < 60,
{
}

/// The short notation of a time tells its seconds, rounded up, in days, hours, minutes and
/// seconds, and leaves out the days, hours and minutes of which there are none.
#[verifier::rlimit(40)]
pub proof fn short_times_tell_days_hours_minutes_and_seconds(t: Double, w: nat)
    requires
        rounds_up_to(t, w),
        w < 0x1_0000_0000,
    ensures
        ({
            let d = w / 86400;
            let h = w % 86400 / 3600;
            let m = w % 3600 / 60;
            let s = w % 60;
            &&& w == d * 86400 + h * 3600 + m * 60 + s
            &&& h < 24 && m < 60 && s < 60
            &&& short_time(t) == counted(d, "d"@) + counted(h, "h"@) + counted(m, "m"@) + " "@
                + decimal(s) + "s"@
        }),
{
    lemma_up(t, w);
    lemma_units_of_time();
    let a = w % 86400;
    let b = a % 3600;
    lemma_part(w, DAY, 86400, "d"@);
    lemma_part(a, HOUR, 3600, "h"@);
    lemma_part(b, MINUTE, 60, "m"@);
    lemma_from(b % 60);
    lemma_clock(w);
}

/// The long notation of a time tells its seconds, rounded up, in hours, minutes and seconds.
#[verifier::rlimit(40)]
pub proof fn long_times_tell_hours_minutes_and_seconds(t: Double, w: nat)
    requires
        rounds_up_to(t, w),
        w < 0x1_0000_0000,
    ensures
        ({
            let h = w / 3600;
            let m = w % 3600 / 60;
            let s = w % 60;
            &&& w == h * 3600 + m * 60 + s
            &&& m < 60 && s < 60
            &&& long_time(t) == counted(h, " hours"@) + counted(m, " minutes"@) + " "@ + decimal(s)
                + " sec"@
        }),
{
    lemma_up(t, w);
    lemma_units_of_time();
    let a = w % 3600;
    lemma_part(w, HOUR, 3600, " hours"@);
    lemma_part(a, MINUTE, 60, " minutes"@);
    lemma_from(a % 60);
    lemma_clock(w);
}

/// What a time in whole units is told as, where it is more than one unit, and the seconds that
/// are left to tell.
pub open spec fn told(w: nat, unit: nat, mark: Seq<char>) -> (Seq<char>, nat) {
    if w > unit {
        (decimal(w / unit) + mark, w % unit)
    } else {
        (Seq::empty(), w)
    }
}

/// Whole seconds are told in days, then hours, then minutes, each where there is more than one
/// of it, and what is left in seconds.
pub proof fn times_are_told_from_the_largest_unit_on(w: nat)
    requires
        w < 0x1_0000_0000,
    ensures
        ({
            let (d, a) = told(w, 86400, "d"@);
            let (h, b) = told(a, 3600, "h"@);
            let (m, c) = told(b, 60, "m"@);
            &&& c <= 60
            &&& w > 0 && c > 0 ==> time_text(Double::from_u64(w as u64)) == d + h + m + (fixed(
                Double::from_u64(c as u64),
                3,
            ) + "s"@)
            &&& w == 0 ==> time_text(Double::from_u64(w as u64)) == "0s"@
            &&& w > 0 && c == 0 ==> time_text(Double::from_u64(w as u64)) == d + h + m
        }),
{
    lemma_units_of_time();
    let (d, a) = told(w, 86400, "d"@);
    let (h, b) = told(a, 3600, "h"@);
    let (m, c) = told(b, 60, "m"@);
    lemma_part(w, DAY, 86400, "d"@);
    lemma_part(a, HOUR, 3600, "h"@);
    lemma_part(b, MINUTE, 60, "m"@);
    lemma_from(c);
    reveal_strlit("s");
    reveal_strlit("m");
    reveal_strlit("h");
    reveal_strlit("d");
    let s = fixed(Double::from_u64(c as u64), 3) + "s"@;
    assert(s.len() > 0);
    if c == 0 {
        assert(d + h + m + Seq::<char>::empty() == d + h + m);
        if w > 0 {
            assert((d + h + m).len() > 0);
        }
    }
}

} // verus!
