//! How fast corners are taken.

use vstd::prelude::*;

use crate::constants::HALF;
use crate::constants::QUARTER;
use crate::double::num;
use crate::double::Double;
use crate::double::ONE;
use crate::double::ZERO;
use crate::motion_laws::numbers_are_nearest_to_themselves;
use crate::motion_laws::products_commute;
use crate::motion_laws::sums_commute;
use crate::order_laws::differences_are_monotone;
use crate::order_laws::lemma_some_units;
use crate::order_laws::lemma_value_monotone;
use crate::order_laws::one_is_one;
use crate::order_laws::products_are_monotone;
use crate::order_laws::quotients_are_monotone;
use crate::order_laws::quotients_fall_with_the_divisor;
use crate::order_laws::sums_are_monotone;
use crate::planning_move::PlanningMove;
use crate::rounding::lemma_two52;
use crate::speed_laws::not_negative;
use crate::speed_laws::rounding_is_monotone;
use crate::speed_laws::roots_are_monotone;

verus! {

/// Whether a number is no larger than a bound; a bound that is no number does not bind.
pub open spec fn within(x: Double, bound: Double) -> bool {
    !bound.nan() ==> x <= bound
}

/// The cosine of the angle by which the direction changes from one move to the next: one where
/// it does not, minus one where it is reversed.
pub open spec fn straightness(m: PlanningMove, previous: PlanningMove) -> Double {
    m.rate.x * previous.rate.x + m.rate.y * previous.rate.y + m.rate.z * previous.rate.z
}

/// The sine of half the angle between the two legs of a corner.
pub open spec fn half_sine(straightness: Double) -> Double {
    (num(HALF) * (num(ONE) + straightness)).max(num(ZERO)).sqrt()
}

/// The cosine of half the angle between the two legs of a corner.
pub open spec fn half_cosine(straightness: Double) -> Double {
    (num(HALF) * (num(ONE) - straightness)).max(num(ZERO)).sqrt()
}

/// The squared speed at which a move rounds a corner on the arc that stays as close to it as the
/// junction deviation says.
pub open spec fn arc_v2(m: PlanningMove, sine: Double) -> Double {
    sine / (num(ONE) - sine) * m.junction_deviation * m.acceleration
}

/// The squared speed at which a move rounds a corner on the arc that begins in its middle.
pub open spec fn middle_v2(m: PlanningMove, sine: Double, cosine: Double) -> Double {
    m.delta_v2 * (num(QUARTER) * sine / cosine)
}

/// Whether a squared speed keeps to all limits of the junction of two moves.
pub open spec fn fits_junction(
    x: Double,
    m: PlanningMove,
    previous: PlanningMove,
    extruder_v2: Double,
) -> bool {
    let sine = half_sine(straightness(m, previous));
    let cosine = half_cosine(straightness(m, previous));
    &&& within(x, extruder_v2)
    &&& within(x, m.max_cruise_v2)
    &&& within(x, previous.max_cruise_v2)
    &&& within(x, previous.next_junction_v2)
    &&& within(x, previous.max_start_v2 + previous.delta_v2)
    &&& sine < num(ONE) && cosine > num(ZERO) ==> {
        &&& within(x, arc_v2(m, sine))
        &&& within(x, arc_v2(previous, sine))
        &&& within(x, middle_v2(m, sine, cosine))
        &&& within(x, middle_v2(previous, sine, cosine))
    }
}

/// A number that is below another leaves something of it.
pub proof fn lemma_rest(a: Double, b: Double)
    requires
        a.finite(),
        b.finite(),
    ensures
        a < b <==> b - a > num(ZERO),
{
    reveal(Double::spec_add);
    lemma_two52();
    lemma_some_units(1);
    let v = b.value() - a.value();
    rounding_is_monotone(
        crate::double::magnitude_of(v),
        crate::double::magnitude_of(v),
        1,
    );
    if a < b {
        lemma_value_monotone(a, b);
        if v == 0 {
            numbers_are_nearest_to_themselves(a.magnitude());
            numbers_are_nearest_to_themselves(b.magnitude());
            if a.negative() != b.negative() {
                if a.magnitude() > 0 {
                    lemma_some_units(a.magnitude());
                }
                if b.magnitude() > 0 {
                    lemma_some_units(b.magnitude());
                }
            }
            assert(false);
        }
        numbers_are_nearest_to_themselves(1);
        assert(crate::double::units(1) == 1) by {
            assert(crate::double::significand(1) == 1);
            assert(1 * vstd::arithmetic::power2::pow2(0) == 1);
        }
        rounding_is_monotone(1, v as nat, 1);
    } else {
        lemma_value_monotone(b, a);
    }
}

/// Neither is below zero.
proof fn lemma_half_sine(along: Double)
    ensures
        not_negative(half_sine(along)),
        not_negative(half_cosine(along)),
{
    let a = (num(HALF) * (num(ONE) + along)).max(num(ZERO));
    let b = (num(HALF) * (num(ONE) - along)).max(num(ZERO));
    roots_are_monotone(a, a);
    roots_are_monotone(b, b);
}

/// The allowed start speed of a move that follows another keeps to all limits of the junction,
/// among them those of the corner, and no squared speed that keeps to them all is larger. Nothing
/// else about the move changes but what is left of that speed for short cruises.
pub proof fn junctions_are_as_fast_as_corners_allow(
    m: PlanningMove,
    previous: PlanningMove,
    extruder_v2: Double,
    x: Double,
)
    requires
        m.is_kinematic_move(),
        previous.is_kinematic_move(),
        !x.nan(),
        !m.max_cruise_v2.nan(),
    ensures
        ({
            let r = m.joined(previous, extruder_v2);
            &&& fits_junction(r.max_start_v2, m, previous, extruder_v2)
            &&& fits_junction(x, m, previous, extruder_v2) ==> x <= r.max_start_v2
            &&& r.max_mcr_start_v2 <= r.max_start_v2
            &&& within(r.max_mcr_start_v2, previous.max_mcr_start_v2 + previous.mcr_delta_v2)
            &&& x <= r.max_start_v2 && within(
                x,
                previous.max_mcr_start_v2 + previous.mcr_delta_v2,
            ) ==> x <= r.max_mcr_start_v2
            &&& r == PlanningMove {
                max_start_v2: r.max_start_v2,
                max_mcr_start_v2: r.max_mcr_start_v2,
                ..m
            }
        }),
{
    let along = straightness(m, previous);
    let sine = half_sine(along);
    assert(along.negated().negated() == along);
    lemma_half_sine(along);
    let rest = num(ONE) - sine;
    if sine.finite() {
        lemma_rest(sine, num(ONE));
    } else {
        assert(sine.infinite());
        reveal(Double::spec_add);
    }
    assert(sine < num(ONE) <==> rest > num(ZERO));
}


/// A product that is a number stays one, and grows no larger, with a smaller factor.
pub proof fn lemma_scaled(a: Double, b: Double, c: Double)
    requires
        not_negative(a),
        a <= b,
        not_negative(c),
        c.finite(),
        !(b * c).nan(),
    ensures
        not_negative(a * c),
        a * c <= b * c,
{
    assert(!(a * c).nan()) by {
        reveal(Double::spec_mul);
        lemma_two52();
        let n = crate::double::units(a.magnitude()) * crate::double::units(c.magnitude());
        vstd::arithmetic::power2::lemma_pow2_pos(1074);
        rounding_is_monotone(n, n, crate::double::one_units());
    }
    products_are_monotone(a, b, c);
}

/// Halves, as far as they are above zero, keep the order of numbers.
proof fn lemma_halves(a: Double, b: Double)
    requires
        a <= b,
    ensures
        (num(HALF) * a).max(num(ZERO)) <= (num(HALF) * b).max(num(ZERO)),
{
    products_commute(num(HALF), a);
    products_commute(num(HALF), b);
    reveal(Double::spec_mul);
    lemma_two52();
    vstd::arithmetic::power2::lemma_pow2_pos(1074);
    let h = crate::double::units(num(HALF).magnitude());
    let n = crate::double::units(a.magnitude()) * h;
    let k = crate::double::units(b.magnitude()) * h;
    rounding_is_monotone(n, n, crate::double::one_units());
    rounding_is_monotone(k, k, crate::double::one_units());
    if not_negative(a) {
        products_are_monotone(a, b, num(HALF));
    }
}

/// Straighter corners have a larger sine and a smaller cosine of half their angle.
proof fn lemma_straighter(a: Double, b: Double)
    requires
        a <= b,
    ensures
        half_sine(a) <= half_sine(b),
        half_cosine(b) <= half_cosine(a),
        not_negative(half_sine(a)),
        not_negative(half_cosine(b)),
{
    reveal(Double::spec_add);
    sums_commute(num(ONE), a);
    sums_commute(num(ONE), b);
    assert(!(num(ONE) + a).nan() && !(num(ONE) + b).nan());
    assert(!(num(ONE) - a).nan() && !(num(ONE) - b).nan());
    sums_are_monotone(a, b, num(ONE));
    differences_are_monotone(a, b, num(ONE));
    lemma_halves(num(ONE) + a, num(ONE) + b);
    lemma_halves(num(ONE) - b, num(ONE) - a);
    roots_are_monotone(
        (num(HALF) * (num(ONE) + a)).max(num(ZERO)),
        (num(HALF) * (num(ONE) + b)).max(num(ZERO)),
    );
    roots_are_monotone(
        (num(HALF) * (num(ONE) - b)).max(num(ZERO)),
        (num(HALF) * (num(ONE) - a)).max(num(ZERO)),
    );
}

/// A quotient of a finite number and a positive one is a number.
pub proof fn lemma_quotient(a: Double, b: Double)
    requires
        not_negative(a),
        a.finite(),
        b > num(ZERO),
    ensures
        not_negative(a / b),
{
    assert(!(a / b).nan()) by {
        reveal(Double::over);
        lemma_two52();
        lemma_some_units(b.magnitude());
        let n = crate::double::units(a.magnitude()) * crate::double::one_units();
        rounding_is_monotone(n, n, crate::double::units(b.magnitude()));
    }
    quotients_are_monotone(a, a, b);
}

/// The limits of a move and its two ways round a corner.
proof fn lemma_corner(m: PlanningMove, s: Double, t: Double, c: Double, d: Double)
    requires
        not_negative(m.junction_deviation) && m.junction_deviation.finite(),
        not_negative(m.acceleration) && m.acceleration.finite(),
        not_negative(m.delta_v2) && m.delta_v2.finite(),
        not_negative(s),
        s <= t,
        t < num(ONE),
        num(ZERO) < d,
        d <= c,
    ensures
        !arc_v2(m, t).nan() ==> arc_v2(m, s) <= arc_v2(m, t),
        !middle_v2(m, t, d).nan() ==> middle_v2(m, s, c) <= middle_v2(m, t, d),
{
    lemma_rest(s, num(ONE));
    lemma_rest(t, num(ONE));
    differences_are_monotone(s, t, num(ONE));
    let p = num(ONE) - s;
    let q = num(ONE) - t;
    lemma_quotient(s, p);
    lemma_quotient(t, p);
    lemma_quotient(t, q);
    quotients_are_monotone(s, t, p);
    quotients_fall_with_the_divisor(q, p, t);
    let r = t / q;
    if !arc_v2(m, t).nan() {
        assert(!(r * m.junction_deviation).nan()) by {
            reveal(Double::spec_mul);
        }
        lemma_scaled(s / p, r, m.junction_deviation);
        lemma_scaled(s / p * m.junction_deviation, r * m.junction_deviation, m.acceleration);
    }
    products_commute(num(QUARTER), s);
    products_commute(num(QUARTER), t);
    let quarter = num(QUARTER);
    assert(!(t * quarter).nan() && (t * quarter).finite()) by {
        reveal(Double::spec_mul);
        lemma_two52();
        one_is_one();
        let x = crate::double::units(t.magnitude());
        let y = crate::double::units(quarter.magnitude());
        let one = crate::double::one_units();
        crate::speed_laws::lemma_units_monotone(t.magnitude(), num(ONE).magnitude());
        vstd::arithmetic::power2::lemma_pow2_pos(1074);
        assert(x * y <= y * one) by (nonlinear_arith)
            requires
                x <= one,
        ;
        rounding_is_monotone(x * y, y * one, one);
        crate::order_laws::rounding_depends_on_the_ratio(y, 1, one);
        assert(1 * one == one);
        numbers_are_nearest_to_themselves(quarter.magnitude());
    }
    lemma_scaled(s, t, quarter);
    lemma_quotient(s * quarter, c);
    lemma_quotient(t * quarter, c);
    lemma_quotient(t * quarter, d);
    quotients_are_monotone(s * quarter, t * quarter, c);
    quotients_fall_with_the_divisor(d, c, t * quarter);
    let a = quarter * s / c;
    let b = quarter * t / d;
    products_commute(m.delta_v2, a);
    products_commute(m.delta_v2, b);
    if !(m.delta_v2 * b).nan() {
        lemma_scaled(a, b, m.delta_v2);
    }
}

/// Of two corners between moves that are otherwise alike, the straighter one is taken no slower.
pub proof fn straighter_corners_are_no_slower(
    m: PlanningMove,
    previous: PlanningMove,
    n: PlanningMove,
    before: PlanningMove,
    extruder_v2: Double,
)
    requires
        m.is_kinematic_move(),
        previous.is_kinematic_move(),
        n == (PlanningMove { rate: n.rate, ..m }),
        before == (PlanningMove { rate: before.rate, ..previous }),
        straightness(m, previous) <= straightness(n, before),
        !m.max_cruise_v2.nan(),
        not_negative(m.junction_deviation) && m.junction_deviation.finite(),
        not_negative(m.acceleration) && m.acceleration.finite(),
        not_negative(m.delta_v2) && m.delta_v2.finite(),
        not_negative(previous.junction_deviation) && previous.junction_deviation.finite(),
        not_negative(previous.acceleration) && previous.acceleration.finite(),
        not_negative(previous.delta_v2) && previous.delta_v2.finite(),
    ensures
        m.joined(previous, extruder_v2).max_start_v2 <= n.joined(before, extruder_v2).max_start_v2,
{
    let x = m.joined(previous, extruder_v2).max_start_v2;
    let a = straightness(m, previous);
    let b = straightness(n, before);
    lemma_straighter(a, b);
    junctions_are_as_fast_as_corners_allow(m, previous, extruder_v2, m.max_cruise_v2);
    if half_sine(b) < num(ONE) && half_cosine(b) > num(ZERO) {
        lemma_corner(m, half_sine(a), half_sine(b), half_cosine(a), half_cosine(b));
        lemma_corner(previous, half_sine(a), half_sine(b), half_cosine(a), half_cosine(b));
    }
    assert(fits_junction(x, n, before, extruder_v2));
    junctions_are_as_fast_as_corners_allow(n, before, extruder_v2, x);
}

} // verus!
