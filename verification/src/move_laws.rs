//! What moves are made of, and how long they take.

use vstd::arithmetic::power2::lemma_pow2_pos;
use vstd::prelude::*;

use crate::constants::EXTRUDE_ONLY_ACCEL;
use crate::constants::FIFTY;
use crate::constants::HALF;
use crate::constants::TWO;
use crate::corner_laws::lemma_quotient;
use crate::corner_laws::lemma_scaled;
use crate::double::num;
use crate::double::one_units;
use crate::double::units;
use crate::double::Double;
use crate::double::ONE;
use crate::double::ZERO;
use crate::gcode::named_number;
use crate::geometry::Vec4;
use crate::limit_laws::smaller_of;
use crate::limits::PrinterLimits;
use crate::motion_laws::adding_zero_changes_nothing;
use crate::motion_laws::multiples_of_zero_are_zero;
use crate::motion_laws::products_commute;
use crate::motion_laws::sums_commute;
use crate::order_laws::differences_are_monotone;
use crate::order_laws::lemma_some_units;
use crate::planner::changed_limits;
use crate::planning_move::MotionSettings;
use crate::planning_move::PlanningMove;
use crate::right_angle_laws::lemma_product_error;
use crate::right_angle_laws::lemma_quotient_error;
use crate::right_angle_laws::ones_change_nothing;
use crate::right_angle_laws::precise;
use crate::rounding::lemma_nearest_zero;
use crate::rounding::lemma_two52;
use crate::speed_laws::distances_are_symmetric;
use crate::speed_laws::not_negative;
use crate::speed_laws::rounding_is_monotone;

verus! {

/// Whether a move begins and ends at two points, rests until it is planned, and takes the rest of
/// what it is from the settings of the toolhead.
pub open spec fn begins_with(m: PlanningMove, start: Vec4, end: Vec4, s: MotionSettings) -> bool {
    &&& m.start == start && m.end == end
    &&& m.junction_deviation == s.junction_deviation
    &&& m.extruder_index == s.extruder_index
    &&& m.extruder_violation is None && m.kind is None
    &&& m.max_start_v2 == num(ZERO) && m.max_mcr_start_v2 == num(ZERO)
    &&& m.start_v == num(ZERO) && m.cruise_v == num(ZERO) && m.end_v == num(ZERO)
    &&& m.delta_v2 == num(TWO) * m.distance * m.acceleration
    &&& m.mcr_delta_v2 == num(TWO) * m.distance * s.mcr_pseudo_accel
    &&& m.max_cruise_v2 == m.requested_velocity * m.requested_velocity
}

/// A move that travels is as long as the straight line between its ends, goes at the requested
/// velocity up to that of the printer, speeds up as the printer does, and changes each coordinate
/// by its share of the way.
pub proof fn travelling_moves_are_straight_lines(start: Vec4, end: Vec4, s: MotionSettings)
    requires
        !(start.x.equals(end.x) && start.y.equals(end.y) && start.z.equals(end.z)),
        !s.velocity.nan(),
    ensures
        ({
            let m = PlanningMove::new(start, end, s);
            let x = end.x - start.x;
            let y = end.y - start.y;
            let z = end.z - start.z;
            &&& begins_with(m, start, end, s)
            &&& m.distance == (x * x + y * y + z * z).sqrt()
            &&& m.rate.x == x / m.distance
            &&& m.rate.y == y / m.distance
            &&& m.rate.z == z / m.distance
            &&& m.rate.w == (end.w - start.w) / m.distance
            &&& smaller_of(m.requested_velocity, s.velocity, s.max_velocity)
            &&& m.acceleration == s.max_acceleration
        }),
{
    lemma_opposite_squares(start.x, end.x);
    lemma_opposite_squares(start.y, end.y);
    lemma_opposite_squares(start.z, end.z);
}

/// Opposite differences have equal squares.
proof fn lemma_opposite_squares(a: Double, b: Double)
    ensures
        (a - b) * (a - b) == (b - a) * (b - a),
{
    distances_are_symmetric(a, b);
    reveal(Double::spec_mul);
    reveal(Double::spec_add);
    lemma_two52();
    let x = a - b;
    let y = b - a;
    assert(x.magnitude() == y.magnitude()) by {
        assert(x.abs().magnitude() == x.magnitude());
        assert(y.abs().magnitude() == y.magnitude());
    }
}

/// A move without travel is as long as its filament, whose direction it has, and speeds up almost
/// at once.
pub proof fn moves_of_filament_alone(start: Vec4, end: Vec4, s: MotionSettings)
    requires
        start.x.equals(end.x),
        start.y.equals(end.y),
        start.z.equals(end.z),
    ensures
        ({
            let m = PlanningMove::new(start, end, s);
            let w = end.w - start.w;
            &&& begins_with(m, start, end, s)
            &&& m.distance == w.abs()
            &&& m.requested_velocity == s.velocity
            &&& m.acceleration == num(EXTRUDE_ONLY_ACCEL)
            &&& w.abs() > num(ZERO) ==> m.rate.w == w * (num(ONE) / w.abs())
            &&& w.magnitude() == 0 ==> m.rate.w.magnitude() == 0
        }),
{
    distances_are_symmetric(start.w, end.w);
    let w = end.w - start.w;
    if w.magnitude() == 0 {
        multiples_of_zero_are_zero(num(ZERO), w);
    }
}

/// The way there is as long as the way back.
pub proof fn ways_back_are_as_long(start: Vec4, end: Vec4, s: MotionSettings)
    ensures
        PlanningMove::new(start, end, s).distance == PlanningMove::new(end, start, s).distance,
{
    lemma_opposite_squares(start.x, end.x);
    lemma_opposite_squares(start.y, end.y);
    lemma_opposite_squares(start.z, end.z);
    distances_are_symmetric(start.w, end.w);
}

/// A move that keeps one speed takes its distance over its speed.
pub proof fn steady_moves_take_distance_over_speed(m: PlanningMove)
    requires
        m.start_v == m.cruise_v,
        m.end_v == m.cruise_v,
        m.cruise_v > num(ZERO),
        m.cruise_v.finite(),
        (m.cruise_v * m.cruise_v).finite(),
        m.acceleration > num(ZERO),
        m.distance > num(ZERO),
        m.distance.finite(),
    ensures
        m.total_time().equals(m.distance / m.cruise_v),
{
    let v = m.cruise_v;
    let sq = v * v;
    let zero = sq - sq;
    lemma_two52();
    assert(zero.magnitude() == 0) by {
        reveal(Double::spec_add);
    }
    multiples_of_zero_are_zero(num(HALF), zero);
    let half = zero * num(HALF);
    lemma_zero_over(half, m.acceleration);
    let way = half / m.acceleration;
    let mean = (v + v) * num(HALF);
    assert(mean > num(ZERO)) by {
        lemma_mean(v);
    }
    lemma_zero_over(way, mean);
    let a = m.accel_time();
    let b = m.decel_time();
    assert(a.magnitude() == 0 && b.magnitude() == 0);
    let d = m.distance;
    adding_zero_changes_nothing(d, way.negated());
    assert(d - way == d);
    assert(m.cruise_distance() == d);
    lemma_quotient(d, v);
    let t = d / v;
    sums_commute(a, t);
    adding_zero_changes_nothing(t, a);
    let sum = a + t;
    assert(sum.equals(t));
    adding_zero_changes_nothing(sum, b);
}

proof fn lemma_zero_over(a: Double, b: Double)
    requires
        a.magnitude() == 0,
        b > num(ZERO),
    ensures
        (a / b).magnitude() == 0,
{
    reveal(Double::over);
    lemma_two52();
    lemma_some_units(b.magnitude());
    lemma_nearest_zero(units(b.magnitude()));
    assert(units(0) * one_units() == 0) by (nonlinear_arith)
        requires
            units(0) == 0,
    ;
}

/// The mean of a positive speed and itself is positive.
proof fn lemma_mean(v: Double)
    requires
        v > num(ZERO),
        v.finite(),
    ensures
        (v + v) * num(HALF) > num(ZERO),
{
    reveal(Double::spec_add);
    lemma_two52();
    lemma_pow2_pos(1074);
    lemma_some_units(v.magnitude());
    let u = units(v.magnitude());
    let sum = v + v;
    rounding_is_monotone(2, 2 * u, 1);
    assert(crate::rounding::nearest(2, 1) == 2) by {
        crate::motion_laws::numbers_are_nearest_to_themselves(2);
        assert(units(2) == 2) by {
            assert(crate::double::significand(2) == 2);
            assert(2 * vstd::arithmetic::power2::pow2(0) == 2);
        }
    }
    assert(sum.magnitude() >= 2 && !sum.negative() && !sum.nan());
    reveal(Double::spec_mul);
    if sum.finite() {
        crate::speed_laws::lemma_units_monotone(2, sum.magnitude());
        assert(units(2) == 2) by {
            assert(crate::double::significand(2) == 2);
            assert(2 * vstd::arithmetic::power2::pow2(0) == 2);
        }
        lemma_half_units();
        let h = units(num(HALF).magnitude());
        let s = units(sum.magnitude());
        assert(s * h >= one_units()) by (nonlinear_arith)
            requires
                s >= 2,
                2 * h == one_units(),
        ;
        rounding_is_monotone(one_units(), s * h, one_units());
        crate::order_laws::rounding_depends_on_the_ratio(1, 1, one_units());
        assert(1 * one_units() == one_units());
        crate::motion_laws::numbers_are_nearest_to_themselves(1);
        assert(units(1) == 1) by {
            assert(crate::double::significand(1) == 1);
            assert(1 * vstd::arithmetic::power2::pow2(0) == 1);
        }
    }
}

proof fn lemma_half_units()
    ensures
        2 * units(num(HALF).magnitude()) == one_units(),
{
    lemma_two52();
    crate::motion_laws::lemma_packed_units(1021, 0x10_0000_0000_0000);
    vstd::arithmetic::power2::lemma_pow2_adds(52, 1021);
    vstd::arithmetic::power2::lemma_pow2_adds(1, 1073);
}

/// Driven backwards, a move slows down as it sped up.
pub proof fn moves_are_symmetric_in_time(m: PlanningMove)
    ensures
        ({
            let back = PlanningMove { start_v: m.end_v, end_v: m.start_v, ..m };
            &&& back.accel_distance() == m.decel_distance()
            &&& back.decel_distance() == m.accel_distance()
            &&& back.accel_time() == m.decel_time()
            &&& back.decel_time() == m.accel_time()
        }),
{
}

/// A move takes the times of its three parts together. The part between speeding up and slowing
/// down is what they leave of the way, at the cruise speed.
pub proof fn moves_have_three_parts(m: PlanningMove)
    requires
        !(m.distance - m.accel_distance() - m.decel_distance()).nan(),
    ensures
        m.total_time() == m.accel_time() + m.cruise_time() + m.decel_time(),
        ({
            let left = m.distance - m.accel_distance() - m.decel_distance();
            &&& m.cruise_distance() >= num(ZERO)
            &&& m.cruise_distance() >= left
            &&& m.cruise_distance() == left || m.cruise_distance() == num(ZERO)
        }),
        m.cruise_time() == m.cruise_distance() / m.cruise_v,
{
}

/// The way on which a move speeds up is that on which its acceleration brings it from its first
/// speed to its cruise speed, and it takes as long as that way does at the mean of the two; both
/// up to rounding.
pub proof fn speeding_up_follows_the_acceleration(m: PlanningMove)
    requires
        ({
            let gain = m.cruise_v * m.cruise_v - m.start_v * m.start_v;
            let mean = (m.start_v + m.cruise_v) * num(HALF);
            &&& precise(gain) && precise(gain * num(HALF)) && precise(m.acceleration)
            &&& precise(m.accel_distance()) && precise(mean) && precise(m.accel_time())
        }),
    ensures
        ({
            let gain = m.cruise_v * m.cruise_v - m.start_v * m.start_v;
            let mean = (m.start_v + m.cruise_v) * num(HALF);
            let way = m.accel_distance().value() * m.acceleration.value();
            let drive = m.accel_time().value() * mean.value();
            let one = one_units();
            // twice the acceleration times the way is the gain
            &&& 0x4_0000_0000_0000 * (2 * way) <= (gain.value() * one) * 0x4_0000_0000_0001
            &&& 0x4_0000_0000_0000 * (2 * way) >= (gain.value() * one) * 0x3_ffff_ffff_ffff
            // the time times the mean speed is the way
            &&& 0x10_0000_0000_0000 * drive <= (m.accel_distance().value() * one)
                * 0x10_0000_0000_0001
            &&& 0x10_0000_0000_0000 * drive >= (m.accel_distance().value() * one)
                * 0xf_ffff_ffff_ffff
        }),
{
    let gain = m.cruise_v * m.cruise_v - m.start_v * m.start_v;
    let mean = (m.start_v + m.cruise_v) * num(HALF);
    let half = gain * num(HALF);
    lemma_two52();
    lemma_half_units();
    lemma_product_error(gain, num(HALF));
    lemma_quotient_error(half, m.acceleration);
    lemma_quotient_error(m.accel_distance(), mean);
    let g = gain.value();
    let h = half.value();
    let o = one_units() as int;
    let w = m.accel_distance().value() * m.acceleration.value();
    lemma_some_units(gain.magnitude());
    lemma_some_units(half.magnitude());
    lemma_pow2_pos(1074);
    let k = num(HALF).value();
    assert(g * k * 2 == g * o) by (nonlinear_arith)
        requires
            2 * k == o,
    ;
    let go = g * o;
    let ho = h * o;
    assert(go > 0 && ho > 0) by (nonlinear_arith)
        requires
            go == g * o,
            ho == h * o,
            g > 0,
            h > 0,
            o > 0,
    ;
    lemma_two_errors(w, ho, go);
}

proof fn lemma_two_errors(w: int, ho: int, go: int)
    requires
        go > 0,
        ho > 0,
        0x10_0000_0000_0000 * w <= ho * 0x10_0000_0000_0001,
        0x10_0000_0000_0000 * w >= ho * 0xf_ffff_ffff_ffff,
        0x10_0000_0000_0000 * (2 * ho) <= go * 0x10_0000_0000_0001,
        0x10_0000_0000_0000 * (2 * ho) >= go * 0xf_ffff_ffff_ffff,
    ensures
        0x4_0000_0000_0000 * (2 * w) <= go * 0x4_0000_0000_0001,
        0x4_0000_0000_0000 * (2 * w) >= go * 0x3_ffff_ffff_ffff,
{
}

/// The corner velocity of an extruder bounds how fast its filament may change at a junction; moves
/// of different extruders stop in between.
pub proof fn filament_changes_its_speed_gently(
    l: PrinterLimits,
    m: PlanningMove,
    previous: PlanningMove,
)
    ensures
        ({
            let change = (m.rate.w - previous.rate.w).abs();
            let corner = if m.extruder_index != 255 && (m.extruder_index as int)
                < l.extruders@.len() {
                l.extruders@[m.extruder_index as int].1.instantaneous_corner_velocity
            } else {
                l.instant_corner_velocity
            };
            let r = l.extruder_junction(m, previous);
            &&& m.extruder_index != previous.extruder_index ==> r == num(ZERO)
            &&& m.extruder_index == previous.extruder_index && change > num(ZERO) ==> r == (corner
                / change) * (corner / change)
            &&& m.extruder_index == previous.extruder_index && !(change > num(ZERO)) ==> r
                == m.max_cruise_v2
        }),
{
}

/// The acceleration that short moves speed up with: what the cruise ratio leaves of the general
/// one, or the acceleration to deceleration, or fifty, but never more than the general one.
pub proof fn short_moves_speed_up_with_less(l: PrinterLimits)
    requires
        not_negative(l.max_acceleration),
        l.max_acceleration.finite(),
        l.minimum_cruise_ratio matches Some(v) ==> v >= num(ZERO) && v <= num(ONE),
    ensures
        ({
            let r = l.recalculated();
            &&& r.mcr_pseudo_accel <= l.max_acceleration
            &&& l.minimum_cruise_ratio matches Some(v) ==> r.mcr_pseudo_accel == l.max_acceleration
                * (num(ONE) - v)
            &&& l.minimum_cruise_ratio is None ==> smaller_of(
                r.mcr_pseudo_accel,
                match l.max_accel_to_decel {
                    Some(v) => if v.nan() {
                        l.max_acceleration
                    } else {
                        v
                    },
                    None => num(FIFTY),
                },
                l.max_acceleration,
            )
            &&& r == PrinterLimits {
                mcr_pseudo_accel: r.mcr_pseudo_accel,
                junction_deviation: r.junction_deviation,
                ..l
            }
        }),
{
    if let Some(v) = l.minimum_cruise_ratio {
        let rest = num(ONE) - v;
        let a = l.max_acceleration;
        assert(!rest.nan() && !(num(ONE) - num(ONE)).nan() && !(num(ONE) - num(ZERO)).nan()) by {
            reveal(Double::spec_add);
            lemma_two52();
        }
        differences_are_monotone(v, num(ONE), num(ONE));
        differences_are_monotone(num(ZERO), v, num(ONE));
        adding_zero_changes_nothing(num(ONE), num(ZERO).negated());
        assert(num(ONE) - num(ZERO) == num(ONE));
        assert((num(ONE) - num(ONE)).rank() == 0) by {
            reveal(Double::spec_add);
            lemma_two52();
        }
        products_commute(num(ONE), a);
        products_commute(rest, a);
        ones_change_nothing(a);
        lemma_scaled(rest, num(ONE), a);
    }
}

/// The limits that a command sets are those that it names; the rest stays, but for what follows
/// from the new ones.
pub proof fn commands_set_the_limits_that_they_name(
    l: PrinterLimits,
    params: Seq<(Seq<char>, Seq<char>)>,
)
    ensures
        ({
            let r = changed_limits(l, params);
            let velocity = named_number(params, "velocity"@);
            let accel = named_number(params, "accel"@);
            let corner = named_number(params, "square_corner_velocity"@);
            let ratio = named_number(params, "minimum_cruise_ratio"@);
            let decel = named_number(params, "accel_to_decel"@);
            &&& r.max_velocity == match velocity {
                Some(v) => v,
                None => l.max_velocity,
            }
            &&& r.max_acceleration == match accel {
                Some(v) => v,
                None => l.max_acceleration,
            }
            &&& r.square_corner_velocity == match corner {
                Some(v) => v,
                None => l.square_corner_velocity,
            }
            &&& accel is Some || corner is Some ==> r.junction_deviation == PrinterLimits {
                max_accel_to_decel: r.max_accel_to_decel,
                ..r
            }.recalculated().junction_deviation
            &&& accel is None && corner is None ==> r.junction_deviation == l.junction_deviation
            &&& accel is Some || ratio is Some || decel is Some ==> r.mcr_pseudo_accel
                == r.recalculated().mcr_pseudo_accel
            &&& accel is None && ratio is None && decel is None ==> r.mcr_pseudo_accel
                == l.mcr_pseudo_accel
            &&& ratio is Some ==> r.max_accel_to_decel is None && r.minimum_cruise_ratio is Some
                && (ratio->0 >= num(ZERO) && ratio->0 <= num(ONE) ==> r.minimum_cruise_ratio
                == ratio)
            &&& ratio is None && decel is Some ==> r.max_accel_to_decel == decel
                && r.minimum_cruise_ratio is None
            &&& ratio is None && decel is None ==> r.max_accel_to_decel == l.max_accel_to_decel
                && r.minimum_cruise_ratio == l.minimum_cruise_ratio
            &&& r == PrinterLimits {
                max_velocity: r.max_velocity,
                max_acceleration: r.max_acceleration,
                square_corner_velocity: r.square_corner_velocity,
                max_accel_to_decel: r.max_accel_to_decel,
                minimum_cruise_ratio: r.minimum_cruise_ratio,
                junction_deviation: r.junction_deviation,
                mcr_pseudo_accel: r.mcr_pseudo_accel,
                ..l
            }
        }),
{
}

} // verus!
