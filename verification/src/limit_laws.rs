//! How the limits of a printer restrict moves.

use vstd::prelude::*;

use crate::constants::HALF;
use crate::constants::QUARTER;
use crate::constants::TWO;
use crate::corner_laws::within;
use crate::double::num;
use crate::double::Double;
use crate::double::ONE;
use crate::double::ZERO;
use crate::kinematics::distance_to_center;
use crate::kinematics::CartesianKinematics;
use crate::kinematics::DeltaKinematics;
use crate::kinematics::DeltesianKinematics;
use crate::kinematics::Kinematics;
use crate::kinematics::KinematicsChecker;
use crate::kinematics::MoveOutOfRange;
use crate::kinematics::PolarKinematics;
use crate::kinematics::RotaryDeltaKinematics;
use crate::limits::ExtruderLimits;
use crate::limits::MoveChecker;
use crate::order_laws::numbers_over_themselves_are_one;
use crate::order_laws::quotients_fall_with_the_divisor;
use crate::planning_move::ExtruderViolation;
use crate::planning_move::PlanningMove;
use crate::right_angle_laws::ones_change_nothing;
use crate::speed_laws::not_negative;

verus! {

/// Whether a number is the smaller one of a number and a bound.
pub open spec fn smaller_of(x: Double, a: Double, bound: Double) -> bool {
    &&& x <= a
    &&& within(x, bound)
    &&& x == a || x == bound
}

/// Whether a move is another one restricted to a velocity and an acceleration, and nothing else.
pub open spec fn held_to(r: PlanningMove, m: PlanningMove, velocity: Double, accel: Double) -> bool {
    &&& smaller_of(r.max_cruise_v2, m.max_cruise_v2, velocity * velocity)
    &&& smaller_of(r.acceleration, m.acceleration, accel)
    &&& r.delta_v2 == num(TWO) * m.distance * r.acceleration
    &&& smaller_of(r.mcr_delta_v2, m.mcr_delta_v2, r.delta_v2)
    &&& r == PlanningMove {
        max_cruise_v2: r.max_cruise_v2,
        acceleration: r.acceleration,
        delta_v2: r.delta_v2,
        mcr_delta_v2: r.mcr_delta_v2,
        ..m
    }
}

/// Whether the limits of a move are numbers.
pub open spec fn has_limits(m: PlanningMove) -> bool {
    &&& !m.max_cruise_v2.nan()
    &&& !m.acceleration.nan()
    &&& !m.mcr_delta_v2.nan()
}

/// A restricted move keeps to both limits, and stays within its own; the rest follows.
pub proof fn restricted_moves_keep_to_their_limits(m: PlanningMove, velocity: Double, accel: Double)
    requires
        has_limits(m),
    ensures
        held_to(m.limited(velocity, accel), m, velocity, accel),
        m.max_cruise_v2 <= velocity * velocity && m.acceleration <= accel && m.delta_v2 == num(TWO)
            * m.distance * m.acceleration && m.mcr_delta_v2 <= m.delta_v2
            ==> m.limited(velocity, accel) == m,
{
}

/// How far a move goes up or down.
pub open spec fn climb(m: PlanningMove) -> Double {
    (m.end.z - m.start.z).abs()
}

/// Whether a move is another one whose part along Z is restricted to a velocity and an
/// acceleration. The whole move may be faster by as much as it is longer than that part.
pub open spec fn held_along_z(r: PlanningMove, m: PlanningMove, velocity: Double, accel: Double) -> bool {
    if climb(m).magnitude() == 0 {
        r == m
    } else {
        held_to(
            r,
            m,
            velocity * (m.distance / climb(m)),
            accel * (m.distance / climb(m)),
        )
    }
}

/// On Cartesian machines, the limits along Z hold of the part of a move along Z and no more.
pub proof fn cartesian_moves_are_held_along_z(c: CartesianKinematics, m: PlanningMove)
    requires
        has_limits(m),
    ensures
        held_along_z(c.restricted(m), m, c.max_z_velocity, c.max_z_accel),
{
}

/// A move whose part along Z is slow enough stays as it is.
pub proof fn slow_climbs_stay_as_they_are(c: CartesianKinematics, m: PlanningMove)
    requires
        has_limits(m),
        m.delta_v2 == num(TWO) * m.distance * m.acceleration,
        m.mcr_delta_v2 <= m.delta_v2,
        climb(m).magnitude() > 0 ==> {
            let v = c.max_z_velocity * (m.distance / climb(m));
            &&& m.max_cruise_v2 <= v * v
            &&& m.acceleration <= c.max_z_accel * (m.distance / climb(m))
        },
    ensures
        c.restricted(m) == m,
{
}

/// A move straight up or down is held to the limits along Z themselves.
pub proof fn vertical_moves_are_held_to_the_limits_of_z(c: CartesianKinematics, m: PlanningMove)
    requires
        has_limits(m),
        m.distance == climb(m),
        m.distance > num(ZERO),
        m.distance.finite(),
        c.max_z_velocity.finite(),
        c.max_z_accel.finite(),
    ensures
        held_to(c.restricted(m), m, c.max_z_velocity, c.max_z_accel),
{
    numbers_over_themselves_are_one(m.distance);
    ones_change_nothing(c.max_z_velocity);
    ones_change_nothing(c.max_z_accel);
}

/// Of two moves that are otherwise alike, the flatter one is restricted no more.
pub proof fn flatter_moves_are_no_slower(c: CartesianKinematics, m: PlanningMove, n: PlanningMove)
    requires
        has_limits(m),
        n == (PlanningMove { start: n.start, end: n.end, ..m }),
        num(ZERO) < climb(n),
        climb(n) <= climb(m),
        not_negative(m.distance),
        not_negative(c.max_z_velocity),
        not_negative(c.max_z_accel),
        (c.max_z_velocity * (m.distance / climb(n))).finite(),
        (c.max_z_accel * (m.distance / climb(n))).finite(),
        (m.distance / climb(n)).finite(),
        c.max_z_velocity.finite(),
        c.max_z_accel.finite(),
    ensures
        c.restricted(m).max_cruise_v2 <= c.restricted(n).max_cruise_v2,
        c.restricted(m).acceleration <= c.restricted(n).acceleration,
{
    let a = m.distance / climb(m);
    let b = m.distance / climb(n);
    let v = c.max_z_velocity;
    let w = c.max_z_accel;
    lemma_flatter(m.distance, climb(n), climb(m), v);
    lemma_flatter(m.distance, climb(n), climb(m), w);
    lemma_squares(v * a, v * b);
}

proof fn lemma_flatter(distance: Double, low: Double, high: Double, v: Double)
    requires
        not_negative(distance),
        num(ZERO) < low,
        low <= high,
        (distance / low).finite(),
        not_negative(v),
        v.finite(),
        (v * (distance / low)).finite(),
    ensures
        not_negative(v * (distance / high)),
        v * (distance / high) <= v * (distance / low),
{
    let a = distance / high;
    let b = distance / low;
    assert(distance.finite()) by {
        reveal(Double::over);
    }
    crate::corner_laws::lemma_quotient(distance, low);
    crate::corner_laws::lemma_quotient(distance, high);
    quotients_fall_with_the_divisor(low, high, distance);
    crate::motion_laws::products_commute(v, a);
    crate::motion_laws::products_commute(v, b);
    crate::corner_laws::lemma_scaled(a, b, v);
}

/// Larger numbers have larger squares.
pub proof fn lemma_squares(a: Double, b: Double)
    requires
        not_negative(a),
        a <= b,
        b.finite(),
    ensures
        not_negative(a * a),
        a * a <= b * b,
{
    assert(!(b * b).nan()) by {
        reveal(Double::spec_mul);
        crate::rounding::lemma_two52();
        let n = crate::double::units(b.magnitude()) * crate::double::units(b.magnitude());
        vstd::arithmetic::power2::lemma_pow2_pos(1074);
        crate::speed_laws::rounding_is_monotone(n, n, crate::double::one_units());
    }
    crate::corner_laws::lemma_scaled(a, b, b);
    crate::motion_laws::products_commute(a, b);
    crate::corner_laws::lemma_scaled(a, b, a);
}


/// The square of the distance of the farther end of a move from the middle.
pub open spec fn reach2(m: PlanningMove) -> Double {
    (m.start.x * m.start.x + m.start.y * m.start.y).max(m.end.x * m.end.x + m.end.y * m.end.y)
}

/// Whether a move is another one restricted along Z, and then to a share of a velocity and an
/// acceleration.
pub open spec fn held_to_share(
    r: PlanningMove,
    m: PlanningMove,
    z: (Double, Double),
    limits: (Double, Double),
    share: Double,
) -> bool {
    exists|n: PlanningMove|
        #[trigger] held_along_z(n, m, z.0, z.1) && held_to(r, n, limits.0 * share, limits.1 * share)
}

/// A move on a delta machine is held along Z; past the first bound it is also held to half, and
/// past the second one to a quarter, of the limits of the machine.
pub proof fn delta_moves_far_out_are_slow(c: DeltaKinematics, m: PlanningMove)
    requires
        has_limits(m),
        !m.distance.nan(),
    ensures
        ({
            let r = c.restricted(m);
            let z = (c.max_z_velocity, c.max_z_accel);
            let limits = (c.max_velocity, c.max_accel);
            let p = c.parameters();
            &&& !(reach2(m) > p.slow_xy2) ==> held_along_z(r, m, z.0, z.1)
            &&& reach2(m) > p.slow_xy2 && !(reach2(m) > p.very_slow_xy2) ==> held_to_share(
                r,
                m,
                z,
                limits,
                num(HALF),
            )
            &&& reach2(m) > p.slow_xy2 && reach2(m) > p.very_slow_xy2 ==> held_to_share(
                r,
                m,
                z,
                limits,
                num(QUARTER),
            )
        }),
{
    let n = crate::kinematics::z_restricted(m, c.max_z_velocity, c.max_z_accel);
    assert(held_along_z(n, m, c.max_z_velocity, c.max_z_accel));
    assert(has_limits(n));
    let z = (c.max_z_velocity, c.max_z_accel);
    let limits = (c.max_velocity, c.max_accel);
    let slow = n.limited(limits.0 * num(HALF), limits.1 * num(HALF));
    let very_slow = n.limited(limits.0 * num(QUARTER), limits.1 * num(QUARTER));
    assert(held_along_z(n, m, z.0, z.1) && held_to(
        slow,
        n,
        limits.0 * num(HALF),
        limits.1 * num(HALF),
    ));
    assert(held_along_z(n, m, z.0, z.1) && held_to(
        very_slow,
        n,
        limits.0 * num(QUARTER),
        limits.1 * num(QUARTER),
    ));
    assert(held_to_share(slow, m, z, limits, num(HALF)));
    assert(held_to_share(very_slow, m, z, limits, num(QUARTER)));
}

/// A move on a deltesian machine is held along Z; if it moves along X, it is also held to half of
/// the limits of the machine past the first bound, and to a quarter past the second one.
pub proof fn deltesian_moves_far_out_are_slow(c: DeltesianKinematics, m: PlanningMove)
    requires
        has_limits(m),
    ensures
        ({
            let r = c.restricted(m);
            let z = (c.max_z_velocity, c.max_z_accel);
            let limits = (c.max_velocity, c.max_accel);
            let x2 = (m.start.x * m.start.x).max(m.end.x * m.end.x);
            let still = (m.end.x - m.start.x).magnitude() == 0;
            match c.slow_limits() {
                Some((slow, very_slow)) => {
                    &&& still || !(x2 > slow || x2 > very_slow) ==> held_along_z(r, m, z.0, z.1)
                    &&& !still && x2 > slow && !(x2 > very_slow) ==> held_to_share(
                        r,
                        m,
                        z,
                        limits,
                        num(HALF),
                    )
                    &&& !still && x2 > very_slow ==> held_to_share(
                        r,
                        m,
                        z,
                        limits,
                        num(QUARTER),
                    )
                },
                None => held_along_z(r, m, z.0, z.1),
            }
        }),
{
    let n = crate::kinematics::z_restricted(m, c.max_z_velocity, c.max_z_accel);
    assert(held_along_z(n, m, c.max_z_velocity, c.max_z_accel));
    assert(has_limits(n));
    let z = (c.max_z_velocity, c.max_z_accel);
    let limits = (c.max_velocity, c.max_accel);
    let slow = n.limited(limits.0 * num(HALF), limits.1 * num(HALF));
    let very_slow = n.limited(limits.0 * num(QUARTER), limits.1 * num(QUARTER));
    assert(held_along_z(n, m, z.0, z.1) && held_to(
        slow,
        n,
        limits.0 * num(HALF),
        limits.1 * num(HALF),
    ));
    assert(held_along_z(n, m, z.0, z.1) && held_to(
        very_slow,
        n,
        limits.0 * num(QUARTER),
        limits.1 * num(QUARTER),
    ));
    assert(held_to_share(slow, m, z, limits, num(HALF)));
    assert(held_to_share(very_slow, m, z, limits, num(QUARTER)));
}

/// A move on a polar machine is held along Z. If it would turn the bed faster than allowed, it is
/// also held to as much less of the limits of the machine as it would be too fast.
pub proof fn polar_moves_near_the_middle_are_slow(c: PolarKinematics, m: PlanningMove)
    requires
        has_limits(m),
        !c.max_angular_velocity.nan(),
    ensures
        ({
            let r = c.restricted(m);
            let z = (c.max_z_velocity, c.max_z_accel);
            let limits = (c.max_velocity, c.max_accel);
            let still = (m.end.x - m.start.x).magnitude() == 0 && (m.end.y
                - m.start.y).magnitude() == 0;
            let center = distance_to_center(m);
            exists|n: PlanningMove|
                {
                    let turn = n.max_cruise_v2.sqrt() / center;
                    let share = c.max_angular_velocity / turn;
                    &&& #[trigger] held_along_z(n, m, z.0, z.1)
                    &&& still || c.max_angular_velocity.magnitude() == 0 || center.magnitude() == 0
                        || !(turn > c.max_angular_velocity) ==> r == n
                    &&& !still && c.max_angular_velocity.magnitude() > 0 && center.magnitude() > 0
                        && turn > c.max_angular_velocity ==> held_to(
                        r,
                        n,
                        limits.0 * share,
                        limits.1 * share,
                    )
                }
        }),
{
    let n = crate::kinematics::z_restricted(m, c.max_z_velocity, c.max_z_accel);
    assert(held_along_z(n, m, c.max_z_velocity, c.max_z_accel));
    assert(has_limits(n));
    let z = (c.max_z_velocity, c.max_z_accel);
    assert(held_along_z(n, m, z.0, z.1));
}

/// A move on a rotary delta machine that goes up or down is held to the velocity along Z as a
/// whole, and keeps its acceleration.
pub proof fn rotary_delta_moves_are_held_as_a_whole(c: RotaryDeltaKinematics, m: PlanningMove)
    requires
        has_limits(m),
    ensures
        climb(m).magnitude() == 0 ==> c.restricted(m) == m,
        climb(m).magnitude() > 0 ==> held_to(
            c.restricted(m),
            m,
            c.max_z_velocity,
            m.acceleration,
        ) && c.restricted(m).acceleration == m.acceleration,
{
}

/// Whatever the machine is, moves are restricted by its own rules, and by none if it has none.
pub proof fn machines_restrict_by_their_own_rules(k: Kinematics, m: PlanningMove)
    ensures
        match k {
            Kinematics::CartesianFamily { config } => k.restricted(m) == config.restricted(m)
                && k.violation(m) == config.violation(m),
            Kinematics::Delta { config } => k.restricted(m) == config.restricted(m) && k.violation(
                m,
            ) == config.violation(m),
            Kinematics::Polar { config } => k.restricted(m) == config.restricted(m) && k.violation(
                m,
            ) == config.violation(m),
            Kinematics::Deltesian { config } => k.restricted(m) == config.restricted(m)
                && k.violation(m) == config.violation(m),
            Kinematics::RotaryDelta { config } => k.restricted(m) == config.restricted(m)
                && k.violation(m) == config.violation(m),
            Kinematics::Unconfigured => k.restricted(m) == m && k.violation(m) is None,
            Kinematics::Unsupported { .. } => k.restricted(m) == m && k.violation(m) is None,
        },
{
}

/// Whether a coordinate stays where it is or ends within a range.
pub open spec fn ends_within(from: Double, to: Double, minimum: Double, maximum: Double) -> bool {
    (to - from).magnitude() == 0 || (!(to < minimum) && !(to > maximum))
}

/// On a Cartesian machine, a move can be made if each coordinate that changes ends within the
/// range of its axis; otherwise the first such axis is named, with where the move would end.
pub proof fn cartesian_moves_end_within_their_axes(c: CartesianKinematics, m: PlanningMove)
    ensures
        ({
            let lo = c.axis_minimum;
            let hi = c.axis_maximum;
            let x = ends_within(m.start.x, m.end.x, lo.x, hi.x);
            let y = ends_within(m.start.y, m.end.y, lo.y, hi.y);
            let z = ends_within(m.start.z, m.end.z, lo.z, hi.z);
            &&& c.violation(m) is None <==> x && y && z
            &&& !x ==> c.violation(m) == Some(
                MoveOutOfRange::Axis { axis: 0, position: m.end.x, minimum: lo.x, maximum: hi.x },
            )
            &&& x && !y ==> c.violation(m) == Some(
                MoveOutOfRange::Axis { axis: 1, position: m.end.y, minimum: lo.y, maximum: hi.y },
            )
            &&& x && y && !z ==> c.violation(m) == Some(
                MoveOutOfRange::Axis { axis: 2, position: m.end.z, minimum: lo.z, maximum: hi.z },
            )
        }),
{
}

/// The square of the distance of the end of a move from the middle.
pub open spec fn end2(m: PlanningMove) -> Double {
    m.end.x * m.end.x + m.end.y * m.end.y
}

/// What a delta machine reaches at some height, it also reaches closer to the middle; and nothing
/// that it reaches is farther out than its radius, below its floor or above its end stops.
pub proof fn delta_machines_reach_round_areas(c: DeltaKinematics, m: PlanningMove, n: PlanningMove)
    requires
        c.violation(m) is None,
        n.end.z == m.end.z,
        end2(n) <= end2(m),
    ensures
        c.violation(n) is None,
        !(m.end.z < c.minimum_z),
        !(m.end.z > c.parameters().max_z),
        !(end2(m) > c.parameters().max_xy2),
{
}

/// What a polar machine reaches is within its radius and the range of its Z axis.
pub proof fn polar_machines_reach_their_radius(c: PolarKinematics, m: PlanningMove)
    ensures
        c.violation(m) is None <==> !(end2(m) > c.maximum_radius * c.maximum_radius)
            && ends_within(m.start.z, m.end.z, c.minimum_z, c.maximum_z),
{
}

/// What a rotary delta machine reaches at some height, it also reaches closer to the middle.
pub proof fn rotary_delta_machines_reach_round_areas(
    c: RotaryDeltaKinematics,
    m: PlanningMove,
    n: PlanningMove,
)
    requires
        c.violation(m) is None,
        n.end.z == m.end.z,
        end2(n) <= end2(m),
    ensures
        c.violation(n) is None,
        !(m.end.z < c.minimum_z),
        !(m.end.z > c.limits().0),
        !(end2(m) > c.limits().1),
{
}

/// Whether only filament moves, or filament is drawn back.
pub open spec fn filament_leads(m: PlanningMove) -> bool {
    ((m.end.x - m.start.x).magnitude() == 0 && (m.end.y - m.start.y).magnitude() == 0) || m.rate.w
        < num(ZERO)
}

/// The limits of an extruder hold of the filament: where it leads a move, the whole move may be
/// faster by as much as it is longer than the way of the filament. Other moves keep their speed,
/// and those of too large a cross section are marked, as are those with too long a filament.
pub proof fn extruder_limits_hold_of_the_filament(e: ExtruderLimits, m: PlanningMove)
    requires
        has_limits(m),
    ensures
        ({
            let r = e.checked(m);
            let filament = m.end.w - m.start.w;
            let ratio = num(ONE) / m.rate.w.abs();
            let area = num(crate::constants::PI) * ((e.filament_diameter * num(HALF)) * (
            e.filament_diameter * num(HALF)));
            let most = e.max_extrude_cross_section / area;
            let too_long = filament.abs() > e.max_extrude_only_distance;
            let too_thick = m.rate.w > most && filament > e.nozzle_diameter * most;
            &&& !m.is_extrude_move() ==> r == m
            &&& m.is_extrude_move() && filament_leads(m) ==> held_to(
                r,
                PlanningMove { extruder_violation: r.extruder_violation, ..m },
                e.max_extrude_only_velocity * ratio,
                e.max_extrude_only_accel * ratio,
            ) && r.extruder_violation == if too_long {
                Some(ExtruderViolation::ExtrudeOnlyMoveTooLong)
            } else {
                m.extruder_violation
            }
            &&& m.is_extrude_move() && !filament_leads(m) ==> r == PlanningMove {
                extruder_violation: if too_thick {
                    Some(ExtruderViolation::MaximumCrossSection)
                } else {
                    m.extruder_violation
                },
                ..m
            }
        }),
{
}

/// A limit along an axis holds of the part of a move along that axis and no more; a limit of the
/// extruder holds of moves of the filament alone.
pub proof fn checks_hold_along_their_axis(c: MoveChecker, m: PlanningMove)
    requires
        has_limits(m),
        !m.distance.nan(),
    ensures
        match c {
            MoveChecker::AxisLimiter { axis, max_velocity, max_accel } => {
                let part = ((m.end.x - m.start.x) * axis.x + (m.end.y - m.start.y) * axis.y + (
                m.end.z - m.start.z) * axis.z).abs();
                if m.distance.abs() < num(crate::constants::EPSILON) {
                    c.checked(m) == m
                } else {
                    held_to(
                        c.checked(m),
                        m,
                        max_velocity * (m.distance / part),
                        max_accel * (m.distance / part),
                    )
                }
            },
            MoveChecker::ExtruderLimiter { max_velocity, max_accel } => {
                let ratio = num(ONE) / m.rate.w.abs();
                if m.is_extrude_move() && !m.is_kinematic_move() && ((m.rate.x.magnitude() == 0
                    && m.rate.y.magnitude() == 0) || m.rate.w < num(ZERO)) {
                    held_to(c.checked(m), m, max_velocity * ratio, max_accel * ratio)
                } else {
                    c.checked(m) == m
                }
            },
        },
{
}

} // verus!
