//! Where arcs lead.

use vstd::prelude::*;

use crate::arcs::Arc;
use crate::arcs::Direction;
use crate::command_laws::coded;
use crate::command_laws::lemma_moved;
use crate::command_laws::params_of;
use crate::command_laws::undeclared;
use crate::constants::TAU;
use crate::diagnostics::unsupported_state_command_of;
use crate::double::num;
use crate::double::Double;
use crate::double::ONE;
use crate::double::ZERO;
use crate::gcode::lettered_number;
use crate::gcode::CommandView;
use crate::geometry::Vec4;
use crate::motion_laws::adding_zero_changes_nothing;
use crate::motion_laws::multiples_of_zero_are_zero;
use crate::order_laws::sums_are_monotone;
use crate::planner::command_name;
use crate::planner::unsupported_traditional;
use crate::planner::Plane;
use crate::planner::PlannerView;
use crate::planning_move::Kind;
use crate::right_angle_laws::ones_change_nothing;
use crate::rounding::lemma_two52;
use crate::whole_laws::numbers_round_down;

verus! {

/// The letter of the offset along an axis.
pub open spec fn offset_letter(axis: int) -> char {
    if axis == 0 {
        'I'
    } else if axis == 1 {
        'J'
    } else {
        'K'
    }
}

/// A plane has two of the three axes, in order, and the third lies across it. The centre of an
/// arc is given by the letters of the two.
pub proof fn planes_have_two_axes(p: Plane)
    ensures
        p.axes().0 < p.axes().1 < 3,
        p.helical_axis() < 3,
        p.helical_axis() != p.axes().0,
        p.helical_axis() != p.axes().1,
        p.offset_letters().0 == offset_letter(p.axes().0 as int),
        p.offset_letters().1 == offset_letter(p.axes().1 as int),
        (p is XY) == (p.helical_axis() == 2),
        (p is XZ) == (p.helical_axis() == 1),
{
}

/// Whether the angle lies within one turn, to either side.
pub open spec fn within_a_turn(angle: Double) -> bool {
    num(TAU).negated() <= angle && angle <= num(TAU)
}

proof fn lemma_tau()
    ensures
        num(TAU).finite(),
        num(TAU).negated().finite(),
        num(TAU) > num(ZERO),
        (num(TAU) - num(TAU)).magnitude() == 0,
        (num(TAU).negated() + num(TAU)).magnitude() == 0,
        (num(ZERO) + num(TAU)) == num(TAU),
{
    reveal(Double::spec_add);
    lemma_two52();
    adding_zero_changes_nothing(num(TAU), num(ZERO));
    crate::motion_laws::sums_commute(num(TAU), num(ZERO));
}

/// Arcs turn the way that they are said to: counter-clockwise ones by no less than nothing,
/// clockwise ones by no more than nothing, and neither by more than a full turn. An arc that
/// leads back to where it started goes once round.
pub proof fn arcs_turn_their_way(arc: Arc, angle: Double)
    requires
        within_a_turn(angle),
        angle.finite(),
    ensures
        !arc.clockwise ==> num(ZERO) <= arc.turned(angle) && arc.turned(angle) <= num(TAU),
        arc.clockwise && !arc.closed_loop() ==> arc.turned(angle) <= num(ZERO)
            && num(TAU).negated() <= arc.turned(angle),
        arc.closed_loop() && angle.magnitude() == 0 && !arc.clockwise ==> arc.turned(angle) == num(
            TAU,
        ),
        arc.closed_loop() && angle.magnitude() == 0 && arc.clockwise ==> arc.turned(angle).equals(
            num(TAU).negated(),
        ),
{
    lemma_tau();
    lemma_two52();
    let ahead = if angle < num(ZERO) {
        angle + num(TAU)
    } else {
        angle
    };
    assert(num(ZERO) <= ahead && ahead <= num(TAU)) by {
        if angle < num(ZERO) {
            assert(!(angle + num(TAU)).nan()) by {
                reveal(Double::spec_add);
            }
            sums_are_monotone(num(TAU).negated(), angle, num(TAU));
            sums_are_monotone(angle, num(ZERO), num(TAU));
        }
    }
    if arc.clockwise {
        let t = num(TAU).negated();
        assert(!(ahead + t).nan()) by {
            reveal(Double::spec_add);
        }
        sums_are_monotone(ahead, num(TAU), t);
        adding_zero_changes_nothing(t, num(ZERO));
        crate::motion_laws::sums_commute(t, num(ZERO));
        sums_are_monotone(num(ZERO), ahead, t);
        if angle.magnitude() == 0 {
            adding_zero_changes_nothing(t, ahead);
            crate::motion_laws::sums_commute(t, ahead);
        }
    }
}

/// Clockwise and counter-clockwise arcs between the same points make up the circle.
pub proof fn opposite_arcs_make_up_the_circle(arc: Arc, other: Arc, angle: Double)
    requires
        arc == (Arc { clockwise: true, ..other }),
        !other.clockwise,
        !arc.closed_loop(),
    ensures
        arc.turned(angle) == other.turned(angle) - num(TAU),
{
}

/// An arc has as many whole pieces as fit into its length, and at least one.
pub proof fn pieces_are_no_shorter_than_the_step(arc: Arc, length: Double)
    requires
        (length / arc.step).finite(),
    ensures
        arc.pieces(length) >= num(ONE),
        length / arc.step >= num(ONE) ==> arc.pieces(length).value() <= (length / arc.step).value()
            && (length / arc.step).value() < arc.pieces(length).value()
            + crate::double::one_units(),
{
    let q = length / arc.step;
    lemma_two52();
    numbers_round_down(q);
    if q >= num(ONE) && q.floor() < num(ONE) {
        crate::order_laws::one_is_one();
        crate::order_laws::lemma_value_monotone(num(ONE), q);
        crate::order_laws::lemma_value_monotone(q.floor(), num(ONE));
    }
}

/// An arc turns evenly: after piece `i` it has turned by the part `i` of the number of pieces of
/// its whole turn, and after the last piece by all of it.
pub proof fn arcs_turn_evenly(arc: Arc, turn: Double, pieces: Double, i: u64)
    ensures
        arc.angle(turn, pieces, i) == Double::from_u64(i) / pieces * turn,
        turn.finite() && Double::from_u64(i) == pieces && pieces.finite() && pieces > num(ZERO)
            ==> arc.angle(turn, pieces, i) == turn,
{
    if turn.finite() && Double::from_u64(i) == pieces && pieces.finite() && pieces > num(ZERO) {
        crate::order_laws::numbers_over_themselves_are_one(pieces);
        ones_change_nothing(turn);
        crate::motion_laws::products_commute(num(ONE), turn);
    }
}

/// Along the axis across the plane and in filament, an arc goes evenly from its start to its
/// target: the end of piece `k` lies the part `k` of the number of pieces along the way.
pub proof fn arcs_rise_evenly(arc: Arc, pieces: Double, directions: Seq<Direction>, k: int)
    requires
        0 <= k < directions.len(),
    ensures
        ({
            let p = arc.points_at(pieces, directions)[k];
            let part = Double::from_u64((k + 1) as u64) / pieces;
            &&& p.w == arc.start.w + (arc.target.w - arc.start.w) * part
            &&& arc.plane is XY ==> p.z == arc.start.z + (arc.target.z - arc.start.z) * part
            &&& arc.plane is XZ ==> p.y == arc.start.y + (arc.target.y - arc.start.y) * part
            &&& arc.plane is YZ ==> p.x == arc.start.x + (arc.target.x - arc.start.x) * part
        }),
{
}

proof fn lemma_rotated(c: Double, a: Double, b: Double)
    requires
        c.finite(),
        a.finite(),
        b.finite(),
    ensures
        (c + a * num(ONE) - b * num(ZERO)).equals(c + a),
        (c + a * num(ZERO) + b * num(ONE)).equals(c + b),
        (c + a * num(ZERO) - b * num(ONE)).equals(c - b),
        (c + a * num(ONE) + b * num(ZERO)).equals(c + a),
{
    lemma_two52();
    ones_change_nothing(a);
    ones_change_nothing(b);
    multiples_of_zero_are_zero(a, num(ZERO));
    multiples_of_zero_are_zero(b, num(ZERO));
    let na = a * num(ZERO);
    let nb = b * num(ZERO);
    assert(!(c + a).nan()) by {
        reveal(Double::spec_add);
    }
    adding_zero_changes_nothing(c + a, nb);
    adding_zero_changes_nothing(c + a, nb.negated());
    adding_zero_changes_nothing(c, na);
    lemma_equal_sums(c + na, c, b);
    lemma_equal_sums(c + na, c, b.negated());
}

/// Equal numbers have equal sums.
pub proof fn lemma_equal_sums(a: Double, b: Double, c: Double)
    requires
        a.equals(b),
        b.finite(),
        c.finite(),
    ensures
        (a + c).equals(b + c),
{
    lemma_two52();
    assert(!(a + c).nan() && !(b + c).nan()) by {
        reveal(Double::spec_add);
    }
    sums_are_monotone(a, b, c);
    sums_are_monotone(b, a, c);
}

/// Seen from the centre, the way to a point of an arc is the way to its start, turned: not turned,
/// it leads to the start, and after a quarter of a turn counter-clockwise it has changed its two
/// sides, the first for the second and the second for the negative of the first.
pub proof fn arcs_turn_round_their_centre(arc: Arc, part: Double)
    requires
        arc.center().0.finite(),
        arc.center().1.finite(),
        arc.offset.0.finite(),
        arc.offset.1.finite(),
    ensures
        ({
            let (a, b) = arc.plane.axes();
            let start = arc.point_at(part, Direction { sin: num(ZERO), cos: num(ONE) });
            let quarter = arc.point_at(part, Direction { sin: num(ONE), cos: num(ZERO) });
            &&& start.axis(a).equals(arc.center().0 - arc.offset.0)
            &&& start.axis(b).equals(arc.center().1 - arc.offset.1)
            &&& quarter.axis(a).equals(arc.center().0 + arc.offset.1)
            &&& quarter.axis(b).equals(arc.center().1 - arc.offset.0)
        }),
        arc.center().0 == arc.start.axis(arc.plane.axes().0) + arc.offset.0,
        arc.center().1 == arc.start.axis(arc.plane.axes().1) + arc.offset.1,
{
    let r = arc.radius();
    lemma_two52();
    assert(r.0.finite() && r.1.finite());
    lemma_rotated(arc.center().0, r.0, r.1);
    lemma_rotated(arc.center().1, r.0, r.1);
    assert(arc.offset.1.negated().negated() == arc.offset.1);
}

proof fn lemma_arc_moves(v: PlannerView, points: Seq<Vec4>, kind: Option<Kind>, n: int)
    requires
        0 <= n <= points.len(),
    ensures
        ({
            let t = v.toolhead;
            let r = v.arc_moves(points, kind, n).toolhead;
            &&& r.position == if n > 0 {
                points[n - 1]
            } else {
                t.position
            }
            &&& r.base_position == t.base_position
            &&& r.homing_position == t.homing_position
            &&& r.position_modes == t.position_modes
            &&& r.velocity == t.velocity
            &&& r.speed_factor == t.speed_factor
            &&& r.extrude_factor == t.extrude_factor
            &&& r.limits == t.limits
            &&& r.active_extruder == t.active_extruder
        }),
    decreases n,
{
    if n > 0 {
        lemma_arc_moves(v, points, kind, n - 1);
        lemma_moved(v.arc_moves(points, kind, n - 1), points[n - 1], None, kind);
    }
}

/// An arc is a chain of moves through its points at one velocity, which its feed rate sets as
/// that of a move does. It ends at its last point.
pub proof fn arcs_lead_through_their_points(v: PlannerView, c: CommandView)
    requires
        undeclared(v, c),
        coded(c, 'G', 2) || coded(c, 'G', 3),
    ensures
        ({
            let t = v.toolhead;
            let r = v.step(c).toolhead;
            &&& r.position == if c.arc.len() > 0 {
                c.arc.last()
            } else {
                t.position
            }
            &&& r.velocity == match lettered_number(params_of(c), 'F') {
                Some(rate) => if rate * t.speed_factor <= num(ZERO) {
                    t.velocity
                } else {
                    rate * t.speed_factor
                },
                None => t.velocity,
            }
            &&& r.base_position == t.base_position
            &&& r.homing_position == t.homing_position
            &&& r.position_modes == t.position_modes
            &&& r.speed_factor == t.speed_factor
            &&& r.extrude_factor == t.extrude_factor
            &&& r.limits == t.limits
            &&& r.active_extruder == t.active_extruder
        }),
{
    reveal(PlannerView::arc);
    let noted = if unsupported_traditional(c.op) {
        v.with_diagnostic(unsupported_state_command_of(command_name(c.op)->0))
    } else {
        v
    };
    let fed = noted.with_feedrate(lettered_number(params_of(c), 'F'));
    let kind = fed.kinds.comment_kind(c.comment);
    lemma_arc_moves(fed.noting_comment(c.comment), c.arc, kind, c.arc.len() as int);
}

} // verus!
