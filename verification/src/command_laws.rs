//! What commands do to the toolhead.

use vstd::prelude::*;

use crate::constants::HUNDRED;
use crate::constants::SIX_THOUSAND;
use crate::constants::SIXTY;
use crate::constants::THOUSAND;
use crate::delay::Delay;
use crate::double::num;
use crate::double::one_units;
use crate::double::units;
use crate::double::Double;
use crate::double::ONE;
use crate::double::ZERO;
use crate::gcode::lettered_number;
use crate::gcode::CommandView;
use crate::gcode::OperationView;
use crate::geometry::Vec4;
use crate::kinds::lemma_text_index;
use crate::kinds::KindView;
use crate::limits::FirmwareRetractionOptions;
use crate::limits::PositionMode;
use crate::limits::PrinterLimits;
use crate::motion_laws::adding_zero_changes_nothing;
use crate::operations::OperationsView;
use crate::operations::QueuedView;
use crate::planner::FirmwareRetractionState;
use crate::planner::Plane;
use crate::planner::PlannerView;
use crate::planning_move::Kind;
use crate::planning_move::PlanningMove;
use crate::table::has_key;
use crate::toolhead::ToolheadView;

verus! {

/// Where a coordinate of a command leads: away from the origin of the file, or from where the axis
/// is; without one, the axis stays.
pub open spec fn leads_to(
    mode: PositionMode,
    at: Double,
    origin: Double,
    way: Option<Double>,
) -> Double {
    match way {
        None => at,
        Some(v) => if mode == PositionMode::Relative {
            at + v
        } else {
            origin + v
        },
    }
}

/// Where a coordinate of the filament leads, stretched by a factor.
pub open spec fn stretched(e: Option<Double>, factor: Double) -> Option<Double> {
    match e {
        Some(v) => Some(v * factor),
        None => None,
    }
}

/// Where a move leads.
pub open spec fn destination(
    t: ToolheadView,
    x: Option<Double>,
    y: Option<Double>,
    z: Option<Double>,
    e: Option<Double>,
) -> Vec4 {
    let m = t.position_modes;
    Vec4 {
        x: leads_to(m[0], t.position.x, t.base_position.x, x),
        y: leads_to(m[1], t.position.y, t.base_position.y, y),
        z: leads_to(m[2], t.position.z, t.base_position.z, z),
        w: leads_to(m[3], t.position.w, t.base_position.w, stretched(e, t.extrude_factor)),
    }
}

/// Whether a command has no declared duration.
pub open spec fn undeclared(v: PlannerView, c: CommandView) -> bool {
    v.contract_for(c.op) is None
}

/// A move leads to its target and changes nothing else of the state of the tool.
pub proof fn lemma_moved(
    v: PlannerView,
    target: Vec4,
    velocity: Option<Double>,
    kind: Option<Kind>,
)
    ensures
        ({
            let r = v.moved(target, velocity, kind).toolhead;
            &&& r.position == target
            &&& r.base_position == v.toolhead.base_position
            &&& r.homing_position == v.toolhead.homing_position
            &&& r.position_modes == v.toolhead.position_modes
            &&& r.velocity == v.toolhead.velocity
            &&& r.speed_factor == v.toolhead.speed_factor
            &&& r.extrude_factor == v.toolhead.extrude_factor
            &&& r.limits == v.toolhead.limits
            &&& r.active_extruder == v.toolhead.active_extruder
            &&& r.transforms == v.toolhead.transforms
            &&& r.planner_has_moved
            &&& r.planner_position == v.toolhead.transforms.path(
                v.toolhead.position,
                target,
            ).last()
        }),
        v.moved(target, velocity, kind).kinds == v.kinds,
        v.moved(target, velocity, kind).plane == v.plane,
        v.moved(target, velocity, kind).retraction == v.retraction,
{
    reveal(PlannerView::moved);
    reveal(ToolheadView::after_path);
}

/// A move leads each axis that it names to its place, and the others nowhere. A feed rate in
/// millimetres per minute, under the speed override, is the velocity from then on, unless it is
/// not positive.
pub proof fn moves_lead_where_they_say(
    v: PlannerView,
    c: CommandView,
    x: Option<Double>,
    y: Option<Double>,
    z: Option<Double>,
    e: Option<Double>,
    f: Option<Double>,
)
    requires
        c.op == (OperationView::Move { x, y, z, e, f }),
    ensures
        ({
            let t = v.toolhead;
            let r = v.step(c).toolhead;
            let moves = x is Some || y is Some || z is Some || e is Some;
            &&& r.position == destination(t, x, y, z, e)
            &&& r.velocity == match f {
                Some(rate) => if rate * t.speed_factor <= num(ZERO) {
                    t.velocity
                } else {
                    rate * t.speed_factor
                },
                None => t.velocity,
            }
            &&& r.base_position == t.base_position
            &&& r.position_modes == t.position_modes
            &&& r.speed_factor == t.speed_factor
            &&& r.extrude_factor == t.extrude_factor
            &&& r.limits == t.limits
            &&& r.active_extruder == t.active_extruder
            &&& !moves ==> r == (ToolheadView { velocity: r.velocity, ..t })
            &&& moves ==> r.planner_position == t.transforms.path(
                t.position,
                destination(t, x, y, z, e),
            ).last()
        }),
{
    reveal(PlannerView::linear_move);
    let fed = v.with_feedrate(f);
    let noted = fed.noting_comment(c.comment);
    let kind = fed.kinds.comment_kind(c.comment);
    if x is Some || y is Some || z is Some || e is Some {
        lemma_moved(noted, noted.toolhead.target([x, y, z, e]), None, kind);
    }
    assert(destination(v.toolhead, x, y, z, e) == destination(noted.toolhead, x, y, z, e));
}

/// The move that is queued for a command runs from where the toolhead was to where the command
/// leads, at the velocity that it leaves, under the kind of its comment.
pub proof fn moves_are_queued(
    v: PlannerView,
    c: CommandView,
    x: Option<Double>,
    y: Option<Double>,
    z: Option<Double>,
    e: Option<Double>,
    f: Option<Double>,
)
    requires
        c.op == (OperationView::Move { x, y, z, e, f }),
        x is Some || y is Some || z is Some || e is Some,
    ensures
        exists|m: PlanningMove, before: OperationsView, t: ToolheadView|
            {
                &&& v.step(c).operations == #[trigger] before.with_logical_move(m, t)
                &&& m.start == v.toolhead.position
                &&& m.end == destination(v.toolhead, x, y, z, e)
                &&& m == PlanningMove {
                    kind: v.kinds.comment_kind(c.comment),
                    ..PlanningMove::new(
                        m.start,
                        m.end,
                        v.toolhead.settings_at(v.step(c).toolhead.velocity),
                    )
                }
                &&& before.ops == v.operations.ops
                &&& t.limits == v.toolhead.limits
                &&& t.position == m.end
            },
{
    reveal(PlannerView::linear_move);
    reveal(PlannerView::moved);
    reveal(ToolheadView::after_path);
    reveal(OperationsView::with_diagnostic);
    moves_lead_where_they_say(v, c, x, y, z, e, f);
    let fed = v.with_feedrate(f);
    let kind = fed.kinds.comment_kind(c.comment);
    let noted = fed.noting_comment(c.comment);
    let target = noted.toolhead.target([x, y, z, e]);
    let m = PlanningMove { kind, ..noted.toolhead.move_to(target, None) };
    let t = noted.toolhead.moved_to(target);
    assert(v.step(c).operations == noted.operations.with_logical_move(m, t));
    assert(target == destination(v.toolhead, x, y, z, e));
}

/// A traditional command with its code and parameters.
pub open spec fn coded(c: CommandView, letter: char, code: u16) -> bool {
    c.op matches OperationView::Traditional { letter: l, code: n, .. } && l == letter && n == code
}

pub open spec fn params_of(c: CommandView) -> Seq<(char, Seq<char>)> {
    c.op->Traditional_params
}

proof fn lemma_traditional(v: PlannerView, c: CommandView)
    requires
        undeclared(v, c),
        c.op is Traditional,
        ({
            let letter = c.op->Traditional_letter;
            let code = c.op->Traditional_code;
            &&& letter == 'G' ==> code == 17 || code == 18 || code == 19 || code >= 90
            &&& letter == 'M' ==> code == 82 || code == 83 || code == 220 || code == 221 || code
                == 204
            &&& letter == 'G' || letter == 'M'
        }),
    ensures
        ({
            let letter = c.op->Traditional_letter;
            let code = c.op->Traditional_code;
            let r = v.traditional(letter, code, params_of(c));
            &&& v.step(c).toolhead == r.toolhead
            &&& v.step(c).plane == r.plane
            &&& v.step(c).kinds == r.kinds
            &&& v.step(c).retraction == r.retraction
        }),
{
}

/// Coordinates are absolute after `G90` and relative after `G91`; the filament is so after `M82`
/// and `M83`. Neither changes the other, nor anything else.
pub proof fn modes_change_alone(v: PlannerView, c: CommandView)
    requires
        undeclared(v, c),
    ensures
        ({
            let t = v.toolhead;
            let r = v.step(c).toolhead;
            let m = t.position_modes;
            let a = PositionMode::Absolute;
            let b = PositionMode::Relative;
            &&& coded(c, 'G', 90) ==> r == (ToolheadView { position_modes: [a, a, a, m[3]], ..t })
            &&& coded(c, 'G', 91) ==> r == (ToolheadView { position_modes: [b, b, b, m[3]], ..t })
            &&& coded(c, 'M', 82) ==> r == (ToolheadView {
                position_modes: [m[0], m[1], m[2], a],
                ..t
            })
            &&& coded(c, 'M', 83) ==> r == (ToolheadView {
                position_modes: [m[0], m[1], m[2], b],
                ..t
            })
            &&& coded(c, 'G', 17) ==> v.step(c).plane == Plane::XY && r == t
            &&& coded(c, 'G', 18) ==> v.step(c).plane == Plane::XZ && r == t
            &&& coded(c, 'G', 19) ==> v.step(c).plane == Plane::YZ && r == t
        }),
{
    reveal(PlannerView::traditional);
    if coded(c, 'G', 90) || coded(c, 'G', 91) || coded(c, 'M', 82) || coded(c, 'M', 83) || coded(
        c,
        'G',
        17,
    ) || coded(c, 'G', 18) || coded(c, 'G', 19) {
        lemma_traditional(v, c);
    }
}

/// `G92` declares where the toolhead is: an origin moves so that the current place has the given
/// coordinate, and nothing travels. Without coordinates, the current place is the origin.
pub proof fn declared_places_are_origins(v: PlannerView, c: CommandView)
    requires
        undeclared(v, c),
        coded(c, 'G', 92),
    ensures
        ({
            let t = v.toolhead;
            let r = v.step(c).toolhead;
            let p = params_of(c);
            let (x, y, z, e) = (
                lettered_number(p, 'X'),
                lettered_number(p, 'Y'),
                lettered_number(p, 'Z'),
                lettered_number(p, 'E'),
            );
            let b = r.base_position;
            &&& r == (ToolheadView { base_position: b, ..t })
            &&& x is None && y is None && z is None && e is None ==> b == t.position
            &&& x matches Some(q) ==> b.x == t.position.x - q
            &&& y matches Some(q) ==> b.y == t.position.y - q
            &&& z matches Some(q) ==> b.z == t.position.z - q
            &&& e matches Some(q) ==> b.w == t.position.w - q * t.extrude_factor
            &&& x is None && (y is Some || z is Some || e is Some) ==> b.x == t.base_position.x
            &&& y is None && (x is Some || z is Some || e is Some) ==> b.y == t.base_position.y
            &&& z is None && (x is Some || y is Some || e is Some) ==> b.z == t.base_position.z
            &&& e is None && (x is Some || y is Some || z is Some) ==> b.w == t.base_position.w
        }),
{
    reveal(PlannerView::traditional);
    lemma_traditional(v, c);
}

/// Once the current place is the origin, an absolute move to the origin goes nowhere.
pub proof fn origins_are_where_they_were_declared(v: PlannerView, c: CommandView)
    requires
        undeclared(v, c),
        coded(c, 'G', 92),
        lettered_number(params_of(c), 'X') is None,
        lettered_number(params_of(c), 'Y') is None,
        lettered_number(params_of(c), 'Z') is None,
        lettered_number(params_of(c), 'E') is None,
        !v.toolhead.position.x.nan(),
        v.toolhead.position_modes[0] == PositionMode::Absolute,
    ensures
        destination(v.step(c).toolhead, Some(num(ZERO)), None, None, None).x.equals(
            v.toolhead.position.x,
        ),
{
    declared_places_are_origins(v, c);
    adding_zero_changes_nothing(v.toolhead.position.x, num(ZERO));
}

/// `M220` scales feed rates, and the velocity with them; `M221` scales filament from the current
/// place on. Neither takes anything but a positive percentage.
pub proof fn overrides_scale(v: PlannerView, c: CommandView)
    requires
        undeclared(v, c),
    ensures
        ({
            let t = v.toolhead;
            let r = v.step(c).toolhead;
            let percent = match lettered_number(params_of(c), 'S') {
                Some(s) => s,
                None => num(HUNDRED),
            };
            &&& coded(c, 'M', 220) && percent <= num(ZERO) ==> r == t
            &&& coded(c, 'M', 220) && !(percent <= num(ZERO)) ==> r == (ToolheadView {
                speed_factor: percent / num(SIX_THOUSAND),
                velocity: t.velocity / t.speed_factor * (percent / num(SIX_THOUSAND)),
                ..t
            })
            &&& coded(c, 'M', 221) && percent <= num(ZERO) ==> r == t
            &&& coded(c, 'M', 221) && !(percent <= num(ZERO)) ==> {
                let factor = percent / num(HUNDRED);
                let file = (t.position.w - t.base_position.w) / t.extrude_factor;
                &&& r.extrude_factor == factor
                &&& r.base_position.w == t.position.w - file * factor
                &&& r.base_position.xyz() == t.base_position.xyz()
                &&& r == (ToolheadView {
                    extrude_factor: r.extrude_factor,
                    base_position: r.base_position,
                    ..t
                })
            }
        }),
{
    reveal(PlannerView::traditional);
    if coded(c, 'M', 220) || coded(c, 'M', 221) {
        lemma_traditional(v, c);
    }
}

/// `M204` sets the acceleration: to `S`, or to the smaller one of `P` and `T`.
pub proof fn accelerations_are_set(v: PlannerView, c: CommandView)
    requires
        undeclared(v, c),
        coded(c, 'M', 204),
    ensures
        ({
            let t = v.toolhead;
            let r = v.step(c).toolhead;
            let p = params_of(c);
            let (s, print, travel) = (
                lettered_number(p, 'S'),
                lettered_number(p, 'P'),
                lettered_number(p, 'T'),
            );
            let l = t.limits;
            &&& s matches Some(a) ==> r.limits == PrinterLimits {
                max_acceleration: a,
                ..l
            }.recalculated()
            &&& s is None && print is Some && travel is Some ==> exists|a: Double|
                {
                    &&& #[trigger] crate::corner_laws::within(a, print->0)
                    &&& crate::corner_laws::within(a, travel->0)
                    &&& a == print->0 || a == travel->0
                    &&& r.limits == PrinterLimits { max_acceleration: a, ..l }.recalculated()
                }
            &&& s is None && (print is None || travel is None) ==> r.limits == l
            &&& r == (ToolheadView { limits: r.limits, ..t })
        }),
{
    reveal(PlannerView::traditional);
    lemma_traditional(v, c);
    let p = params_of(c);
    if lettered_number(p, 'S') is None && lettered_number(p, 'P') is Some && lettered_number(
        p,
        'T',
    ) is Some {
        let a = (lettered_number(p, 'P')->0).min(lettered_number(p, 'T')->0);
        assert(crate::corner_laws::within(a, lettered_number(p, 'P')->0));
    }
}

/// `G4` waits: the span that is queued is its milliseconds to the nearest nanosecond, and none for
/// a negative number or without one.
pub proof fn pauses_take_their_milliseconds(v: PlannerView, c: CommandView)
    requires
        undeclared(v, c),
        coded(c, 'G', 4),
    ensures
        ({
            let r = v.step(c);
            let p = lettered_number(params_of(c), 'P');
            let seconds = match p {
                Some(ms) => ms / num(THOUSAND),
                None => num(ZERO),
            };
            &&& r.toolhead == v.toolhead
            &&& r.operations.ops.len() == v.operations.ops.len() + 1
            &&& r.operations.ops.drop_last() == v.operations.ops
            &&& r.operations.ops.last() matches QueuedView::Delay(Delay::Dwell(d)) && {
                let n = d.secs * 1_000_000_000 + d.nanos;
                &&& d.nanos < 1_000_000_000
                &&& !(seconds > num(ZERO)) ==> n == 0
                &&& seconds > num(ZERO) && seconds.finite() && d.secs < u64::MAX ==> {
                    &&& 2 * (n * one_units()) <= 2 * (seconds.value() * 1_000_000_000) + one_units()
                    &&& 2 * (n * one_units()) >= 2 * (seconds.value() * 1_000_000_000) - one_units()
                }
            }
        }),
{
    reveal(OperationsView::with_delay);
    let p = lettered_number(params_of(c), 'P');
    let raw = match p {
        Some(ms) => ms / num(THOUSAND),
        None => num(ZERO),
    };
    let seconds = match p {
        Some(ms) => (ms / num(THOUSAND)).max(num(ZERO)),
        None => num(ZERO),
    };
    let d = crate::planner::pause_of(p);
    let op = QueuedView::Delay(Delay::Dwell(d));
    assert(v.step(c).operations.ops == v.operations.ops.push(op));
    assert(v.operations.ops.push(op).drop_last() == v.operations.ops);
    vstd::arithmetic::power2::lemma_pow2_pos(1074);
    let n = crate::delay::nanoseconds(seconds);
    crate::progress_laws::lemma_half_even(
        units(seconds.magnitude()) * 1_000_000_000,
        one_units(),
    );
    if !(raw > num(ZERO)) {
        assert(seconds.magnitude() == 0);
        crate::order_laws::lemma_some_units(1);
        assert(units(seconds.magnitude()) * 1_000_000_000 == 0);
        vstd::arithmetic::div_mod::lemma_fundamental_div_mod_converse(
            0,
            one_units() as int,
            0,
            0,
        );
        assert(n == 0);
    } else {
        assert(seconds == raw);
        vstd::arithmetic::div_mod::lemma_fundamental_div_mod(n as int, 1_000_000_000);
    }
}

/// Firmware retraction pulls the filament back by its length and then lifts the toolhead; it is
/// noted, and happens once until it is undone.
pub proof fn retraction_pulls_back(v: PlannerView, c: CommandView, o: FirmwareRetractionOptions)
    requires
        undeclared(v, c),
        coded(c, 'G', 10),
        v.toolhead.limits.firmware_retraction == Some(o),
        v.retraction is Some,
    ensures
        ({
            let t = v.toolhead;
            let r = v.step(c);
            let pulled = t.position.w + o.retract_length.negated() * t.extrude_factor;
            &&& r.retraction == Some(FirmwareRetractionState { retracted: true })
            &&& v.retraction->0.retracted ==> r.toolhead == t
            &&& !v.retraction->0.retracted ==> {
                &&& r.toolhead.position.w == pulled
                &&& r.toolhead.position.x == t.position.x && r.toolhead.position.y == t.position.y
                &&& r.toolhead.position.z == if o.lift_z > num(ZERO) {
                    t.position.z + o.lift_z
                } else {
                    t.position.z
                }
                &&& r.toolhead.base_position == t.base_position
                &&& r.toolhead.position_modes == t.position_modes
                &&& r.toolhead.velocity == t.velocity
            }
        }),
{
    reveal(PlannerView::firmware_retraction);
    let kind = Some(v.kinds.kind_of("Firmware retract"@));
    let a = PlannerView {
        retraction: Some(FirmwareRetractionState { retracted: true }),
        ..v.knowing_kind("Firmware retract"@)
    };
    let target = a.toolhead.relative().target(crate::planner::filament(o.retract_length.negated()));
    let b = a.moved(target, Some(o.retract_speed), kind);
    lemma_moved(a, target, Some(o.retract_speed), kind);
    lemma_moved(
        b,
        b.toolhead.relative().target(crate::planner::height(o.lift_z)),
        None,
        kind,
    );
}

/// Undoing a retraction lowers the toolhead again and then pushes the filament out by as much as
/// it was pulled back, and what is extra.
pub proof fn undone_retraction_pushes_out(
    v: PlannerView,
    c: CommandView,
    o: FirmwareRetractionOptions,
)
    requires
        undeclared(v, c),
        coded(c, 'G', 11),
        v.toolhead.limits.firmware_retraction == Some(o),
        v.retraction is Some,
    ensures
        ({
            let t = v.toolhead;
            let r = v.step(c);
            let pushed = t.position.w + (o.retract_length + o.unretract_extra_length)
                * t.extrude_factor;
            &&& r.retraction == Some(FirmwareRetractionState { retracted: false })
            &&& !v.retraction->0.retracted ==> r.toolhead == t
            &&& v.retraction->0.retracted ==> {
                &&& r.toolhead.position.w == pushed
                &&& r.toolhead.position.x == t.position.x && r.toolhead.position.y == t.position.y
                &&& r.toolhead.position.z == if o.lift_z > num(ZERO) {
                    t.position.z + o.lift_z.negated()
                } else {
                    t.position.z
                }
                &&& r.toolhead.base_position == t.base_position
                &&& r.toolhead.position_modes == t.position_modes
                &&& r.toolhead.velocity == t.velocity
            }
        }),
{
    reveal(PlannerView::firmware_retraction);
    let kind = Some(v.kinds.kind_of("Firmware unretract"@));
    let a = PlannerView {
        retraction: Some(FirmwareRetractionState { retracted: false }),
        ..v.knowing_kind("Firmware unretract"@)
    };
    let down = a.toolhead.relative().target(crate::planner::height(o.lift_z.negated()));
    let b = if o.lift_z > num(ZERO) {
        a.moved(down, None, kind)
    } else {
        a
    };
    lemma_moved(a, down, None, kind);
    lemma_moved(
        b,
        b.toolhead.relative().target(
            crate::planner::filament(o.retract_length + o.unretract_extra_length),
        ),
        Some(o.unretract_speed),
        kind,
    );
}

/// A name that is known as a kind has its kind from then on, and the kinds before it keep theirs.
pub proof fn kinds_keep_their_names(k: KindView, name: Seq<char>, i: int)
    requires
        k.names.len() < usize::MAX,
        0 <= i < k.names.len(),
    ensures
        k.knowing(name).name_of(Some(k.kind_of(name))) == Some(name),
        k.knowing(name).name_of(Some(Kind { index: i as usize })) == Some(
            k.names[i],
        ),
        k.knowing(name).current == k.current,
{
    lemma_text_index(k.names, name);
}

/// The state before the first command: everything is at the origin, feed rates are in millimetres
/// per minute, and filament is not scaled.
pub proof fn toolheads_start_at_the_origin(t: ToolheadView, l: PrinterLimits)
    requires
        t.starts_from(l),
    ensures
        ({
            let zero = num(ZERO);
            let origin = Vec4 { x: zero, y: zero, z: zero, w: zero };
            &&& t.position == origin
            &&& t.base_position == origin
            &&& t.speed_factor == num(ONE) / num(SIXTY)
            &&& t.extrude_factor == num(ONE)
            &&& t.velocity == l.max_velocity
            &&& t.limits.max_velocity == l.max_velocity
            &&& t.position_modes[0] == l.initial_coordinate_mode
            &&& t.position_modes[1] == l.initial_coordinate_mode
            &&& t.position_modes[2] == l.initial_coordinate_mode
            &&& t.position_modes[3] == l.initial_extrusion_mode
            &&& t.limits.extruders@.len() > 0 ==> t.active_extruder is Some && has_key(
                t.limits.extruders@,
                t.active_extruder->0,
            )
        }),
{
    if t.limits.extruders@.len() > 0 {
        crate::table::lemma_position_is(t.limits.extruders@, t.limits.extruders@[0].0, 0);
    }
}

} // verus!
