//! What holds of planning as a whole.

use vstd::prelude::*;

use crate::delay::Delay;
use crate::diagnostics::unsupported_kinematics_of;
use crate::diagnostics::unsupported_motion_transform_of;
use crate::diagnostics::unsupported_state_command_of;
use crate::diagnostics::PlannerDiagnostic;
use crate::double::Double;
use crate::gcode::CommandView;
use crate::gcode::OperationView;
use crate::geometry::Vec4;
use crate::kinds::texts;
use crate::kinematics::Kinematics;
use crate::kinematics::KinematicsChecker;
use crate::limits::PrinterLimits;
use crate::lookahead::SequenceView;
use crate::operations::held;
use crate::operations::weight;
use crate::operations::OperationsView;
use crate::operations::QueuedView;
use crate::planner::command_name;
use crate::planner::delay_of;
use crate::planner::initial_reports;
use crate::planner::transform_reports;
use crate::planner::unsupported_extended;
use crate::planner::unsupported_traditional;
use crate::planner::PlannerView;
use crate::planning_move::Kind;
use crate::planning_move::PlanningMove;

verus! {

/// Whether reports were only added, and none twice.
pub open spec fn reports_grew(
    a: Seq<PlannerDiagnostic<Seq<char>>>,
    b: Seq<PlannerDiagnostic<Seq<char>>>,
) -> bool {
    &&& a.len() <= b.len()
    &&& b.take(a.len() as int) == a
    &&& a.no_duplicates() ==> b.no_duplicates()
}

/// Whether the run of moves at the end of a queue has so many more operations than before, the
/// rest of the queue is as long as before, and no report was lost.
pub open spec fn grew(a: OperationsView, b: OperationsView, n: nat) -> bool {
    &&& held(b.ops) == held(a.ops) + n
    &&& b.run_length() == a.run_length() + n
    &&& reports_grew(a.diagnostics, b.diagnostics)
}

/// Whether a queue has more operations than before, which are those of the run at its end or a
/// single one, and no report was lost.
pub open spec fn counted(a: OperationsView, b: OperationsView) -> bool {
    &&& held(b.ops) - held(a.ops) == (if b.run_length() > a.run_length() {
        b.run_length() - a.run_length()
    } else {
        1
    })
    &&& reports_grew(a.diagnostics, b.diagnostics)
}

proof fn lemma_same(v: OperationsView)
    ensures
        grew(v, v, 0),
{
    assert(v.diagnostics.take(v.diagnostics.len() as int) == v.diagnostics);
}

proof fn lemma_chain(a: OperationsView, b: OperationsView, c: OperationsView, m: nat, n: nat)
    requires
        grew(a, b, m),
        grew(b, c, n),
    ensures
        grew(a, c, m + n),
{
    let k = a.diagnostics.len() as int;
    assert(c.diagnostics.take(k) == c.diagnostics.take(b.diagnostics.len() as int).take(k));
}

/// A queue counts as grown from an earlier state that differs in reports alone.
proof fn lemma_then(a: OperationsView, b: OperationsView, c: OperationsView)
    requires
        grew(a, b, 0),
        counted(b, c),
    ensures
        counted(a, c),
{
    let k = a.diagnostics.len() as int;
    assert(c.diagnostics.take(k) == c.diagnostics.take(b.diagnostics.len() as int).take(k));
}

proof fn lemma_pushed(ops: Seq<QueuedView>, op: QueuedView)
    ensures
        held(ops.push(op)) == held(ops) + weight(op),
{
    assert(ops.push(op).drop_last() == ops);
}

proof fn lemma_delay(v: OperationsView, d: Delay<Seq<char>>)
    ensures
        counted(v, v.with_delay(d)),
{
    reveal(OperationsView::with_delay);
    lemma_pushed(v.ops, QueuedView::Delay(d));
    lemma_same(v);
}

proof fn lemma_report(v: OperationsView, d: PlannerDiagnostic<Seq<char>>)
    ensures
        grew(v, v.with_diagnostic(d), 0),
        v.with_diagnostic(d).diagnostics.contains(d),
        v.with_diagnostic(d).ops == v.ops,
{
    reveal(OperationsView::with_diagnostic);
    lemma_same(v);
    if !v.diagnostics.contains(d) {
        let b = v.diagnostics.push(d);
        assert(b.take(v.diagnostics.len() as int) == v.diagnostics);
        assert(b[v.diagnostics.len() as int] == d);
        if v.diagnostics.no_duplicates() {
            assert forall|i: int, j: int|
                0 <= i < b.len() && 0 <= j < b.len() && i != j implies b[i] != b[j] by {
                if i == v.diagnostics.len() {
                    assert(v.diagnostics.contains(v.diagnostics[j]));
                }
                if j == v.diagnostics.len() {
                    assert(v.diagnostics.contains(v.diagnostics[i]));
                }
            }
        }
    }
}

proof fn lemma_run(v: OperationsView, run: SequenceView)
    ensures
        held(v.with_run(run).ops) == held(v.ops) + run.ops.len() - (match v.open_run() {
            Some(r) => r.ops.len() as int,
            None => 0,
        }),
        v.with_run(run).diagnostics == v.diagnostics,
        v.with_run(run).run_length() == run.ops.len(),
{
    if v.open_run() is Some {
        lemma_pushed(v.ops.drop_last(), QueuedView::Moves(run));
    } else {
        lemma_pushed(v.ops, QueuedView::Moves(run));
    }
}

proof fn lemma_fill(v: OperationsView)
    ensures
        counted(v, v.with_fill()),
{
    reveal(OperationsView::with_fill);
    lemma_same(v);
    match v.open_run() {
        Some(r) => {
            lemma_run(
                v,
                SequenceView {
                    ops: r.ops.push(crate::lookahead::SequenceOperation::Fill),
                    ..r
                },
            );
        },
        None => {
            lemma_pushed(v.ops, QueuedView::Fill);
        },
    }
}

proof fn lemma_boundary(v: OperationsView)
    ensures
        counted(v, v.with_boundary()),
{
    reveal(OperationsView::with_boundary);
    lemma_same(v);
    match v.open_run() {
        Some(r) => {
            lemma_run(v, r.processed(false));
            lemma_pushed(v.with_run(r.processed(false)).ops, QueuedView::Fill);
        },
        None => {
            lemma_pushed(v.ops, QueuedView::Fill);
        },
    }
}

proof fn lemma_physical_move(v: OperationsView, m: PlanningMove, limits: PrinterLimits)
    ensures
        grew(v, v.with_physical_move(m, limits), 1),
{
    let a = match m.extruder_violation {
        Some(x) => {
            let d = crate::diagnostics::invalid_extrusion_of(
                x,
                m,
                OperationsView::tool_of(m, limits),
            );
            lemma_report(v, d);
            v.with_diagnostic(d)
        },
        None => {
            lemma_same(v);
            v
        },
    };
    let b = match limits.kinematics.violation(m) {
        Some(x) => {
            let d = crate::diagnostics::move_out_of_range_of(x);
            lemma_report(a, d);
            a.with_diagnostic(d)
        },
        None => {
            lemma_same(a);
            a
        },
    };
    lemma_chain(v, a, b, 0, 0);
    let limited = if limits.kinematics.violation(m) is Some {
        m
    } else {
        limits.kinematics.restricted(m)
    };
    let run = match b.open_run() {
        Some(r) => r,
        None => SequenceView::empty(),
    };
    lemma_run(b, run.with_move(limited, limits));
    lemma_same(b);
    lemma_chain(v, b, b.with_run(run.with_move(limited, limits)), 0, 1);
}

proof fn lemma_physical_moves(
    v: OperationsView,
    moves: Seq<PlanningMove>,
    limits: PrinterLimits,
    i: nat,
)
    ensures
        grew(v, v.with_physical_moves(moves, limits, i as int), i),
    decreases i,
{
    if i == 0 {
        lemma_same(v);
    } else {
        let k = (i - 1) as nat;
        lemma_physical_moves(v, moves, limits, k);
        let b = v.with_physical_moves(moves, limits, k as int);
        lemma_physical_move(b, moves[k as int], limits);
        lemma_chain(v, b, b.with_physical_move(moves[k as int], limits), k, 1);
    }
}

/// The number of moves that a logical move is led through.
pub open spec fn pieces(v: PlannerView, target: Vec4) -> nat {
    v.toolhead.transforms.path(v.toolhead.position, target).len()
}

proof fn lemma_moved(v: PlannerView, target: Vec4, velocity: Option<Double>, kind: Option<Kind>)
    ensures
        grew(v.operations, v.moved(target, velocity, kind).operations, pieces(v, target)),
        counted(v.operations, v.moved(target, velocity, kind).operations),
        pieces(v, target) >= 1,
{
    reveal(PlannerView::moved);
    reveal(OperationsView::with_logical_move);
    let m = PlanningMove { kind, ..v.toolhead.move_to(target, velocity) };
    let w = v.with_toolhead(v.toolhead.moved_to(target));
    let moves = w.toolhead.physical_moves(m);
    assert(m.start == v.toolhead.position && m.end == target);
    lemma_physical_moves(v.operations, moves, w.toolhead.limits, moves.len());
}

proof fn lemma_feedrate(v: PlannerView, feedrate: Option<Double>)
    ensures
        grew(v.operations, v.with_feedrate(feedrate).operations, 0),
{
    lemma_same(v.operations);
    if let Some(f) = feedrate {
        lemma_report(v.operations, crate::diagnostics::invalid_move_speed_of("MOVE"@));
    }
}

proof fn lemma_linear_move(
    v: PlannerView,
    axes: crate::toolhead::Axes,
    feedrate: Option<Double>,
    comment: Option<Seq<char>>,
)
    ensures
        counted(v.operations, v.linear_move(axes, feedrate, comment).operations),
{
    reveal(PlannerView::linear_move);
    let fed = v.with_feedrate(feedrate);
    let kind = fed.kinds.comment_kind(comment);
    let noted = fed.noting_comment(comment);
    lemma_feedrate(v, feedrate);
    lemma_moved(noted, noted.toolhead.target(axes), None, kind);
    lemma_fill(noted.operations);
    lemma_then(
        v.operations,
        noted.operations,
        v.linear_move(axes, feedrate, comment).operations,
    );
}

/// The number of moves that the first `i` pieces of an arc are led through.
pub open spec fn arc_pieces(v: PlannerView, points: Seq<Vec4>, kind: Option<Kind>, i: int) -> nat
    decreases i,
{
    if i <= 0 {
        0
    } else {
        arc_pieces(v, points, kind, i - 1) + pieces(v.arc_moves(points, kind, i - 1), points[i - 1])
    }
}

proof fn lemma_arc_moves(v: PlannerView, points: Seq<Vec4>, kind: Option<Kind>, i: int)
    requires
        0 <= i,
    ensures
        grew(
            v.operations,
            v.arc_moves(points, kind, i).operations,
            arc_pieces(v, points, kind, i),
        ),
        i > 0 ==> arc_pieces(v, points, kind, i) >= 1,
    decreases i,
{
    if i == 0 {
        lemma_same(v.operations);
    } else {
        lemma_arc_moves(v, points, kind, i - 1);
        let b = v.arc_moves(points, kind, i - 1);
        lemma_moved(b, points[i - 1], None, kind);
        lemma_chain(
            v.operations,
            b.operations,
            b.moved(points[i - 1], None, kind).operations,
            arc_pieces(v, points, kind, i - 1),
            pieces(b, points[i - 1]),
        );
    }
}

proof fn lemma_arc(
    v: PlannerView,
    points: Seq<Vec4>,
    feedrate: Option<Double>,
    comment: Option<Seq<char>>,
)
    ensures
        counted(v.operations, v.arc(points, feedrate, comment).operations),
{
    reveal(PlannerView::arc);
    let fed = v.with_feedrate(feedrate);
    let kind = fed.kinds.comment_kind(comment);
    let noted = fed.noting_comment(comment);
    lemma_feedrate(v, feedrate);
    lemma_fill(noted.operations);
    lemma_arc_moves(noted, points, kind, points.len() as int);
    lemma_then(v.operations, noted.operations, v.arc(points, feedrate, comment).operations);
}

/// Two moves one after the other.
proof fn lemma_two_moves(
    a: PlannerView,
    p: Vec4,
    u: Option<Double>,
    q: Vec4,
    w: Option<Double>,
    kind: Option<Kind>,
)
    ensures
        counted(a.operations, a.moved(p, u, kind).operations),
        counted(a.operations, a.moved(p, u, kind).moved(q, w, kind).operations),
{
    let b = a.moved(p, u, kind);
    lemma_moved(a, p, u, kind);
    lemma_moved(b, q, w, kind);
    lemma_chain(
        a.operations,
        b.operations,
        b.moved(q, w, kind).operations,
        pieces(a, p),
        pieces(b, q),
    );
}

proof fn lemma_firmware_retraction(v: PlannerView, back: bool)
    ensures
        counted(v.operations, v.firmware_retraction(back).operations),
{
    reveal(PlannerView::firmware_retraction);
    lemma_fill(v.operations);
    match (v.retraction, v.toolhead.limits.firmware_retraction) {
        (Some(state), Some(o)) => {
            if state.retracted == back {
            } else if back {
                let kind = Some(v.kinds.kind_of("Firmware retract"@));
                let a = PlannerView {
                    retraction: Some(crate::planner::FirmwareRetractionState { retracted: true }),
                    ..v.knowing_kind("Firmware retract"@)
                };
                let p = a.toolhead.relative().target(
                    crate::planner::filament(o.retract_length.negated()),
                );
                let b = a.moved(p, Some(o.retract_speed), kind);
                let q = b.toolhead.relative().target(crate::planner::height(o.lift_z));
                lemma_two_moves(a, p, Some(o.retract_speed), q, None, kind);
            } else {
                let kind = Some(v.kinds.kind_of("Firmware unretract"@));
                let a = PlannerView {
                    retraction: Some(crate::planner::FirmwareRetractionState { retracted: false }),
                    ..v.knowing_kind("Firmware unretract"@)
                };
                let p = a.toolhead.relative().target(crate::planner::height(o.lift_z.negated()));
                let forward = crate::planner::filament(o.retract_length + o.unretract_extra_length);
                if o.lift_z > crate::double::num(crate::double::ZERO) {
                    let b = a.moved(p, None, kind);
                    let q = b.toolhead.relative().target(forward);
                    lemma_two_moves(a, p, None, q, Some(o.unretract_speed), kind);
                } else {
                    let q = a.toolhead.relative().target(forward);
                    lemma_moved(a, q, Some(o.unretract_speed), kind);
                }
            }
        },
        _ => {
            lemma_reported_fill(
                v,
                unsupported_state_command_of(
                    if back {
                        "g10"@
                    } else {
                        "g11"@
                    },
                ),
            );
        },
    }
}

proof fn lemma_comment_line(v: PlannerView, comment: Seq<char>)
    ensures
        counted(v.operations, v.comment_line(comment).operations),
{
    reveal(PlannerView::comment_line);
    lemma_fill(v.operations);
    if let Some(rest) = crate::text::after_prefix(crate::text::trim_start(comment), "ESTIMATOR_ADD_TIME "@) {
        let amount = match crate::text::split_once(rest, ' ') {
            Some((a, _)) => a,
            None => rest,
        };
        let description = match crate::text::split_once(rest, ' ') {
            Some((_, b)) => Some(b),
            None => None,
        };
        if let Some(seconds) = crate::decimal::parsed(amount) {
            let kind = match description {
                Some(b) => Some(v.kinds.kind_of(b)),
                None => None,
            };
            if let Some(duration) = crate::delay::Duration::of_seconds(seconds) {
                lemma_delay(v.operations, Delay::EstimatorAddition { duration, kind });
            }
        }
    }
}

proof fn lemma_reported_fill(v: PlannerView, d: PlannerDiagnostic<Seq<char>>)
    ensures
        counted(v.operations, v.with_diagnostic(d).with_fill().operations),
        v.with_diagnostic(d).with_fill().operations.diagnostics.contains(d),
{
    lemma_report(v.operations, d);
    let w = v.with_diagnostic(d);
    lemma_fill(w.operations);
    lemma_then(v.operations, w.operations, w.with_fill().operations);
    let i = w.operations.diagnostics.index_of(d);
    assert(w.operations.diagnostics[i] == d);
    assert(w.with_fill().operations.diagnostics.take(
        w.operations.diagnostics.len() as int,
    )[i] == d);
    assert(w.with_fill().operations.diagnostics[i] == d);
}

proof fn lemma_checking(v: PlannerView, requested: bool, speed: Option<Double>, name: Seq<char>)
    ensures
        grew(v.operations, v.checking_speed(requested, speed, name).operations, 0),
{
    lemma_same(v.operations);
    lemma_report(v.operations, crate::diagnostics::invalid_move_speed_of(name));
}

proof fn lemma_offset(v: PlannerView, params: Seq<(Seq<char>, Seq<char>)>)
    ensures
        counted(v.operations, v.offset(params).operations),
{
    let requested = crate::gcode::named_flag(params, "move"@);
    let speed = crate::gcode::named_number(params, "move_speed"@);
    let checked = v.checking_speed(requested, speed, "SET_GCODE_OFFSET"@);
    lemma_checking(v, requested, speed, "SET_GCODE_OFFSET"@);
    let t = checked.toolhead;
    let a = crate::planner::offsets_of(params);
    let b = crate::planner::adjustments_of(params);
    let shifted = checked.with_toolhead(t.with_offsets(a, b));
    lemma_fill(shifted.operations);
    lemma_moved(
        shifted,
        t.position.plus(t.offset_deltas(a, b)),
        crate::planner::usable_speed(speed),
        None,
    );
    lemma_then(v.operations, shifted.operations, v.offset(params).operations);
}

proof fn lemma_restore(v: PlannerView, params: Seq<(Seq<char>, Seq<char>)>)
    ensures
        counted(v.operations, v.restore(params).operations),
{
    let name = crate::planner::text_or(params, "name"@, "default"@);
    let requested = crate::gcode::named_flag(params, "move"@);
    let speed = crate::gcode::named_number(params, "move_speed"@);
    match crate::table::lookup(v.toolhead.saved_states, name) {
        None => {
            lemma_reported_fill(v, crate::diagnostics::unknown_saved_state_of(name));
        },
        Some(state) => {
            lemma_checking(v, requested, speed, "RESTORE_GCODE_STATE"@);
            let checked = v.checking_speed(requested, speed, "RESTORE_GCODE_STATE"@);
            let restored = checked.with_toolhead(checked.toolhead.restored(state));
            lemma_fill(restored.operations);
            lemma_moved(
                restored,
                restored.toolhead.restore_target(state),
                crate::planner::usable_speed(speed),
                None,
            );
            lemma_then(v.operations, restored.operations, v.restore(params).operations);
        },
    }
}

proof fn lemma_set_skew(v: PlannerView, params: Seq<(Seq<char>, Seq<char>)>, tangents: [Option<Double>; 3])
    ensures
        grew(v.operations, v.set_skew(params, tangents).operations, 0),
{
    let d = unsupported_state_command_of("set_skew"@);
    let t = v.toolhead.transforms;
    lemma_same(v.operations);
    let (a, xy) = v.skew_plane(t.skew.xy, params, "xy"@, tangents[0]);
    let (b, xz) = a.skew_plane(t.skew.xz, params, "xz"@, tangents[1]);
    let (c, yz) = b.skew_plane(t.skew.yz, params, "yz"@, tangents[2]);
    lemma_report(v.operations, d);
    lemma_same(a.operations);
    lemma_report(a.operations, d);
    lemma_same(b.operations);
    lemma_report(b.operations, d);
    lemma_chain(v.operations, a.operations, b.operations, 0, 0);
    lemma_chain(v.operations, b.operations, c.operations, 0, 0);
}

proof fn lemma_extended(
    v: PlannerView,
    command: Seq<char>,
    params: Seq<(Seq<char>, Seq<char>)>,
    tangents: [Option<Double>; 3],
)
    ensures
        counted(v.operations, v.extended(command, params, tangents).operations),
{
    reveal(PlannerView::extended);
    lemma_same(v.operations);
    lemma_fill(v.operations);
    if command == "activate_extruder"@ {
        lemma_boundary(v.operations);
        lemma_reported_fill(
            v,
            crate::diagnostics::unknown_extruder_of(
                crate::planner::text_or(params, "extruder"@, "extruder"@),
            ),
        );
    } else if command == "set_gcode_offset"@ {
        lemma_offset(v, params);
    } else if command == "restore_gcode_state"@ {
        lemma_restore(v, params);
    } else if command == "bed_mesh_profile"@ {
        if let Some(name) = crate::gcode::named_text(params, "load"@) {
            lemma_reported_fill(
                v,
                crate::diagnostics::unknown_profile_of("BED_MESH_PROFILE"@, name),
            );
        }
        lemma_reported_fill(v, unsupported_state_command_of("bed_mesh_profile"@));
    } else if command == "set_skew"@ {
        lemma_set_skew(v, params, tangents);
        let skewed = v.set_skew(params, tangents);
        lemma_fill(skewed.operations);
        lemma_then(v.operations, skewed.operations, skewed.with_fill().operations);
    } else if command == "skew_profile"@ {
        if let Some(name) = crate::gcode::named_text(params, "load"@) {
            lemma_reported_fill(v, crate::diagnostics::unknown_profile_of("SKEW_PROFILE"@, name));
        }
        lemma_reported_fill(v, unsupported_state_command_of("skew_profile"@));
    } else if unsupported_extended(command) {
        lemma_reported_fill(v, unsupported_state_command_of(command));
    } else {
        lemma_unknown(
            v,
            crate::text::upper(command),
            crate::limits::UnknownDurationCategory::CommandOrMacro,
        );
    }
}

proof fn lemma_unknown(
    v: PlannerView,
    command: Seq<char>,
    category: crate::limits::UnknownDurationCategory,
)
    ensures
        counted(v.operations, v.with_unknown(command, category).operations),
        v.with_unknown(command, category).operations.diagnostics.contains(
            crate::diagnostics::unknown_duration_of(command),
        ),
{
    let d = crate::diagnostics::unknown_duration_of(command);
    lemma_report(v.operations, d);
    let w = v.with_diagnostic(d);
    lemma_delay(w.operations, Delay::Unknown { command, category });
    lemma_then(v.operations, w.operations, v.with_unknown(command, category).operations);
    let u = v.with_unknown(command, category);
    let i = w.operations.diagnostics.index_of(d);
    assert(w.operations.diagnostics[i] == d);
    assert(u.operations.diagnostics.take(w.operations.diagnostics.len() as int)[i] == d);
    assert(u.operations.diagnostics[i] == d);
}

proof fn lemma_plain_step(v: PlannerView, c: CommandView)
    ensures
        counted(v.operations, v.plain_step(c).operations),
{
    lemma_fill(v.operations);
    lemma_boundary(v.operations);
    match c.op {
        OperationView::Move { x, y, z, e, f } => {
            lemma_linear_move(v, [x, y, z, e], f, c.comment);
        },
        OperationView::Traditional { letter, code, params } => {
            reveal(PlannerView::traditional);
            lemma_arc(v, c.arc, crate::gcode::lettered_number(params, 'F'), c.comment);
            lemma_firmware_retraction(v, true);
            lemma_firmware_retraction(v, false);
            lemma_fill(v.traditional(letter, code, params).operations);
        },
        OperationView::Extended { command, params } => {
            lemma_extended(v, command, params, c.skew);
        },
        OperationView::Nop => {
            if let Some(comment) = c.comment {
                lemma_comment_line(v, comment);
            }
        },
    }
}

/// A command adds moves to the run at the end of the queue, or a single operation.
pub proof fn lemma_step_counted(v: PlannerView, c: CommandView)
    ensures
        counted(v.operations, v.step(c).operations),
{
    let name = command_name(c.op);
    lemma_same(v.operations);
    match v.contract_for(c.op) {
        Some((contract, duration)) => {
            lemma_delay(
                v.operations,
                Delay::Contract { duration, command: name->0, category: contract.category },
            );
        },
        None => {
            let d = unsupported_state_command_of(name->0);
            lemma_report(v.operations, d);
            let noted = if unsupported_traditional(c.op) {
                v.with_diagnostic(d)
            } else {
                v
            };
            match delay_of(c.op) {
                Some(Delay::Unknown { command, category }) => {
                    lemma_unknown(noted, command, category);
                },
                Some(delay) => {
                    lemma_delay(noted.operations, delay);
                },
                None => {
                    lemma_plain_step(noted, c);
                },
            }
            lemma_then(v.operations, noted.operations, v.step(c).operations);
        },
    }
}

/// A command never takes back a report, and no report is made twice.
pub proof fn reports_stay_and_are_distinct(v: PlannerView, c: CommandView)
    ensures
        ({
            let before = v.operations.diagnostics;
            let after = v.step(c).operations.diagnostics;
            &&& before.len() <= after.len()
            &&& after.take(before.len() as int) == before
            &&& before.no_duplicates() ==> after.no_duplicates()
        }),
{
    lemma_step_counted(v, c);
}

/// Whether a command changes the state in a way that is modelled, or waits.
pub open spec fn is_modelled(command: Seq<char>) -> bool {
    command == "set_velocity_limit"@
        || command == "set_retraction"@
        || command == "activate_extruder"@
        || command == "set_gcode_offset"@
        || command == "save_gcode_state"@
        || command == "restore_gcode_state"@
        || command == "bed_mesh_clear"@
        || command == "bed_mesh_profile"@
        || command == "bed_mesh_offset"@
        || command == "set_skew"@
        || command == "skew_profile"@
        || command == "temperature_wait"@
}

/// The length and the first character of a name.
pub open spec fn opening(name: Seq<char>, n: nat, c: char) -> bool {
    name.len() == n && name[0] == c
}

proof fn lemma_modelled_names(command: Seq<char>)
    ensures
        is_modelled(command) ==> (opening(command, 8, 's')
            || opening(command, 12, 's')
            || opening(command, 14, 'b')
            || opening(command, 14, 's')
            || opening(command, 15, 'b')
            || opening(command, 16, 'b')
            || opening(command, 16, 's')
            || opening(command, 16, 't')
            || opening(command, 17, 'a')
            || opening(command, 18, 's')
            || opening(command, 19, 'r')),
{
    reveal_strlit("set_velocity_limit");
    reveal_strlit("set_retraction");
    reveal_strlit("activate_extruder");
    reveal_strlit("set_gcode_offset");
    reveal_strlit("save_gcode_state");
    reveal_strlit("restore_gcode_state");
    reveal_strlit("bed_mesh_clear");
    reveal_strlit("bed_mesh_profile");
    reveal_strlit("bed_mesh_offset");
    reveal_strlit("set_skew");
    reveal_strlit("skew_profile");
    reveal_strlit("temperature_wait");
}

proof fn lemma_unmodelled_names(command: Seq<char>)
    ensures
        unsupported_extended(command) ==> (opening(command, 12, 't')
            || opening(command, 14, 'e')
            || opening(command, 17, 's')
            || opening(command, 18, 'b')
            || opening(command, 18, 'e')
            || opening(command, 20, 'e')
            || opening(command, 20, 's')
            || opening(command, 21, 'e')
            || opening(command, 22, 's')
            || opening(command, 24, 's')
            || opening(command, 27, 'r')),
{
    reveal_strlit("restore_dual_carriage_state");
    reveal_strlit("save_dual_carriage_state");
    reveal_strlit("set_dual_carriage");
    reveal_strlit("set_kinematic_position");
    reveal_strlit("bed_tilt_calibrate");
    reveal_strlit("set_z_thermal_adjust");
    reveal_strlit("tuning_tower");
    reveal_strlit("exclude_object");
    reveal_strlit("exclude_object_define");
    reveal_strlit("exclude_object_start");
    reveal_strlit("exclude_object_end");
}

proof fn lemma_unmodelled(
    v: PlannerView,
    command: Seq<char>,
    params: Seq<(Seq<char>, Seq<char>)>,
    tangents: [Option<Double>; 3],
)
    requires
        unsupported_extended(command),
        !is_modelled(command),
    ensures
        v.extended(command, params, tangents) == v.with_diagnostic(
            unsupported_state_command_of(command),
        ).with_fill(),
{
    reveal(PlannerView::extended);
}

/// A named command that changes the state in a way that is not modelled is reported.
pub proof fn unmodelled_commands_are_reported(
    v: PlannerView,
    c: CommandView,
    command: Seq<char>,
    params: Seq<(Seq<char>, Seq<char>)>,
)
    requires
        c.op == (OperationView::Extended { command, params }),
        unsupported_extended(command),
        v.contract_for(c.op) is None,
    ensures
        v.step(c).operations.diagnostics.contains(unsupported_state_command_of(command)),
{
    lemma_modelled_names(command);
    lemma_unmodelled_names(command);
    assert(!is_modelled(command));
    lemma_unmodelled(v, command, params, c.skew);
    lemma_reported_fill(v, unsupported_state_command_of(command));
}

/// A machine that is not modelled, and every transform that is active and not modelled, is
/// reported before the first command.
pub proof fn unmodelled_machines_are_reported(limits: PrinterLimits, i: int)
    ensures
        limits.kinematics matches Kinematics::Unsupported { backend, reason }
            ==> initial_reports(limits).diagnostics.contains(
            unsupported_kinematics_of(backend@, reason@),
        ),
        0 <= i < limits.motion_transforms.unsupported_active@.len() ==> initial_reports(
            limits,
        ).diagnostics.contains(
            unsupported_motion_transform_of(limits.motion_transforms.unsupported_active@[i]@),
        ),
        initial_reports(limits).ops.len() == 0,
{
    let empty = OperationsView { ops: Seq::empty(), diagnostics: Seq::empty() };
    let names = texts(limits.motion_transforms.unsupported_active@);
    let n = names.len() as int;
    match limits.kinematics {
        Kinematics::Unsupported { backend, reason } => {
            let d = unsupported_kinematics_of(backend@, reason@);
            lemma_report(empty, d);
            lemma_transform_reports(empty.with_diagnostic(d), names, n, d);
            if 0 <= i < n {
                lemma_transform_named(empty.with_diagnostic(d), names, n, i);
            }
        },
        _ => {
            lemma_transform_reports(empty, names, n, unsupported_motion_transform_of(Seq::empty()));
            if 0 <= i < n {
                lemma_transform_named(empty, names, n, i);
            }
        },
    }
}

proof fn lemma_transform_reports(
    v: OperationsView,
    names: Seq<Seq<char>>,
    i: int,
    d: PlannerDiagnostic<Seq<char>>,
)
    ensures
        v.diagnostics.contains(d) ==> transform_reports(v, names, i).diagnostics.contains(d),
        transform_reports(v, names, i).ops == v.ops,
    decreases i,
{
    if i > 0 {
        lemma_transform_reports(v, names, i - 1, d);
        let w = transform_reports(v, names, i - 1);
        let e = unsupported_motion_transform_of(names[i - 1]);
        lemma_report(w, e);
        if w.diagnostics.contains(d) {
            let k = w.diagnostics.index_of(d);
            assert(w.with_diagnostic(e).diagnostics.take(w.diagnostics.len() as int)[k] == d);
            assert(w.with_diagnostic(e).diagnostics[k] == d);
        }
    }
}

proof fn lemma_transform_named(v: OperationsView, names: Seq<Seq<char>>, n: int, i: int)
    requires
        0 <= i < n,
    ensures
        transform_reports(v, names, n).diagnostics.contains(
            unsupported_motion_transform_of(names[i]),
        ),
    decreases n,
{
    let w = transform_reports(v, names, n - 1);
    let e = unsupported_motion_transform_of(names[n - 1]);
    lemma_report(w, e);
    if i < n - 1 {
        lemma_transform_named(v, names, n - 1, i);
        let d = unsupported_motion_transform_of(names[i]);
        let k = w.diagnostics.index_of(d);
        assert(w.with_diagnostic(e).diagnostics.take(w.diagnostics.len() as int)[k] == d);
        assert(w.with_diagnostic(e).diagnostics[k] == d);
    }
}

} // verus!
