//! What offsets, declared commands and comments do to the state of the planner.

use vstd::prelude::*;

use crate::command_laws::coded;
use crate::command_laws::undeclared;
use crate::decimal::parsed;
use crate::delay::Delay;
use crate::delay::Duration;
use crate::diagnostics::unknown_duration_of;
use crate::diagnostics::unsupported_state_command_of;
use crate::double::num;
use crate::double::Double;
use crate::double::ZERO;
use crate::gcode::named_flag;
use crate::gcode::named_number;
use crate::gcode::CommandView;
use crate::geometry::Vec4;
use crate::limits::ContractState;
use crate::limits::PositionMode;
use crate::limits::UnknownDurationCategory;
use crate::motion_laws::adding_zero_changes_nothing;
use crate::motion_transform::opt_text;
use crate::operations::OperationsView;
use crate::operations::QueuedView;
use crate::planner::adjustments_of;
use crate::planner::command_name;
use crate::planner::offsets_of;
use crate::planner::unsupported_traditional;
use crate::planner::PlannerView;
use crate::table::lookup;
use crate::text::first;
use crate::text::lemma_first_range;
use crate::text::split_once;
use crate::toolhead::Axes;
use crate::toolhead::ToolheadView;

verus! {

/// An offset replaces the one before it, and an adjustment adds to it. Absolute coordinates shift
/// by as much as the offset changes; the tool stays where it is, and so do the other axes.
pub proof fn offsets_shift_coordinates(t: ToolheadView, offsets: Axes, adjustments: Axes, i: usize)
    requires
        i < 4,
    ensures
        ({
            let r = t.with_offsets(offsets, adjustments);
            let known = t.homing_position.axis(i);
            &&& r == (ToolheadView {
                base_position: r.base_position,
                homing_position: r.homing_position,
                ..t
            })
            &&& offsets[i as int] matches Some(v) ==> r.homing_position.axis(i) == v
                && r.base_position.axis(i) == t.base_position.axis(i) + (v - known)
            &&& offsets[i as int] is None ==> (adjustments[i as int] matches Some(a)
                ==> r.homing_position.axis(i) == known + a && r.base_position.axis(i)
                == t.base_position.axis(i) + ((known + a) - known))
            &&& offsets[i as int] is None && adjustments[i as int] is None
                ==> r.homing_position.axis(i) == known && r.base_position.axis(i)
                == t.base_position.axis(i)
        }),
{
    assert(i == 0 || i == 1 || i == 2 || i == 3);
}

/// Setting the offsets that are set already changes no coordinate.
pub proof fn offsets_are_set_once(t: ToolheadView, offsets: Axes, adjustments: Axes, i: usize)
    requires
        i < 4,
        offsets[i as int] is Some,
        (offsets[i as int]->0).finite(),
        !t.with_offsets(offsets, adjustments).base_position.axis(i).nan(),
    ensures
        ({
            let once = t.with_offsets(offsets, adjustments);
            let twice = once.with_offsets(offsets, adjustments);
            twice.homing_position.axis(i) == once.homing_position.axis(i)
                && twice.base_position.axis(i).equals(once.base_position.axis(i))
        }),
{
    let once = t.with_offsets(offsets, adjustments);
    let v = offsets[i as int]->0;
    offsets_shift_coordinates(t, offsets, adjustments, i);
    offsets_shift_coordinates(once, offsets, adjustments, i);
    assert((v - v).magnitude() == 0) by {
        reveal(Double::spec_add);
        crate::rounding::lemma_two52();
    }
    adding_zero_changes_nothing(once.base_position.axis(i), v - v);
}

/// `SET_GCODE_OFFSET` reads an offset and an adjustment for each axis, and moves the tool by the
/// change if it is asked to. The rest of the state of the tool depends on the move alone.
pub proof fn offset_commands_move_on_request(
    v: PlannerView,
    params: Seq<(Seq<char>, Seq<char>)>,
    i: usize,
)
    requires
        i < 4,
    ensures
        ({
            let t = v.toolhead;
            let r = v.offset(params).toolhead;
            let offsets = [
                named_number(params, "x"@),
                named_number(params, "y"@),
                named_number(params, "z"@),
                named_number(params, "e"@),
            ];
            let adjustments = [
                named_number(params, "x_adjust"@),
                named_number(params, "y_adjust"@),
                named_number(params, "z_adjust"@),
                named_number(params, "e_adjust"@),
            ];
            let shifted = t.with_offsets(offsets, adjustments);
            let known = t.homing_position.axis(i);
            &&& !named_flag(params, "move"@) ==> r == shifted
            &&& r.homing_position == shifted.homing_position
            &&& r.base_position == shifted.base_position
            &&& named_flag(params, "move"@) && offsets[i as int] is Some ==> r.position.axis(i)
                == t.position.axis(i) + (offsets[i as int]->0 - known)
            &&& named_flag(params, "move"@) && offsets[i as int] is None
                && adjustments[i as int] is None ==> r.position.axis(i) == t.position.axis(i) + num(
                ZERO,
            )
        }),
{
    reveal(PlannerView::moved);
    reveal(ToolheadView::after_path);
    assert(i == 0 || i == 1 || i == 2 || i == 3);
    assert(offsets_of(params) == [
        named_number(params, "x"@),
        named_number(params, "y"@),
        named_number(params, "z"@),
        named_number(params, "e"@),
    ]);
    assert(adjustments_of(params) == [
        named_number(params, "x_adjust"@),
        named_number(params, "y_adjust"@),
        named_number(params, "z_adjust"@),
        named_number(params, "e_adjust"@),
    ]);
}

/// A command with a declared duration takes that time, and nothing else becomes of it but the
/// state that is declared with it.
pub proof fn declared_commands_take_their_time(v: PlannerView, c: CommandView)
    requires
        command_name(c.op) is Some,
        lookup(v.toolhead.limits.command_contracts@, command_name(c.op)->0) is Some,
        Duration::of_seconds(
            (lookup(v.toolhead.limits.command_contracts@, command_name(c.op)->0)->0).duration,
        ) is Some,
    ensures
        ({
            let name = command_name(c.op)->0;
            let contract = lookup(v.toolhead.limits.command_contracts@, name)->0;
            let duration = Duration::of_seconds(contract.duration)->0;
            let r = v.step(c);
            &&& r.operations.ops == v.operations.ops.push(
                QueuedView::Delay(
                    Delay::Contract { duration, command: name, category: contract.category },
                ),
            )
            &&& r.operations.diagnostics == v.operations.diagnostics
            &&& r.kinds == v.kinds
            &&& r.plane == v.plane
            &&& r.toolhead == v.toolhead.with_contract(contract.state)
        }),
{
    reveal(OperationsView::with_delay);
}

/// A declared state sets what it declares: the modes of the coordinates, the position, and the
/// coordinates that the position has. What it does not declare stays.
pub proof fn declared_states_are_set(t: ToolheadView, s: ContractState)
    requires
        s.speed_factor_percent is None,
        s.extrusion_factor_percent is None,
        s.active_extruder is None,
    ensures
        ({
            let r = t.with_contract(s);
            &&& r.position == match s.physical_position {
                Some(p) => p,
                None => t.position,
            }
            &&& r.position_modes == [
                mode_or(s.coordinate_mode, t.position_modes[0]),
                mode_or(s.coordinate_mode, t.position_modes[1]),
                mode_or(s.coordinate_mode, t.position_modes[2]),
                mode_or(s.extrusion_mode, t.position_modes[3]),
            ]
            &&& s.gcode_position is None ==> r.base_position == t.base_position
            &&& s.gcode_position matches Some(p) ==> r.base_position == (Vec4 {
                x: r.position.x - p.x,
                y: r.position.y - p.y,
                z: r.position.z - p.z,
                w: r.position.w - p.w * t.extrude_factor,
            })
            &&& r.speed_factor == t.speed_factor
            &&& r.extrude_factor == t.extrude_factor
            &&& r.velocity == t.velocity
            &&& r.homing_position == t.homing_position
            &&& r.active_extruder == t.active_extruder
            &&& r.limits == t.limits
        }),
{
    assert(opt_text(s.active_extruder) is None);
    let r = t.with_contract(s);
    assert(r.position_modes[0] == mode_or(s.coordinate_mode, t.position_modes[0]));
    assert(r.position_modes[1] == mode_or(s.coordinate_mode, t.position_modes[1]));
    assert(r.position_modes[2] == mode_or(s.coordinate_mode, t.position_modes[2]));
    assert(r.position_modes[3] == mode_or(s.extrusion_mode, t.position_modes[3]));
    assert(r.position_modes =~= [
        mode_or(s.coordinate_mode, t.position_modes[0]),
        mode_or(s.coordinate_mode, t.position_modes[1]),
        mode_or(s.coordinate_mode, t.position_modes[2]),
        mode_or(s.extrusion_mode, t.position_modes[3]),
    ]);
}

/// The mode that is declared, or the one before.
pub open spec fn mode_or(declared: Option<PositionMode>, known: PositionMode) -> PositionMode {
    match declared {
        Some(mode) => mode,
        None => known,
    }
}

/// A comment can add time: a number of seconds, and after a space what the time is for.
pub proof fn comments_can_add_time(v: PlannerView, amount: Seq<char>, purpose: Seq<char>)
    requires
        forall|k: int| 0 <= k < amount.len() ==> amount[k] != ' ',
        parsed(amount) is Some,
        Duration::of_seconds(parsed(amount)->0) is Some,
    ensures
        ({
            let duration = Duration::of_seconds(parsed(amount)->0)->0;
            let plain = v.comment_line("ESTIMATOR_ADD_TIME "@ + amount);
            let named = v.comment_line("ESTIMATOR_ADD_TIME "@ + amount + seq![' '] + purpose);
            let kind = v.kinds.kind_of(purpose);
            &&& plain.operations.ops == v.operations.ops.push(
                QueuedView::Delay(Delay::EstimatorAddition { duration, kind: None }),
            )
            &&& plain.kinds == v.kinds
            &&& named.operations.ops == v.operations.ops.push(
                QueuedView::Delay(Delay::EstimatorAddition { duration, kind: Some(kind) }),
            )
            &&& named.kinds == v.kinds.knowing(purpose)
            &&& plain.toolhead == v.toolhead
            &&& named.toolhead == v.toolhead
        }),
{
    reveal(PlannerView::comment_line);
    reveal(OperationsView::with_delay);
    reveal_strlit("TYPE:");
    reveal_strlit("ESTIMATOR_ADD_TIME ");
    let prefix = "ESTIMATOR_ADD_TIME "@;
    let rest = amount + seq![' '] + purpose;
    let a = prefix + amount;
    let b = prefix + amount + seq![' '] + purpose;
    assert(b == prefix + rest);
    assert(prefix.len() == 19 && prefix[0] == 'E');
    assert("TYPE:"@[0] == 'T' && "TYPE:"@.len() == 5);
    assert(a[0] == 'E' && b[0] == 'E');
    assert(a.take(5)[0] == 'E' && b.take(5)[0] == 'E');
    assert(!crate::text::is_space('E'));
    assert(crate::text::trim_start(a) == a && crate::text::trim_start(b) == b);
    assert(a.take(19) == prefix && b.take(19) == prefix);
    assert(a.skip(19) == amount && b.skip(19) == rest);
    lemma_first_range(amount, ' ', 0);
    assert(first(amount, ' ') == amount.len());
    assert(split_once(amount, ' ') is None);
    lemma_first_range(rest, ' ', 0);
    let n = amount.len() as int;
    assert(rest[n] == ' ');
    assert(forall|k: int| 0 <= k < n ==> rest[k] == amount[k]);
    assert(first(rest, ' ') == n);
    assert(rest.take(n) == amount && rest.skip(n + 1) == purpose);
}

/// A comment that names a kind names the moves that follow it, and adds no time.
pub proof fn comments_can_name_kinds(v: PlannerView, name: Seq<char>)
    ensures
        ({
            let r = v.comment_line("TYPE:"@ + name);
            &&& r.kinds.current == Some(v.kinds.kind_of(name))
            &&& r.kinds.names == v.kinds.knowing(name).names
            &&& r.toolhead == v.toolhead
            &&& r.operations == v.operations.with_fill()
        }),
{
    reveal(PlannerView::comment_line);
    let c = "TYPE:"@ + name;
    let n = "TYPE:"@.len() as int;
    assert(c.take(n) == "TYPE:"@);
    assert(c.skip(n) == name);
}

/// Homing, waiting for temperatures and changing filament take a time that is not known. They are
/// reported and noted as such, unless their duration is declared, and change nothing else.
pub proof fn waits_are_of_unknown_length(v: PlannerView, c: CommandView)
    requires
        undeclared(v, c),
    ensures
        ({
            let r = v.step(c);
            let category = if coded(c, 'G', 28) {
                UnknownDurationCategory::Homing
            } else if coded(c, 'M', 600) {
                UnknownDurationCategory::FilamentChange
            } else {
                UnknownDurationCategory::TemperatureWait
            };
            coded(c, 'G', 28) || coded(c, 'M', 600) || coded(c, 'M', 109) || coded(c, 'M', 190)
                ==> {
                &&& r.operations.ops == v.operations.ops.push(
                    QueuedView::Delay(
                        Delay::Unknown { command: command_name(c.op)->0, category },
                    ),
                )
                &&& r.operations.diagnostics.contains(
                    unknown_duration_of(command_name(c.op)->0),
                )
                &&& r.toolhead == v.toolhead
                &&& r.kinds == v.kinds
            }
        }),
{
    reveal(OperationsView::with_delay);
    reveal(OperationsView::with_diagnostic);
    let d = unknown_duration_of(command_name(c.op)->0);
    let noted = if unsupported_traditional(c.op) {
        v.with_diagnostic(unsupported_state_command_of(command_name(c.op)->0))
    } else {
        v
    };
    let list = noted.operations.diagnostics;
    assert(list.push(d).last() == d);
    assert(list.push(d).contains(d));
}

} // verus!
