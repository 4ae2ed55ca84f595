//! What commands change of the transforms and of firmware retraction.

use vstd::prelude::*;

use crate::diagnostics::unknown_profile_of;
use crate::double::num;
use crate::double::Double;
use crate::double::ZERO;
use crate::gcode::named_flag;
use crate::gcode::named_number;
use crate::gcode::named_text;
use crate::imports::with_active_skew;
use crate::limits::FirmwareRetractionOptions;
use crate::motion_transform::skew_cosine;
use crate::motion_transform::skew_profile;
use crate::motion_transform::SkewConfigView;
use crate::motion_transform::SkewFactors;
use crate::motion_transform::TransformView;
use crate::operations::OperationsView;
use crate::planner::skew_request;
use crate::planner::PlannerView;
use crate::planning_move::PlanningMove;
use crate::report::DumpMovesState;
use crate::settings::object_in;
use crate::settings::text_in;
use crate::settings::SettingsView;
use crate::table::has_key;

verus! {

/// The number that is given, or the one before.
pub open spec fn given_or(given: Option<Double>, known: Double) -> Double {
    match given {
        Some(v) => v,
        None => known,
    }
}

/// `SET_RETRACTION` changes the options that it names and keeps the others. Filament counts as
/// not retracted from then on.
pub proof fn retraction_changes_as_named(
    v: PlannerView,
    params: Seq<(Seq<char>, Seq<char>)>,
    o: FirmwareRetractionOptions,
)
    requires
        v.retraction is Some,
        v.toolhead.limits.firmware_retraction == Some(o),
    ensures
        ({
            let r = v.set_retraction(params);
            let p = r.toolhead.limits.firmware_retraction;
            &&& p is Some
            &&& p->0.retract_length == given_or(
                named_number(params, "retract_length"@),
                o.retract_length,
            )
            &&& p->0.retract_speed == given_or(
                named_number(params, "retract_speed"@),
                o.retract_speed,
            )
            &&& p->0.unretract_extra_length == given_or(
                named_number(params, "unretract_extra_length"@),
                o.unretract_extra_length,
            )
            &&& p->0.unretract_speed == given_or(
                named_number(params, "unretract_speed"@),
                o.unretract_speed,
            )
            &&& p->0.lift_z == given_or(named_number(params, "lift_z"@), o.lift_z)
            &&& r.retraction is Some
            &&& !(r.retraction->0).retracted
            &&& r.operations == v.operations
            &&& r.toolhead.position == v.toolhead.position
            &&& r.toolhead.limits.max_velocity == v.toolhead.limits.max_velocity
            &&& r.toolhead.limits.max_acceleration == v.toolhead.limits.max_acceleration
        }),
{
}

/// `BED_MESH_PROFILE` activates a mesh that there is, and reports one that there is not.
pub proof fn meshes_are_loaded_by_name(
    v: PlannerView,
    params: Seq<(Seq<char>, Seq<char>)>,
    name: Seq<char>,
)
    requires
        named_text(params, "load"@) == Some(name),
    ensures
        ({
            let t = v.toolhead.transforms;
            let r = v.mesh_profile(params);
            &&& t.has_mesh(name) ==> r.toolhead.transforms == (TransformView {
                active_mesh: Some(name),
                mesh_offsets: [num(ZERO), num(ZERO)],
                tool_offset: num(ZERO),
                ..t
            }) && r.operations == v.operations
            &&& !t.has_mesh(name) ==> r.toolhead == v.toolhead && r.operations.diagnostics.contains(
                unknown_profile_of("BED_MESH_PROFILE"@, name),
            )
        }),
{
    reveal(OperationsView::with_diagnostic);
    let d = unknown_profile_of("BED_MESH_PROFILE"@, name);
    let list = v.operations.diagnostics;
    assert(list.push(d).last() == d);
    assert(list.push(d).contains(d));
}

/// `BED_MESH_OFFSET` changes the offsets that it names, where a mesh is active.
pub proof fn mesh_offsets_change_as_named(
    t: TransformView,
    x: Option<Double>,
    y: Option<Double>,
    fade: Option<Double>,
)
    ensures
        ({
            let r = t.with_offsets(x, y, fade);
            &&& t.active_mesh is None ==> r == t
            &&& t.active_mesh is Some ==> r == (TransformView {
                mesh_offsets: [given_or(x, t.mesh_offsets[0]), given_or(y, t.mesh_offsets[1])],
                tool_offset: given_or(fade, t.tool_offset),
                ..t
            })
        }),
{
    let r = t.with_offsets(x, y, fade);
    if t.active_mesh is Some {
        assert(r.mesh_offsets =~= [
            given_or(x, t.mesh_offsets[0]),
            given_or(y, t.mesh_offsets[1]),
        ]);
    }
}

/// The factor of a plane after `SET_SKEW`: that of the measured lengths, where they are given and
/// make sense, and otherwise the one before.
pub open spec fn plane_factor(
    params: Seq<(Seq<char>, Seq<char>)>,
    plane: Seq<char>,
    tangent: Option<Double>,
    known: Double,
) -> Double {
    match named_text(params, plane) {
        Some(lengths) => if skew_request(lengths) is Some && tangent is Some && (
        tangent->0).finite() {
            tangent->0
        } else {
            known
        },
        None => known,
    }
}

/// `SET_SKEW` clears all factors or sets that of each plane that it names.
pub proof fn skew_is_set_by_plane(
    v: PlannerView,
    params: Seq<(Seq<char>, Seq<char>)>,
    tangents: [Option<Double>; 3],
)
    ensures
        ({
            let t = v.toolhead.transforms;
            let r = v.set_skew(params, tangents).toolhead.transforms;
            &&& r == (TransformView { skew: r.skew, ..t })
            &&& named_flag(params, "clear"@) ==> r.skew == (SkewFactors {
                xy: num(ZERO),
                xz: num(ZERO),
                yz: num(ZERO),
            })
            &&& !named_flag(params, "clear"@) ==> r.skew == (SkewFactors {
                xy: plane_factor(params, "xy"@, tangents[0], t.skew.xy),
                xz: plane_factor(params, "xz"@, tangents[1], t.skew.xz),
                yz: plane_factor(params, "yz"@, tangents[2], t.skew.yz),
            })
        }),
{
}

/// `SKEW_PROFILE` sets the factors of a saved profile, and reports one that there is not.
pub proof fn skews_are_loaded_by_name(
    v: PlannerView,
    params: Seq<(Seq<char>, Seq<char>)>,
    name: Seq<char>,
)
    requires
        named_text(params, "load"@) == Some(name),
    ensures
        ({
            let t = v.toolhead.transforms;
            let r = v.load_skew_profile(params);
            match skew_profile(t.config, name) {
                Some(skew) => r.toolhead.transforms == (TransformView { skew, ..t }) && r.operations
                    == v.operations,
                None => r.toolhead == v.toolhead && r.operations.diagnostics.contains(
                    unknown_profile_of("SKEW_PROFILE"@, name),
                ),
            }
        }),
{
    reveal(OperationsView::with_diagnostic);
    let d = unknown_profile_of("SKEW_PROFILE"@, name);
    let list = v.operations.diagnostics;
    assert(list.push(d).last() == d);
    assert(list.push(d).contains(d));
}

/// The saved skew that a running printer names as its present one is applied; any other name
/// changes nothing.
pub proof fn named_skews_are_applied(known: SkewConfigView, status: SettingsView)
    ensures
        ({
            let r = with_active_skew(Some(known), status);
            let named = match object_in(status, "skew_correction"@) {
                Some(o) => text_in(o, "current_profile_name"@),
                None => None,
            };
            &&& r is Some
            &&& r->0.profiles == known.profiles
            &&& r->0.initial_profile == if named is Some && has_key(known.profiles, named->0) {
                named
            } else {
                known.initial_profile
            }
        }),
        with_active_skew(None, status) is None,
{
}

/// The measured lengths of a square must be positive. Its two diagonals count alike for the length
/// of the other side.
pub proof fn squares_have_lengths(ac: Double, bd: Double, ad: Double)
    ensures
        ac <= num(ZERO) || bd <= num(ZERO) || ad <= num(ZERO) ==> skew_cosine(ac, bd, ad) is None,
        skew_cosine(ac, bd, ad) matches Some(c) ==> c.finite(),
        skew_cosine(ac, bd, ad) matches Some(c) ==> ({
            let two = num(crate::constants::TWO);
            let four = num(crate::constants::FOUR);
            let other = (two * bd * bd + two * ac * ac - four * ad * ad).sqrt() / two;
            c == (ac * ac - other * other - ad * ad) / (two * other * ad)
        }),
{
    let two = num(crate::constants::TWO);
    crate::motion_laws::sums_commute(two * ac * ac, two * bd * bd);
}

/// The clocks of a list of moves go on by the time of every move, and begin where a print does.
pub proof fn clocks_go_on_by_the_time_of_moves(s: DumpMovesState, m: PlanningMove)
    ensures
        DumpMovesState::start().move_idx == 0,
        DumpMovesState::start().ztime == num(ZERO),
        DumpMovesState::start().ctime == num(crate::constants::QUARTER),
        s.after(&m).ctime == s.ctime + m.total_time(),
        s.after(&m).ztime == s.ztime + m.total_time(),
        s.move_idx < u64::MAX ==> s.after(&m).move_idx == s.move_idx + 1,
{
}

} // verus!
