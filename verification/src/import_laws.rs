//! What settings say is what a printer is planned with.

use vstd::prelude::*;

use crate::constants::FIFTY;
use crate::constants::FIVE;
use crate::constants::HUNDRED_FIFTY;
use crate::constants::NINETY;
use crate::constants::THIRTY;
use crate::constants::THREE;
use crate::constants::THREE_HUNDRED_THIRTY;
use crate::constants::TWO_HUNDRED_SEVENTY;
use crate::constants::TWO_HUNDRED_TEN;
use crate::decimal::parsed;
use crate::double::num;
use crate::double::Double;
use crate::double::ONE;
use crate::double::ZERO;
use crate::errors::SnapshotError;
use crate::kinematics::Kinematics;
use crate::limits::PositionMode;
use crate::machine::cartesian_kind;
use crate::machine::kinematics_of;
use crate::offline::SectionsView;
use crate::printer_settings::at_runtime;
use crate::printer_settings::extruder_of;
use crate::printer_settings::limits_of;
use crate::printer_settings::ExtrudersView;
use crate::printer_settings::ExtruderSnapshot;
use crate::printer_settings::LimitsView;
use crate::resolution::resolved;
use crate::resolved_laws::printers_are_resolved_as_written;
use crate::settings::object_in;
use crate::settings::Item;
use crate::settings::ObjectView;
use crate::settings::SettingsView;
use crate::table::has_key;
use crate::table::lookup;

verus! {

/// Whether a field holds a number.
pub open spec fn holds(o: ObjectView, field: Seq<char>, x: Double) -> bool {
    lookup(o, field) == Some(Item::<Seq<char>, Seq<Seq<Double>>>::Number(x))
}

/// Whether a number is that of a field, or a default where the field holds none.
pub open spec fn holds_or(o: ObjectView, field: Seq<char>, x: Double, default: Double) -> bool {
    match lookup(o, field) {
        Some(Item::Number(y)) => x == y,
        _ => x == default,
    }
}

/// The general limits of a printer are those of its settings, and the rest of its limits are those
/// of its extruders, its retraction and its arcs. A cruise ratio goes before a limit of
/// deceleration; without either, that limit is fifty.
pub proof fn limits_are_those_of_the_settings(
    s: SettingsView,
    x: ExtrudersView,
    cosine: Double,
    l: LimitsView,
)
    requires
        limits_of(s, x, cosine) == Ok::<LimitsView, SnapshotError<Seq<char>>>(l),
    ensures
        object_in(s, "printer"@) matches Some(p) && {
            &&& holds(p, "max_velocity"@, l.max_velocity)
            &&& holds(p, "max_accel"@, l.max_acceleration)
            &&& holds(p, "square_corner_velocity"@, l.square_corner_velocity)
            &&& lookup(p, "minimum_cruise_ratio"@) matches Some(Item::Number(v)) ==> {
                &&& l.max_accel_to_decel is None
                &&& v >= num(ZERO) && v <= num(ONE) ==> l.minimum_cruise_ratio == Some(v)
            }
            &&& !(lookup(p, "minimum_cruise_ratio"@) matches Some(Item::Number(_))) ==> {
                &&& l.minimum_cruise_ratio is None
                &&& l.max_accel_to_decel matches Some(v) && holds_or(
                    p,
                    "max_accel_to_decel"@,
                    v,
                    num(FIFTY),
                )
            }
            &&& kinematics_of(s, p, cosine) == Ok::<
                Kinematics<Seq<char>>,
                SnapshotError<Seq<char>>,
            >(l.kinematics)
        },
        lookup(x, "extruder"@) matches Some(first) && l.instant_corner_velocity
            == first.instantaneous_corner_velocity,
        l.extruders.len() == x.len(),
        forall|i: int| 0 <= i < x.len() ==> (#[trigger] l.extruders[i]).0 == x[i].0,
        forall|i: int| 0 <= i < x.len() ==> (#[trigger] l.extruders[i]).1 == x[i].1.limits(),
        match object_in(s, "gcode_arcs"@) {
            Some(o) => match lookup(o, "resolution"@) {
                Some(Item::Number(v)) => l.mm_per_arc_segment == Some(v),
                _ => l.mm_per_arc_segment is None,
            },
            None => l.mm_per_arc_segment is None,
        },
        match object_in(s, "firmware_retraction"@) {
            Some(o) => l.firmware_retraction matches Some(f) && holds(
                o,
                "retract_length"@,
                f.retract_length,
            ) && holds(o, "retract_speed"@, f.retract_speed) && holds(
                o,
                "unretract_extra_length"@,
                f.unretract_extra_length,
            ) && holds(o, "unretract_speed"@, f.unretract_speed) && holds_or(
                o,
                "lift_z"@,
                f.lift_z,
                num(ZERO),
            ),
            None => l.firmware_retraction is None,
        },
        l.initial_coordinate_mode == PositionMode::Absolute,
        l.initial_extrusion_mode == PositionMode::Relative,
        l.initial_extruder is None,
{
}

/// What is configured of an extruder is what its object holds, field by field, and so are its
/// limits.
pub proof fn extruders_are_those_of_the_settings(
    name: Seq<char>,
    o: ObjectView,
    x: ExtruderSnapshot,
)
    requires
        extruder_of(name, o) == Ok::<ExtruderSnapshot, SnapshotError<Seq<char>>>(x),
    ensures
        holds(o, "nozzle_diameter"@, x.limits().nozzle_diameter),
        holds(o, "filament_diameter"@, x.limits().filament_diameter),
        holds(o, "max_extrude_only_velocity"@, x.limits().max_extrude_only_velocity),
        holds(o, "max_extrude_only_accel"@, x.limits().max_extrude_only_accel),
        holds(o, "max_extrude_only_distance"@, x.limits().max_extrude_only_distance),
        holds(o, "instantaneous_corner_velocity"@, x.limits().instantaneous_corner_velocity),
        holds(o, "max_extrude_cross_section"@, x.limits().max_extrude_cross_section),
{
}

/// A field of an object among the settings.
pub open spec fn held_in(s: SettingsView, name: Seq<char>, field: Seq<char>, x: Double) -> bool {
    object_in(s, name) matches Some(o) && holds(o, field, x)
}

/// A field of an object among the settings, or a default.
pub open spec fn held_in_or(
    s: SettingsView,
    name: Seq<char>,
    field: Seq<char>,
    x: Double,
    default: Double,
) -> bool {
    object_in(s, name) matches Some(o) && holds_or(o, field, x, default)
}

/// A machine of the Cartesian family has the ranges of its three axes and the limits along Z that
/// its settings hold.
pub proof fn cartesian_machines_are_those_of_the_settings(
    s: SettingsView,
    p: ObjectView,
    cosine: Double,
    k: Kinematics<Seq<char>>,
)
    requires
        kinematics_of(s, p, cosine) == Ok::<Kinematics<Seq<char>>, SnapshotError<Seq<char>>>(k),
        k is CartesianFamily,
    ensures
        ({
            let c = k->CartesianFamily_config;
            &&& lookup(p, "kinematics"@) matches Some(Item::Text(t)) && cartesian_kind(t) == Some(
                c.kind,
            )
            &&& holds(p, "max_z_velocity"@, c.max_z_velocity)
            &&& holds(p, "max_z_accel"@, c.max_z_accel)
            &&& held_in(s, "stepper_x"@, "position_min"@, c.axis_minimum.x)
            &&& held_in(s, "stepper_x"@, "position_max"@, c.axis_maximum.x)
            &&& held_in(s, "stepper_y"@, "position_min"@, c.axis_minimum.y)
            &&& held_in(s, "stepper_y"@, "position_max"@, c.axis_maximum.y)
            &&& held_in(s, "stepper_z"@, "position_min"@, c.axis_minimum.z)
            &&& held_in(s, "stepper_z"@, "position_max"@, c.axis_maximum.z)
        }),
{
}

/// A delta machine is what its settings hold: towers that say nothing are like the first one, and
/// stand at angles of 210, 330 and 90 degrees.
pub proof fn delta_machines_are_those_of_the_settings(
    s: SettingsView,
    p: ObjectView,
    cosine: Double,
    k: Kinematics<Seq<char>>,
)
    requires
        kinematics_of(s, p, cosine) == Ok::<Kinematics<Seq<char>>, SnapshotError<Seq<char>>>(k),
        k is Delta,
    ensures
        ({
            let c = k->Delta_config;
            &&& holds(p, "max_velocity"@, c.max_velocity)
            &&& holds(p, "max_accel"@, c.max_accel)
            &&& holds(p, "max_z_velocity"@, c.max_z_velocity)
            &&& holds(p, "max_z_accel"@, c.max_z_accel)
            &&& holds(p, "delta_radius"@, c.radius)
            &&& holds_or(p, "print_radius"@, c.print_radius, c.radius)
            &&& holds_or(p, "minimum_z_position"@, c.minimum_z, num(ZERO))
            &&& held_in(s, "stepper_a"@, "arm_length"@, c.arm_lengths[0])
            &&& held_in_or(s, "stepper_b"@, "arm_length"@, c.arm_lengths[1], c.arm_lengths[0])
            &&& held_in_or(s, "stepper_c"@, "arm_length"@, c.arm_lengths[2], c.arm_lengths[0])
            &&& held_in(s, "stepper_a"@, "position_endstop"@, c.position_endstops[0])
            &&& held_in_or(
                s,
                "stepper_b"@,
                "position_endstop"@,
                c.position_endstops[1],
                c.position_endstops[0],
            )
            &&& held_in_or(
                s,
                "stepper_c"@,
                "position_endstop"@,
                c.position_endstops[2],
                c.position_endstops[0],
            )
            &&& held_in_or(s, "stepper_a"@, "angle"@, c.tower_angles[0], num(TWO_HUNDRED_TEN))
            &&& held_in_or(s, "stepper_b"@, "angle"@, c.tower_angles[1], num(THREE_HUNDRED_THIRTY))
            &&& held_in_or(s, "stepper_c"@, "angle"@, c.tower_angles[2], num(NINETY))
        }),
{
}

/// A polar machine is what its settings hold.
pub proof fn polar_machines_are_those_of_the_settings(
    s: SettingsView,
    p: ObjectView,
    cosine: Double,
    k: Kinematics<Seq<char>>,
)
    requires
        kinematics_of(s, p, cosine) == Ok::<Kinematics<Seq<char>>, SnapshotError<Seq<char>>>(k),
        k is Polar,
    ensures
        ({
            let c = k->Polar_config;
            &&& holds(p, "max_velocity"@, c.max_velocity)
            &&& holds(p, "max_accel"@, c.max_accel)
            &&& holds(p, "max_z_velocity"@, c.max_z_velocity)
            &&& holds(p, "max_z_accel"@, c.max_z_accel)
            &&& holds_or(p, "max_angular_velocity"@, c.max_angular_velocity, num(ZERO))
            &&& held_in(s, "stepper_arm"@, "position_max"@, c.maximum_radius)
            &&& held_in(s, "stepper_z"@, "position_max"@, c.maximum_z)
            &&& held_in_or(s, "stepper_z"@, "position_min"@, c.minimum_z, num(ZERO))
        }),
{
}

/// A deltesian machine is what its settings hold: the right arm is like the left one where it says
/// nothing.
pub proof fn deltesian_machines_are_those_of_the_settings(
    s: SettingsView,
    p: ObjectView,
    cosine: Double,
    k: Kinematics<Seq<char>>,
)
    requires
        kinematics_of(s, p, cosine) == Ok::<Kinematics<Seq<char>>, SnapshotError<Seq<char>>>(k),
        k is Deltesian,
    ensures
        ({
            let c = k->Deltesian_config;
            &&& holds(p, "max_velocity"@, c.max_velocity)
            &&& holds(p, "max_accel"@, c.max_accel)
            &&& holds(p, "max_z_velocity"@, c.max_z_velocity)
            &&& holds(p, "max_z_accel"@, c.max_z_accel)
            &&& holds_or(p, "minimum_z_position"@, c.minimum_z, num(ZERO))
            &&& holds_or(p, "min_angle"@, c.minimum_angle, num(FIVE))
            &&& holds_or(p, "slow_ratio"@, c.slow_ratio, num(THREE))
            &&& c.minimum_angle_cosine == cosine
            &&& match lookup(p, "print_width"@) {
                Some(Item::Number(v)) => c.print_width == Some(v),
                _ => c.print_width is None,
            }
            &&& held_in(s, "stepper_left"@, "arm_x_length"@, c.arm_x_lengths[0])
            &&& held_in(s, "stepper_left"@, "arm_length"@, c.arm_lengths[0])
            &&& held_in(s, "stepper_left"@, "position_endstop"@, c.position_endstops[0])
            &&& held_in_or(
                s,
                "stepper_right"@,
                "arm_x_length"@,
                c.arm_x_lengths[1],
                c.arm_x_lengths[0],
            )
            &&& held_in_or(s, "stepper_right"@, "arm_length"@, c.arm_lengths[1], c.arm_lengths[0])
            &&& held_in_or(
                s,
                "stepper_right"@,
                "position_endstop"@,
                c.position_endstops[1],
                c.position_endstops[0],
            )
            &&& held_in_or(s, "stepper_y"@, "position_min"@, c.y_range[0], num(ZERO))
            &&& held_in(s, "stepper_y"@, "position_max"@, c.y_range[1])
        }),
{
}

/// A rotary delta machine is what its settings hold.
pub proof fn rotary_delta_machines_are_those_of_the_settings(
    s: SettingsView,
    p: ObjectView,
    cosine: Double,
    k: Kinematics<Seq<char>>,
)
    requires
        kinematics_of(s, p, cosine) == Ok::<Kinematics<Seq<char>>, SnapshotError<Seq<char>>>(k),
        k is RotaryDelta,
    ensures
        ({
            let c = k->RotaryDelta_config;
            &&& holds(p, "max_z_velocity"@, c.max_z_velocity)
            &&& holds(p, "shoulder_radius"@, c.shoulder_radius)
            &&& holds(p, "shoulder_height"@, c.shoulder_height)
            &&& holds_or(p, "minimum_z_position"@, c.minimum_z, num(ZERO))
            &&& held_in(s, "stepper_a"@, "upper_arm_length"@, c.upper_arm_lengths[0])
            &&& held_in(s, "stepper_a"@, "lower_arm_length"@, c.lower_arm_lengths[0])
            &&& held_in(s, "stepper_a"@, "position_endstop"@, c.position_endstops[0])
            &&& held_in_or(s, "stepper_a"@, "angle"@, c.tower_angles[0], num(THIRTY))
            &&& held_in_or(s, "stepper_b"@, "angle"@, c.tower_angles[1], num(HUNDRED_FIFTY))
            &&& held_in_or(s, "stepper_c"@, "angle"@, c.tower_angles[2], num(TWO_HUNDRED_SEVENTY))
        }),
{
}

/// A running printer is planned with the limits that it reports, from the modes and with the
/// extruder that it has at the time; the rest stays as configured.
pub proof fn running_printers_are_planned_as_they_report(
    l: LimitsView,
    toolhead: ObjectView,
    gcode_move: ObjectView,
    r: LimitsView,
)
    requires
        at_runtime(l, toolhead, gcode_move) == Ok::<LimitsView, SnapshotError<Seq<char>>>(r),
    ensures
        holds(toolhead, "max_velocity"@, r.max_velocity),
        holds(toolhead, "max_accel"@, r.max_acceleration),
        holds(toolhead, "square_corner_velocity"@, r.square_corner_velocity),
        lookup(toolhead, "minimum_cruise_ratio"@) matches Some(Item::Number(w)) && (w >= num(ZERO)
            && w <= num(ONE) ==> r.minimum_cruise_ratio == Some(w)),
        r.minimum_cruise_ratio is Some && r.max_accel_to_decel is None,
        r.initial_extruder matches Some(name) && has_key(l.extruders, name) && lookup(
            toolhead,
            "extruder"@,
        ) == Some(Item::<Seq<char>, Seq<Seq<Double>>>::Text(name)),
        lookup(gcode_move, "absolute_coordinates"@) == Some(
            Item::<Seq<char>, Seq<Seq<Double>>>::Flag(
                r.initial_coordinate_mode == PositionMode::Absolute,
            ),
        ),
        lookup(gcode_move, "absolute_extrude"@) == Some(
            Item::<Seq<char>, Seq<Seq<Double>>>::Flag(
                r.initial_extrusion_mode == PositionMode::Absolute,
            ),
        ),
        r == (LimitsView {
            max_velocity: r.max_velocity,
            max_acceleration: r.max_acceleration,
            square_corner_velocity: r.square_corner_velocity,
            minimum_cruise_ratio: r.minimum_cruise_ratio,
            max_accel_to_decel: r.max_accel_to_decel,
            junction_deviation: r.junction_deviation,
            mcr_pseudo_accel: r.mcr_pseudo_accel,
            initial_extruder: r.initial_extruder,
            initial_coordinate_mode: r.initial_coordinate_mode,
            initial_extrusion_mode: r.initial_extrusion_mode,
            ..l
        }),
{
}

/// The number that the text of an option of the printer stands for, or a default where there is no
/// such option.
pub open spec fn written_or(s: SectionsView, option: Seq<char>, default: Double) -> Double {
    match lookup(s, "printer"@) {
        Some(o) => match lookup(o, option) {
            Some(text) => match parsed(text) {
                Some(x) => x,
                None => default,
            },
            None => default,
        },
        None => default,
    }
}

/// What configuration files say of a printer in general is what it is planned with.
pub proof fn printers_are_planned_as_written(
    s: SectionsView,
    r: SettingsView,
    x: ExtrudersView,
    cosine: Double,
    l: LimitsView,
)
    requires
        resolved(s) == Ok::<SettingsView, SnapshotError<Seq<char>>>(r),
        limits_of(r, x, cosine) == Ok::<LimitsView, SnapshotError<Seq<char>>>(l),
    ensures
        l.max_velocity == written_or(s, "max_velocity"@, l.max_velocity),
        l.max_acceleration == written_or(s, "max_accel"@, l.max_acceleration),
        l.square_corner_velocity == written_or(s, "square_corner_velocity"@, num(FIVE)),
        l.minimum_cruise_ratio == Some(
            written_or(s, "minimum_cruise_ratio"@, num(crate::constants::HALF)),
        ),
        l.max_velocity > num(ZERO),
        l.max_acceleration > num(ZERO),
        lookup(s, "printer"@) matches Some(o) && lookup(o, "max_velocity"@) is Some && lookup(
            o,
            "max_accel"@,
        ) is Some,
{
    printers_are_resolved_as_written(s, r);
    limits_are_those_of_the_settings(r, x, cosine, l);
}

} // verus!
