//! The kinematics of a printer, from its settings.

use vstd::prelude::*;

use crate::constants::FIVE;
use crate::constants::HALF;
use crate::constants::HUNDRED_FIFTY;
use crate::constants::HUNDRED_FORTY_FIVE;
use crate::constants::NINETY;
use crate::constants::THIRTY;
use crate::constants::THREE;
use crate::constants::THREE_HUNDRED_THIRTY;
use crate::constants::TWO;
use crate::constants::TWO_HUNDRED_SEVENTY;
use crate::constants::TWO_HUNDRED_TEN;
use crate::double::num;
use crate::double::Double;
use crate::double::ONE;
use crate::double::ZERO;
use crate::errors::outcome;
use crate::errors::Outcome;
use crate::errors::SnapshotError;
use crate::geometry::Vec3;
use crate::kinematics::least2;
use crate::kinematics::least3;
use crate::kinematics::CartesianKinematics;
use crate::kinematics::CartesianKinematicsKind;
use crate::kinematics::DeltaKinematics;
use crate::kinematics::DeltesianKinematics;
use crate::kinematics::Kinematics;
use crate::kinematics::PolarKinematics;
use crate::kinematics::RotaryDeltaKinematics;
use crate::settings::default_numbers;
use crate::settings::defaulted;
use crate::settings::dot;
use crate::settings::inherited;
use crate::settings::inherited_number_pair;
use crate::settings::inherited_numbers;
use crate::settings::inherited_pair;
use crate::settings::linear_step_distance;
use crate::settings::needed;
use crate::settings::number;
use crate::settings::number_else;
use crate::settings::number_of;
use crate::settings::number_or_else;
use crate::settings::object_of;
use crate::settings::optional_number;
use crate::settings::optional_text;
use crate::settings::settings_object;
use crate::settings::settings_path;
use crate::settings::step_distance;
use crate::settings::text_in;
use crate::settings::Object;
use crate::settings::ObjectView;
use crate::settings::Settings;
use crate::settings::SettingsView;
use crate::table::has_key;
use crate::text::same;

verus! {

/// What is wrong with the geometry of a printer.
#[derive(Clone, Copy, Debug, PartialEq, Eq, Structural)]
pub enum GeometryFault {
    Radii,
    Arms,
    Steps,
    StepTooLarge,
    MinimumZ,
    ArmRange,
    SideArms,
    Angle,
    Width,
    YRange,
    PillarHeight,
    Shoulder,
    ShoulderPlane,
    NoSolution,
}

pub open spec fn fault_text(f: GeometryFault) -> Seq<char> {
    match f {
        GeometryFault::Radii => "radii must be positive"@,
        GeometryFault::Arms => "every arm_length must exceed delta_radius"@,
        GeometryFault::Steps => "step distances must be positive"@,
        GeometryFault::StepTooLarge => "step distance is too large for the configured arm geometry"@,
        GeometryFault::MinimumZ => "minimum_z_position exceeds maximum Z"@,
        GeometryFault::ArmRange => "arm radius and Z range must be non-empty"@,
        GeometryFault::SideArms => "each arm_length must exceed arm_x_length"@,
        GeometryFault::Angle => "invalid angle or slow ratio"@,
        GeometryFault::Width => "print_width exceeds the kinematic X range"@,
        GeometryFault::YRange => "Y range must be non-empty"@,
        GeometryFault::PillarHeight => "minimum_z_position exceeds the geometric maximum Z"@,
        GeometryFault::Shoulder => "radii, heights, and arm lengths are inconsistent"@,
        GeometryFault::ShoulderPlane => "an endstop lies in the shoulder plane"@,
        GeometryFault::NoSolution => "endstop geometry has no real arm solution"@,
    }
}

impl GeometryFault {
    pub fn text(&self) -> (r: &'static str)
        ensures
            r@ == fault_text(*self),
    {
        match self {
            GeometryFault::Radii => "radii must be positive",
            GeometryFault::Arms => "every arm_length must exceed delta_radius",
            GeometryFault::Steps => "step distances must be positive",
            GeometryFault::StepTooLarge =>
                "step distance is too large for the configured arm geometry",
            GeometryFault::MinimumZ => "minimum_z_position exceeds maximum Z",
            GeometryFault::ArmRange => "arm radius and Z range must be non-empty",
            GeometryFault::SideArms => "each arm_length must exceed arm_x_length",
            GeometryFault::Angle => "invalid angle or slow ratio",
            GeometryFault::Width => "print_width exceeds the kinematic X range",
            GeometryFault::YRange => "Y range must be non-empty",
            GeometryFault::PillarHeight => "minimum_z_position exceeds the geometric maximum Z",
            GeometryFault::Shoulder => "radii, heights, and arm lengths are inconsistent",
            GeometryFault::ShoulderPlane => "an endstop lies in the shoulder plane",
            GeometryFault::NoSolution => "endstop geometry has no real arm solution",
        }
    }
}

/// The fault of a delta: its arms must reach beyond the towers, and its steps must be fine.
#[verifier::allow_in_spec]
pub fn delta_fault(c: &DeltaKinematics) -> Option<GeometryFault>
    returns
        (if c.radius <= num(ZERO) || c.print_radius <= num(ZERO) {
            Some(GeometryFault::Radii)
        } else if c.arm_lengths[0] <= c.radius || c.arm_lengths[1] <= c.radius || c.arm_lengths[2]
            <= c.radius {
            Some(GeometryFault::Arms)
        } else if c.step_distances[0] <= num(ZERO) || c.step_distances[1] <= num(ZERO)
            || c.step_distances[2] <= num(ZERO) {
            Some(GeometryFault::Steps)
        } else if least3(c.arm_lengths[0], c.arm_lengths[1], c.arm_lengths[2]).squared() / num(
            HUNDRED_FORTY_FIVE,
        ) <= (least3(c.step_distances[0], c.step_distances[1], c.step_distances[2]) * num(
            HALF,
        )).squared() {
            Some(GeometryFault::StepTooLarge)
        } else if c.minimum_z > least3(
            c.position_endstops[0],
            c.position_endstops[1],
            c.position_endstops[2],
        ) {
            Some(GeometryFault::MinimumZ)
        } else {
            None
        }),
{
    if c.radius <= num(ZERO) || c.print_radius <= num(ZERO) {
        Some(GeometryFault::Radii)
    } else if c.arm_lengths[0] <= c.radius || c.arm_lengths[1] <= c.radius || c.arm_lengths[2]
        <= c.radius {
        Some(GeometryFault::Arms)
    } else if c.step_distances[0] <= num(ZERO) || c.step_distances[1] <= num(ZERO)
        || c.step_distances[2] <= num(ZERO) {
        Some(GeometryFault::Steps)
    } else if least3(c.arm_lengths[0], c.arm_lengths[1], c.arm_lengths[2]).squared() / num(
        HUNDRED_FORTY_FIVE,
    ) <= (least3(c.step_distances[0], c.step_distances[1], c.step_distances[2]) * num(
        HALF,
    )).squared() {
        Some(GeometryFault::StepTooLarge)
    } else if c.minimum_z > least3(
        c.position_endstops[0],
        c.position_endstops[1],
        c.position_endstops[2],
    ) {
        Some(GeometryFault::MinimumZ)
    } else {
        None
    }
}

#[verifier::allow_in_spec]
pub fn polar_fault(c: &PolarKinematics) -> Option<GeometryFault>
    returns
        (if c.maximum_radius <= num(ZERO) || c.minimum_z >= c.maximum_z {
            Some(GeometryFault::ArmRange)
        } else {
            None
        }),
{
    if c.maximum_radius <= num(ZERO) || c.minimum_z >= c.maximum_z {
        Some(GeometryFault::ArmRange)
    } else {
        None
    }
}

/// The X range that the arms of a deltesian can reach, in whole millimetres.
#[verifier::allow_in_spec]
pub fn reachable_x(c: &DeltesianKinematics) -> (Double, Double)
    returns
        (
            c.arm_x_lengths[0].negated().max(
                (c.minimum_angle_cosine * c.arm_lengths[1] - c.arm_x_lengths[1]).negated(),
            ).ceil(),
            c.arm_x_lengths[1].min(
                c.minimum_angle_cosine * c.arm_lengths[0] - c.arm_x_lengths[0],
            ).floor(),
        ),
{
    (
        c.arm_x_lengths[0].negated().max(
            (c.minimum_angle_cosine * c.arm_lengths[1] - c.arm_x_lengths[1]).negated(),
        ).ceil(),
        c.arm_x_lengths[1].min(
            c.minimum_angle_cosine * c.arm_lengths[0] - c.arm_x_lengths[0],
        ).floor(),
    )
}

/// The height at which an arm's carriage meets its endstop.
#[verifier::allow_in_spec]
pub fn absolute_endstop(endstop: Double, arm: Double, arm_x: Double) -> Double
    returns
        endstop + (arm.squared() - arm_x.squared()).sqrt(),
{
    endstop + (arm.squared() - arm_x.squared()).sqrt()
}

/// The greatest height at an X position.
#[verifier::allow_in_spec]
pub fn pillar_height(c: &DeltesianKinematics, x: Double) -> Double
    returns
        least2(
            absolute_endstop(c.position_endstops[0], c.arm_lengths[0], c.arm_x_lengths[0]) - (
            c.arm_lengths[0].squared() - (c.arm_x_lengths[0] + x).squared()).sqrt(),
            absolute_endstop(c.position_endstops[1], c.arm_lengths[1], c.arm_x_lengths[1]) - (
            c.arm_lengths[1].squared() - (c.arm_x_lengths[1] - x).squared()).sqrt(),
        ),
{
    least2(
        absolute_endstop(c.position_endstops[0], c.arm_lengths[0], c.arm_x_lengths[0]) - (
        c.arm_lengths[0].squared() - (c.arm_x_lengths[0] + x).squared()).sqrt(),
        absolute_endstop(c.position_endstops[1], c.arm_lengths[1], c.arm_x_lengths[1]) - (
        c.arm_lengths[1].squared() - (c.arm_x_lengths[1] - x).squared()).sqrt(),
    )
}

/// The X range that is printed on: the configured width, or all that is reachable.
pub open spec fn printed_x(c: DeltesianKinematics) -> (Double, Double) {
    match c.print_width {
        Some(width) => if width.equals(num(ZERO)) {
            reachable_x(&c)
        } else {
            (width.negated() * num(HALF), width * num(HALF))
        },
        None => reachable_x(&c),
    }
}

fn print_range(c: &DeltesianKinematics) -> (r: (Double, Double))
    ensures
        r == printed_x(*c),
{
    match c.print_width {
        Some(width) => if width == num(ZERO) {
            reachable_x(c)
        } else {
            (width.negated() * num(HALF), width * num(HALF))
        },
        None => reachable_x(c),
    }
}

/// The fault of a deltesian.
pub open spec fn deltesian_fault(c: DeltesianKinematics) -> Option<GeometryFault> {
    let (x_min, x_max) = reachable_x(&c);
    let max_width = (x_max - x_min).min(x_max * num(TWO)).min(x_min.negated() * num(TWO));
    let (left, right) = printed_x(c);
    let max_z = pillar_height(&c, left).min(pillar_height(&c, right));
    if c.arm_lengths[0] <= c.arm_x_lengths[0] || c.arm_x_lengths[0] <= num(ZERO)
        || c.arm_lengths[1] <= c.arm_x_lengths[1] || c.arm_x_lengths[1] <= num(ZERO) {
        Some(GeometryFault::SideArms)
    } else if !(c.minimum_angle >= num(ZERO) && c.minimum_angle <= num(NINETY)) || c.slow_ratio
        < num(ZERO) {
        Some(GeometryFault::Angle)
    } else if c.print_width matches Some(width) && (width < num(ZERO) || width > max_width) {
        Some(GeometryFault::Width)
    } else if c.y_range[0] >= c.y_range[1] {
        Some(GeometryFault::YRange)
    } else if !max_z.is_finite() || c.minimum_z > max_z {
        Some(GeometryFault::PillarHeight)
    } else {
        None
    }
}

fn find_deltesian_fault(c: &DeltesianKinematics) -> (r: Option<GeometryFault>)
    ensures
        r == deltesian_fault(*c),
{
    if c.arm_lengths[0] <= c.arm_x_lengths[0] || c.arm_x_lengths[0] <= num(ZERO)
        || c.arm_lengths[1] <= c.arm_x_lengths[1] || c.arm_x_lengths[1] <= num(ZERO) {
        return Some(GeometryFault::SideArms);
    }
    if !(c.minimum_angle >= num(ZERO) && c.minimum_angle <= num(NINETY)) || c.slow_ratio < num(
        ZERO,
    ) {
        return Some(GeometryFault::Angle);
    }
    let (x_min, x_max) = reachable_x(c);
    let max_width = (x_max - x_min).min(x_max * num(TWO)).min(x_min.negated() * num(TWO));
    if let Some(width) = c.print_width {
        if width < num(ZERO) || width > max_width {
            return Some(GeometryFault::Width);
        }
    }
    if c.y_range[0] >= c.y_range[1] {
        return Some(GeometryFault::YRange);
    }
    let (left, right) = print_range(c);
    let max_z = pillar_height(c, left).min(pillar_height(c, right));
    if !max_z.is_finite() || c.minimum_z > max_z {
        return Some(GeometryFault::PillarHeight);
    }
    None
}

/// The fault of one tower of a rotary delta: its arms must be able to reach the endstop.
pub open spec fn tower_fault(
    radius: Double,
    height: Double,
    endstop: Double,
    upper: Double,
    lower: Double,
) -> Option<GeometryFault> {
    let dx = radius.negated();
    let dy = endstop - height;
    let c1 = num(HALF) / dy * (dx * dx + dy * dy + upper.squared() - lower.squared());
    let c2 = dx / dy;
    if dy.equals(num(ZERO)) {
        Some(GeometryFault::ShoulderPlane)
    } else if (c2 * c2 + num(ONE)) * upper.squared() - c1 * c1 < num(ZERO) {
        Some(GeometryFault::NoSolution)
    } else {
        None
    }
}

fn find_tower_fault(
    radius: Double,
    height: Double,
    endstop: Double,
    upper: Double,
    lower: Double,
) -> (r: Option<GeometryFault>)
    ensures
        r == tower_fault(radius, height, endstop, upper, lower),
{
    let dx = radius.negated();
    let dy = endstop - height;
    if dy == num(ZERO) {
        return Some(GeometryFault::ShoulderPlane);
    }
    let c1 = num(HALF) / dy * (dx * dx + dy * dy + upper.squared() - lower.squared());
    let c2 = dx / dy;
    if (c2 * c2 + num(ONE)) * upper.squared() - c1 * c1 < num(ZERO) {
        return Some(GeometryFault::NoSolution);
    }
    None
}

/// The fault of a tower by its index.
pub open spec fn rotary_tower(c: RotaryDeltaKinematics, i: int) -> Option<GeometryFault> {
    tower_fault(
        c.shoulder_radius,
        c.shoulder_height,
        c.position_endstops[i],
        c.upper_arm_lengths[i],
        c.lower_arm_lengths[i],
    )
}

pub open spec fn rotary_fault(c: RotaryDeltaKinematics) -> Option<GeometryFault> {
    if c.shoulder_radius <= num(ZERO) || c.shoulder_height <= num(ZERO) || c.upper_arm_lengths[0]
        <= num(ZERO) || c.upper_arm_lengths[1] <= num(ZERO) || c.upper_arm_lengths[2] <= num(ZERO)
        || c.lower_arm_lengths[0] <= num(ZERO) || c.lower_arm_lengths[1] <= num(ZERO)
        || c.lower_arm_lengths[2] <= num(ZERO) {
        Some(GeometryFault::Shoulder)
    } else if c.minimum_z > least3(
        c.position_endstops[0],
        c.position_endstops[1],
        c.position_endstops[2],
    ) {
        Some(GeometryFault::MinimumZ)
    } else if rotary_tower(c, 0) is Some {
        rotary_tower(c, 0)
    } else if rotary_tower(c, 1) is Some {
        rotary_tower(c, 1)
    } else {
        rotary_tower(c, 2)
    }
}

fn find_rotary_fault(c: &RotaryDeltaKinematics) -> (r: Option<GeometryFault>)
    ensures
        r == rotary_fault(*c),
{
    if c.shoulder_radius <= num(ZERO) || c.shoulder_height <= num(ZERO) || c.upper_arm_lengths[0]
        <= num(ZERO) || c.upper_arm_lengths[1] <= num(ZERO) || c.upper_arm_lengths[2] <= num(ZERO)
        || c.lower_arm_lengths[0] <= num(ZERO) || c.lower_arm_lengths[1] <= num(ZERO)
        || c.lower_arm_lengths[2] <= num(ZERO) {
        return Some(GeometryFault::Shoulder);
    }
    if c.minimum_z > least3(
        c.position_endstops[0],
        c.position_endstops[1],
        c.position_endstops[2],
    ) {
        return Some(GeometryFault::MinimumZ);
    }
    let mut i: usize = 0;
    while i < 2
        invariant
            i <= 2,
            forall|k: int| 0 <= k < i ==> rotary_tower(*c, k) is None,
            rotary_fault(*c) == (if rotary_tower(*c, 0) is Some {
                rotary_tower(*c, 0)
            } else if rotary_tower(*c, 1) is Some {
                rotary_tower(*c, 1)
            } else {
                rotary_tower(*c, 2)
            }),
        decreases 2 - i,
    {
        let f = find_tower_fault(
            c.shoulder_radius,
            c.shoulder_height,
            c.position_endstops[i],
            c.upper_arm_lengths[i],
            c.lower_arm_lengths[i],
        );
        assert(f == rotary_tower(*c, i as int));
        if f.is_some() {
            return f;
        }
        i = i + 1;
    }
    find_tower_fault(
        c.shoulder_radius,
        c.shoulder_height,
        c.position_endstops[2],
        c.upper_arm_lengths[2],
        c.lower_arm_lengths[2],
    )
}

/// The fault of a configured geometry and the backend that has it.
pub open spec fn geometry_fault(k: Kinematics<Seq<char>>) -> Option<(Seq<char>, GeometryFault)> {
    match k {
        Kinematics::Delta { config } => match delta_fault(&config) {
            Some(f) => Some(("delta"@, f)),
            None => None,
        },
        Kinematics::Polar { config } => match polar_fault(&config) {
            Some(f) => Some(("polar"@, f)),
            None => None,
        },
        Kinematics::Deltesian { config } => match deltesian_fault(config) {
            Some(f) => Some(("deltesian"@, f)),
            None => None,
        },
        Kinematics::RotaryDelta { config } => match rotary_fault(config) {
            Some(f) => Some(("rotary_delta"@, f)),
            None => None,
        },
        _ => None,
    }
}

/// Kinematics whose geometry is sound.
pub open spec fn validated(k: Kinematics<Seq<char>>) -> Outcome<Kinematics<Seq<char>>> {
    match geometry_fault(k) {
        Some((backend, f)) => Err(
            SnapshotError::InvalidKinematicsGeometry { backend, reason: fault_text(f) },
        ),
        None => Ok(k),
    }
}

pub open spec fn kinematics_outcome(r: Result<Kinematics, SnapshotError>) -> Outcome<
    Kinematics<Seq<char>>,
> {
    match r {
        Ok(k) => Ok(k@),
        Err(e) => Err(e@),
    }
}

/// Rejects kinematics whose geometry has a fault.
pub fn validated_kinematics(kinematics: Kinematics) -> (r: Result<Kinematics, SnapshotError>)
    ensures
        kinematics_outcome(r) == validated(kinematics@),
        r matches Ok(k) ==> k == kinematics,
{
    let (backend, fault): (&str, Option<GeometryFault>) = match &kinematics {
        Kinematics::Delta { config } => ("delta", delta_fault(config)),
        Kinematics::Polar { config } => ("polar", polar_fault(config)),
        Kinematics::Deltesian { config } => ("deltesian", find_deltesian_fault(config)),
        Kinematics::RotaryDelta { config } => ("rotary_delta", find_rotary_fault(config)),
        _ => ("", None),
    };
    match fault {
        Some(f) => Err(
            SnapshotError::InvalidKinematicsGeometry {
                backend: backend.to_owned(),
                reason: f.text().to_owned(),
            },
        ),
        None => Ok(kinematics),
    }
}

/// A number of the printer.
pub open spec fn printer_number(p: ObjectView, field: Seq<char>) -> Outcome<Double> {
    needed(p, "configfile.settings.printer"@, field)
}

fn from_printer(p: &Object, field: &str) -> (r: Result<Double, SnapshotError>)
    ensures
        outcome(r) == printer_number(p.deep_view(), field@),
{
    number(p, "configfile.settings.printer", field)
}

/// The speed limits of a printer in general and along Z.
#[derive(Clone, Copy, Debug)]
pub struct SpeedLimits {
    pub max_velocity: Double,
    pub max_accel: Double,
    pub max_z_velocity: Double,
    pub max_z_accel: Double,
}

pub open spec fn speed_limits(p: ObjectView) -> Outcome<SpeedLimits> {
    match (
        printer_number(p, "max_velocity"@),
        printer_number(p, "max_accel"@),
        printer_number(p, "max_z_velocity"@),
        printer_number(p, "max_z_accel"@),
    ) {
        (Err(e), _, _, _) => Err(e),
        (_, Err(e), _, _) => Err(e),
        (_, _, Err(e), _) => Err(e),
        (_, _, _, Err(e)) => Err(e),
        (Ok(max_velocity), Ok(max_accel), Ok(max_z_velocity), Ok(max_z_accel)) => Ok(
            SpeedLimits { max_velocity, max_accel, max_z_velocity, max_z_accel },
        ),
    }
}

fn read_speed_limits(p: &Object) -> (r: Result<SpeedLimits, SnapshotError>)
    ensures
        outcome(r) == speed_limits(p.deep_view()),
{
    Ok(
        SpeedLimits {
            max_velocity: from_printer(p, "max_velocity")?,
            max_accel: from_printer(p, "max_accel")?,
            max_z_velocity: from_printer(p, "max_z_velocity")?,
            max_z_accel: from_printer(p, "max_z_accel")?,
        },
    )
}

/// The step distance of a tower.
pub open spec fn tower_step(s: SettingsView, name: Seq<char>) -> Outcome<Double> {
    match object_of(s, name) {
        Err(e) => Err(e),
        Ok(o) => step_distance(o, settings_path(name)),
    }
}

fn read_tower_step(s: &Settings, name: &str) -> (r: Result<Double, SnapshotError>)
    ensures
        outcome(r) == tower_step(s.deep_view(), name@),
{
    let o: &Object = settings_object(s, name)?;
    let path: String = dot("configfile.settings", name);
    linear_step_distance(o, path.as_str())
}

pub open spec fn tower_steps(s: SettingsView, names: [&str; 3]) -> Outcome<[Double; 3]> {
    match (tower_step(s, names[0]@), tower_step(s, names[1]@), tower_step(s, names[2]@)) {
        (Err(e), _, _) => Err(e),
        (_, Err(e), _) => Err(e),
        (_, _, Err(e)) => Err(e),
        (Ok(a), Ok(b), Ok(c)) => Ok([a, b, c]),
    }
}

fn read_tower_steps(s: &Settings, names: [&str; 3]) -> (r: Result<[Double; 3], SnapshotError>)
    ensures
        outcome(r) == tower_steps(s.deep_view(), names),
{
    Ok(
        [
            read_tower_step(s, names[0])?,
            read_tower_step(s, names[1])?,
            read_tower_step(s, names[2])?,
        ],
    )
}

pub open spec fn delta_of(s: SettingsView, p: ObjectView) -> Outcome<DeltaKinematics> {
    let names = ["stepper_a", "stepper_b", "stepper_c"];
    match (
        inherited(s, names, "arm_length"@),
        inherited(s, names, "position_endstop"@),
        defaulted(
            s,
            names,
            "angle"@,
            [num(TWO_HUNDRED_TEN), num(THREE_HUNDRED_THIRTY), num(NINETY)],
        ),
        tower_steps(s, names),
        printer_number(p, "delta_radius"@),
        speed_limits(p),
    ) {
        (Err(e), _, _, _, _, _) => Err(e),
        (_, Err(e), _, _, _, _) => Err(e),
        (_, _, Err(e), _, _, _) => Err(e),
        (_, _, _, Err(e), _, _) => Err(e),
        (_, _, _, _, Err(e), _) => Err(e),
        (_, _, _, _, _, Err(e)) => Err(e),
        (
            Ok(arm_lengths),
            Ok(position_endstops),
            Ok(tower_angles),
            Ok(step_distances),
            Ok(radius),
            Ok(speeds),
        ) => Ok(
            DeltaKinematics {
                max_velocity: speeds.max_velocity,
                max_accel: speeds.max_accel,
                max_z_velocity: speeds.max_z_velocity,
                max_z_accel: speeds.max_z_accel,
                minimum_z: number_else(p, "minimum_z_position"@, num(ZERO)),
                radius,
                print_radius: number_else(p, "print_radius"@, radius),
                arm_lengths,
                tower_angles,
                position_endstops,
                step_distances,
            },
        ),
    }
}

fn read_delta(s: &Settings, p: &Object) -> (r: Result<DeltaKinematics, SnapshotError>)
    ensures
        outcome(r) == delta_of(s.deep_view(), p.deep_view()),
{
    let names: [&str; 3] = ["stepper_a", "stepper_b", "stepper_c"];
    let arm_lengths: [Double; 3] = inherited_numbers(s, names, "arm_length")?;
    let position_endstops: [Double; 3] = inherited_numbers(s, names, "position_endstop")?;
    let tower_angles: [Double; 3] = default_numbers(
        s,
        names,
        "angle",
        [num(TWO_HUNDRED_TEN), num(THREE_HUNDRED_THIRTY), num(NINETY)],
    )?;
    let step_distances: [Double; 3] = read_tower_steps(s, names)?;
    let radius: Double = from_printer(p, "delta_radius")?;
    let speeds: SpeedLimits = read_speed_limits(p)?;
    Ok(
        DeltaKinematics {
            max_velocity: speeds.max_velocity,
            max_accel: speeds.max_accel,
            max_z_velocity: speeds.max_z_velocity,
            max_z_accel: speeds.max_z_accel,
            minimum_z: number_or_else(p, "minimum_z_position", num(ZERO)),
            radius,
            print_radius: number_or_else(p, "print_radius", radius),
            arm_lengths,
            tower_angles,
            position_endstops,
            step_distances,
        },
    )
}

pub open spec fn polar_of(s: SettingsView, p: ObjectView) -> Outcome<PolarKinematics> {
    match (object_of(s, "stepper_arm"@), object_of(s, "stepper_z"@), speed_limits(p)) {
        (Err(e), _, _) => Err(e),
        (_, Err(e), _) => Err(e),
        (_, _, Err(e)) => Err(e),
        (Ok(arm), Ok(z), Ok(speeds)) => match (
            needed(arm, "configfile.settings.stepper_arm"@, "position_max"@),
            needed(z, "configfile.settings.stepper_z"@, "position_max"@),
        ) {
            (Err(e), _) => Err(e),
            (_, Err(e)) => Err(e),
            (Ok(maximum_radius), Ok(maximum_z)) => Ok(
                PolarKinematics {
                    max_velocity: speeds.max_velocity,
                    max_accel: speeds.max_accel,
                    max_z_velocity: speeds.max_z_velocity,
                    max_z_accel: speeds.max_z_accel,
                    max_angular_velocity: number_else(p, "max_angular_velocity"@, num(ZERO)),
                    maximum_radius,
                    minimum_z: number_else(z, "position_min"@, num(ZERO)),
                    maximum_z,
                },
            ),
        },
    }
}

fn read_polar(s: &Settings, p: &Object) -> (r: Result<PolarKinematics, SnapshotError>)
    ensures
        outcome(r) == polar_of(s.deep_view(), p.deep_view()),
{
    let arm: &Object = settings_object(s, "stepper_arm")?;
    let z: &Object = settings_object(s, "stepper_z")?;
    let speeds: SpeedLimits = read_speed_limits(p)?;
    Ok(
        PolarKinematics {
            max_velocity: speeds.max_velocity,
            max_accel: speeds.max_accel,
            max_z_velocity: speeds.max_z_velocity,
            max_z_accel: speeds.max_z_accel,
            max_angular_velocity: number_or_else(p, "max_angular_velocity", num(ZERO)),
            maximum_radius: number(arm, "configfile.settings.stepper_arm", "position_max")?,
            minimum_z: number_or_else(z, "position_min", num(ZERO)),
            maximum_z: number(z, "configfile.settings.stepper_z", "position_max")?,
        },
    )
}

/// The angle whose cosine a deltesian needs.
pub open spec fn minimum_angle_of(p: ObjectView) -> Double {
    number_else(p, "min_angle"@, num(FIVE))
}

/// The angle, in degrees, whose cosine a deltesian needs.
pub fn minimum_angle(p: &Object) -> (r: Double)
    ensures
        r == minimum_angle_of(p.deep_view()),
{
    number_or_else(p, "min_angle", num(FIVE))
}

pub open spec fn deltesian_of(s: SettingsView, p: ObjectView, cosine: Double) -> Outcome<
    DeltesianKinematics,
> {
    let names = ["stepper_left", "stepper_right"];
    match (
        inherited_pair(s, names, "arm_x_length"@),
        inherited_pair(s, names, "arm_length"@),
        inherited_pair(s, names, "position_endstop"@),
        object_of(s, "stepper_y"@),
        speed_limits(p),
    ) {
        (Err(e), _, _, _, _) => Err(e),
        (_, Err(e), _, _, _) => Err(e),
        (_, _, Err(e), _, _) => Err(e),
        (_, _, _, Err(e), _) => Err(e),
        (_, _, _, _, Err(e)) => Err(e),
        (Ok(arm_x_lengths), Ok(arm_lengths), Ok(position_endstops), Ok(y), Ok(speeds)) =>
            match needed(y, "configfile.settings.stepper_y"@, "position_max"@) {
            Err(e) => Err(e),
            Ok(y_max) => Ok(
                DeltesianKinematics {
                    max_velocity: speeds.max_velocity,
                    max_accel: speeds.max_accel,
                    max_z_velocity: speeds.max_z_velocity,
                    max_z_accel: speeds.max_z_accel,
                    minimum_z: number_else(p, "minimum_z_position"@, num(ZERO)),
                    minimum_angle: minimum_angle_of(p),
                    minimum_angle_cosine: cosine,
                    print_width: number_of(p, "print_width"@),
                    slow_ratio: number_else(p, "slow_ratio"@, num(THREE)),
                    arm_x_lengths,
                    arm_lengths,
                    position_endstops,
                    y_range: [number_else(y, "position_min"@, num(ZERO)), y_max],
                },
            ),
        },
    }
}

fn read_deltesian(s: &Settings, p: &Object, cosine: Double) -> (r: Result<
    DeltesianKinematics,
    SnapshotError,
>)
    ensures
        outcome(r) == deltesian_of(s.deep_view(), p.deep_view(), cosine),
{
    let names: [&str; 2] = ["stepper_left", "stepper_right"];
    let arm_x_lengths: [Double; 2] = inherited_number_pair(s, names, "arm_x_length")?;
    let arm_lengths: [Double; 2] = inherited_number_pair(s, names, "arm_length")?;
    let position_endstops: [Double; 2] = inherited_number_pair(s, names, "position_endstop")?;
    let y: &Object = settings_object(s, "stepper_y")?;
    let speeds: SpeedLimits = read_speed_limits(p)?;
    Ok(
        DeltesianKinematics {
            max_velocity: speeds.max_velocity,
            max_accel: speeds.max_accel,
            max_z_velocity: speeds.max_z_velocity,
            max_z_accel: speeds.max_z_accel,
            minimum_z: number_or_else(p, "minimum_z_position", num(ZERO)),
            minimum_angle: minimum_angle(p),
            minimum_angle_cosine: cosine,
            print_width: optional_number(p, "print_width"),
            slow_ratio: number_or_else(p, "slow_ratio", num(THREE)),
            arm_x_lengths,
            arm_lengths,
            position_endstops,
            y_range: [
                number_or_else(y, "position_min", num(ZERO)),
                number(y, "configfile.settings.stepper_y", "position_max")?,
            ],
        },
    )
}

pub open spec fn rotary_of(s: SettingsView, p: ObjectView) -> Outcome<RotaryDeltaKinematics> {
    let names = ["stepper_a", "stepper_b", "stepper_c"];
    match (
        printer_number(p, "max_z_velocity"@),
        printer_number(p, "shoulder_radius"@),
        printer_number(p, "shoulder_height"@),
        inherited(s, names, "upper_arm_length"@),
        inherited(s, names, "lower_arm_length"@),
        defaulted(
            s,
            names,
            "angle"@,
            [num(THIRTY), num(HUNDRED_FIFTY), num(TWO_HUNDRED_SEVENTY)],
        ),
        inherited(s, names, "position_endstop"@),
    ) {
        (Err(e), _, _, _, _, _, _) => Err(e),
        (_, Err(e), _, _, _, _, _) => Err(e),
        (_, _, Err(e), _, _, _, _) => Err(e),
        (_, _, _, Err(e), _, _, _) => Err(e),
        (_, _, _, _, Err(e), _, _) => Err(e),
        (_, _, _, _, _, Err(e), _) => Err(e),
        (_, _, _, _, _, _, Err(e)) => Err(e),
        (
            Ok(max_z_velocity),
            Ok(shoulder_radius),
            Ok(shoulder_height),
            Ok(upper_arm_lengths),
            Ok(lower_arm_lengths),
            Ok(tower_angles),
            Ok(position_endstops),
        ) => Ok(
            RotaryDeltaKinematics {
                max_z_velocity,
                minimum_z: number_else(p, "minimum_z_position"@, num(ZERO)),
                shoulder_radius,
                shoulder_height,
                upper_arm_lengths,
                lower_arm_lengths,
                tower_angles,
                position_endstops,
            },
        ),
    }
}

fn read_rotary(s: &Settings, p: &Object) -> (r: Result<RotaryDeltaKinematics, SnapshotError>)
    ensures
        outcome(r) == rotary_of(s.deep_view(), p.deep_view()),
{
    let names: [&str; 3] = ["stepper_a", "stepper_b", "stepper_c"];
    Ok(
        RotaryDeltaKinematics {
            max_z_velocity: from_printer(p, "max_z_velocity")?,
            minimum_z: number_or_else(p, "minimum_z_position", num(ZERO)),
            shoulder_radius: from_printer(p, "shoulder_radius")?,
            shoulder_height: from_printer(p, "shoulder_height")?,
            upper_arm_lengths: inherited_numbers(s, names, "upper_arm_length")?,
            lower_arm_lengths: inherited_numbers(s, names, "lower_arm_length")?,
            tower_angles: default_numbers(
                s,
                names,
                "angle",
                [num(THIRTY), num(HUNDRED_FIFTY), num(TWO_HUNDRED_SEVENTY)],
            )?,
            position_endstops: inherited_numbers(s, names, "position_endstop")?,
        },
    )
}

/// The range of an axis.
pub open spec fn axis_range(s: SettingsView, name: Seq<char>) -> Outcome<(Double, Double)> {
    match object_of(s, name) {
        Err(e) => Err(e),
        Ok(o) => match (
            needed(o, settings_path(name), "position_min"@),
            needed(o, settings_path(name), "position_max"@),
        ) {
            (Err(e), _) => Err(e),
            (_, Err(e)) => Err(e),
            (Ok(lo), Ok(hi)) => Ok((lo, hi)),
        },
    }
}

fn read_axis_range(s: &Settings, name: &str) -> (r: Result<(Double, Double), SnapshotError>)
    ensures
        outcome(r) == axis_range(s.deep_view(), name@),
{
    let o: &Object = settings_object(s, name)?;
    let path: String = dot("configfile.settings", name);
    let lo: Double = number(o, path.as_str(), "position_min")?;
    let hi: Double = number(o, path.as_str(), "position_max")?;
    Ok((lo, hi))
}

pub open spec fn cartesian_of(s: SettingsView, p: ObjectView, kind: CartesianKinematicsKind) -> Outcome<
    CartesianKinematics,
> {
    match (
        axis_range(s, "stepper_x"@),
        axis_range(s, "stepper_y"@),
        axis_range(s, "stepper_z"@),
        printer_number(p, "max_z_velocity"@),
        printer_number(p, "max_z_accel"@),
    ) {
        (Err(e), _, _, _, _) => Err(e),
        (_, Err(e), _, _, _) => Err(e),
        (_, _, Err(e), _, _) => Err(e),
        (_, _, _, Err(e), _) => Err(e),
        (_, _, _, _, Err(e)) => Err(e),
        (Ok(x), Ok(y), Ok(z), Ok(max_z_velocity), Ok(max_z_accel)) => Ok(
            CartesianKinematics {
                kind,
                axis_minimum: Vec3 { x: x.0, y: y.0, z: z.0 },
                axis_maximum: Vec3 { x: x.1, y: y.1, z: z.1 },
                max_z_velocity,
                max_z_accel,
            },
        ),
    }
}

fn read_cartesian(s: &Settings, p: &Object, kind: CartesianKinematicsKind) -> (r: Result<
    CartesianKinematics,
    SnapshotError,
>)
    ensures
        outcome(r) == cartesian_of(s.deep_view(), p.deep_view(), kind),
{
    let x: (Double, Double) = read_axis_range(s, "stepper_x")?;
    let y: (Double, Double) = read_axis_range(s, "stepper_y")?;
    let z: (Double, Double) = read_axis_range(s, "stepper_z")?;
    Ok(
        CartesianKinematics {
            kind,
            axis_minimum: Vec3 { x: x.0, y: y.0, z: z.0 },
            axis_maximum: Vec3 { x: x.1, y: y.1, z: z.1 },
            max_z_velocity: from_printer(p, "max_z_velocity")?,
            max_z_accel: from_printer(p, "max_z_accel")?,
        },
    )
}

/// The kind of a Cartesian-family backend.
pub open spec fn cartesian_kind(backend: Seq<char>) -> Option<CartesianKinematicsKind> {
    if backend == "cartesian"@ {
        Some(CartesianKinematicsKind::Cartesian)
    } else if backend == "corexy"@ {
        Some(CartesianKinematicsKind::Corexy)
    } else if backend == "corexz"@ {
        Some(CartesianKinematicsKind::Corexz)
    } else if backend == "hybrid_corexy"@ {
        Some(CartesianKinematicsKind::HybridCorexy)
    } else if backend == "hybrid_corexz"@ {
        Some(CartesianKinematicsKind::HybridCorexz)
    } else {
        None
    }
}

pub fn find_cartesian_kind(backend: &str) -> (r: Option<CartesianKinematicsKind>)
    ensures
        r == cartesian_kind(backend@),
{
    if same(backend, "cartesian") {
        Some(CartesianKinematicsKind::Cartesian)
    } else if same(backend, "corexy") {
        Some(CartesianKinematicsKind::Corexy)
    } else if same(backend, "corexz") {
        Some(CartesianKinematicsKind::Corexz)
    } else if same(backend, "hybrid_corexy") {
        Some(CartesianKinematicsKind::HybridCorexy)
    } else if same(backend, "hybrid_corexz") {
        Some(CartesianKinematicsKind::HybridCorexz)
    } else {
        None
    }
}

pub open spec fn not_modeled(backend: Seq<char>, reason: Seq<char>) -> Outcome<
    Kinematics<Seq<char>>,
> {
    Ok(Kinematics::Unsupported { backend, reason })
}

/// The kinematics that settings describe. `cosine` is that of the minimum angle of a deltesian.
pub open spec fn kinematics_of(s: SettingsView, p: ObjectView, cosine: Double) -> Outcome<
    Kinematics<Seq<char>>,
> {
    match text_in(p, "kinematics"@) {
        None => Ok(Kinematics::Unconfigured),
        Some(backend) => if has_key(s, "dual_carriage"@) {
            not_modeled(backend, "dual-carriage active state is not modeled"@)
        } else if cartesian_kind(backend) is Some {
            match cartesian_of(s, p, cartesian_kind(backend)->0) {
                Ok(config) => Ok(Kinematics::CartesianFamily { config }),
                Err(e) => Err(e),
            }
        } else if backend == "generic_cartesian"@ {
            not_modeled(backend, "generic Cartesian carriage expressions are not modeled"@)
        } else if backend == "delta"@ {
            match delta_of(s, p) {
                Ok(config) => validated(Kinematics::Delta { config }),
                Err(e) => Err(e),
            }
        } else if backend == "polar"@ {
            match polar_of(s, p) {
                Ok(config) => validated(Kinematics::Polar { config }),
                Err(e) => Err(e),
            }
        } else if backend == "deltesian"@ {
            match deltesian_of(s, p, cosine) {
                Ok(config) => validated(Kinematics::Deltesian { config }),
                Err(e) => Err(e),
            }
        } else if backend == "rotary_delta"@ {
            match rotary_of(s, p) {
                Ok(config) => validated(Kinematics::RotaryDelta { config }),
                Err(e) => Err(e),
            }
        } else {
            not_modeled(backend, "backend is not modeled"@)
        },
    }
}

/// The kinematics that settings describe. `cosine` is that of the minimum angle of a deltesian.
pub fn kinematics_from_settings(s: &Settings, p: &Object, cosine: Double) -> (r: Result<
    Kinematics,
    SnapshotError,
>)
    ensures
        kinematics_outcome(r) == kinematics_of(s.deep_view(), p.deep_view(), cosine),
{
    let backend: &str = match optional_text(p, "kinematics") {
        Some(backend) => backend,
        None => {
            return Ok(Kinematics::Unconfigured);
        },
    };
    if s.has("dual_carriage") {
        return Ok(
            Kinematics::unsupported(backend, "dual-carriage active state is not modeled"),
        );
    }
    if let Some(kind) = find_cartesian_kind(backend) {
        let config: CartesianKinematics = read_cartesian(s, p, kind)?;
        return Ok(Kinematics::CartesianFamily { config });
    }
    if same(backend, "generic_cartesian") {
        return Ok(
            Kinematics::unsupported(
                backend,
                "generic Cartesian carriage expressions are not modeled",
            ),
        );
    }
    if same(backend, "delta") {
        let config: DeltaKinematics = read_delta(s, p)?;
        return validated_kinematics(Kinematics::Delta { config });
    }
    if same(backend, "polar") {
        let config: PolarKinematics = read_polar(s, p)?;
        return validated_kinematics(Kinematics::Polar { config });
    }
    if same(backend, "deltesian") {
        let config: DeltesianKinematics = read_deltesian(s, p, cosine)?;
        return validated_kinematics(Kinematics::Deltesian { config });
    }
    if same(backend, "rotary_delta") {
        let config: RotaryDeltaKinematics = read_rotary(s, p)?;
        return validated_kinematics(Kinematics::RotaryDelta { config });
    }
    Ok(Kinematics::unsupported(backend, "backend is not modeled"))
}

/// No kinematics with a faulty geometry come out of settings.
pub proof fn configured_geometry_is_sound(s: SettingsView, p: ObjectView, cosine: Double)
    ensures
        kinematics_of(s, p, cosine) matches Ok(k) ==> geometry_fault(k) is None,
{
}

} // verus!
