//! Reachability and motion limits of the supported printer kinematics.

use vstd::prelude::*;

use crate::constants::HALF;
use crate::constants::QUARTER;
use crate::constants::SIX;
use crate::constants::THREE;
use crate::constants::TWELVE;
use crate::constants::TWO;
use crate::double::num;
use crate::double::Double;
use crate::double::ONE;
use crate::double::ZERO;
use crate::geometry::Vec3;
use crate::planning_move::PlanningMove;
use crate::rounding::INFINITY_BITS;

verus! {

/// Cartesian-family backends, which check moves in the same way.
#[derive(Clone, Copy, Debug, PartialEq, Eq, Structural)]
pub enum CartesianKinematicsKind {
    Cartesian,
    Corexy,
    Corexz,
    HybridCorexy,
    HybridCorexz,
}

#[derive(Clone, Copy, Debug)]
pub struct CartesianKinematics {
    pub kind: CartesianKinematicsKind,
    pub axis_minimum: Vec3,
    pub axis_maximum: Vec3,
    pub max_z_velocity: Double,
    pub max_z_accel: Double,
}

#[derive(Clone, Copy, Debug)]
pub struct DeltaKinematics {
    pub max_velocity: Double,
    pub max_accel: Double,
    pub max_z_velocity: Double,
    pub max_z_accel: Double,
    pub minimum_z: Double,
    pub radius: Double,
    pub print_radius: Double,
    pub arm_lengths: [Double; 3],
    pub tower_angles: [Double; 3],
    pub position_endstops: [Double; 3],
    pub step_distances: [Double; 3],
}

#[derive(Clone, Copy, Debug)]
pub struct PolarKinematics {
    pub max_velocity: Double,
    pub max_accel: Double,
    pub max_z_velocity: Double,
    pub max_z_accel: Double,
    pub max_angular_velocity: Double,
    pub maximum_radius: Double,
    pub minimum_z: Double,
    pub maximum_z: Double,
}

#[derive(Clone, Copy, Debug)]
pub struct DeltesianKinematics {
    pub max_velocity: Double,
    pub max_accel: Double,
    pub max_z_velocity: Double,
    pub max_z_accel: Double,
    pub minimum_z: Double,
    pub minimum_angle: Double,
    /// The cosine of `minimum_angle`.
    pub minimum_angle_cosine: Double,
    pub print_width: Option<Double>,
    pub slow_ratio: Double,
    pub arm_x_lengths: [Double; 2],
    pub arm_lengths: [Double; 2],
    pub position_endstops: [Double; 2],
    pub y_range: [Double; 2],
}

#[derive(Clone, Copy, Debug)]
pub struct RotaryDeltaKinematics {
    pub max_z_velocity: Double,
    pub minimum_z: Double,
    pub shoulder_radius: Double,
    pub shoulder_height: Double,
    pub upper_arm_lengths: [Double; 3],
    pub lower_arm_lengths: [Double; 3],
    pub tower_angles: [Double; 3],
    pub position_endstops: [Double; 3],
}

/// The kinematics backend of a printer.
#[allow(inconsistent_fields)]
#[derive(Clone, Debug)]
pub enum Kinematics<S = String> {
    /// No backend was recorded.
    Unconfigured,
    CartesianFamily { config: CartesianKinematics },
    Delta { config: DeltaKinematics },
    Polar { config: PolarKinematics },
    Deltesian { config: DeltesianKinematics },
    RotaryDelta { config: RotaryDeltaKinematics },
    Unsupported { backend: S, reason: S },
}

impl View for Kinematics {
    type V = Kinematics<Seq<char>>;

    open spec fn view(&self) -> Kinematics<Seq<char>> {
        match *self {
            Kinematics::Unconfigured => Kinematics::Unconfigured,
            Kinematics::CartesianFamily { config } => Kinematics::CartesianFamily { config },
            Kinematics::Delta { config } => Kinematics::Delta { config },
            Kinematics::Polar { config } => Kinematics::Polar { config },
            Kinematics::Deltesian { config } => Kinematics::Deltesian { config },
            Kinematics::RotaryDelta { config } => Kinematics::RotaryDelta { config },
            Kinematics::Unsupported { backend, reason } => Kinematics::Unsupported {
                backend: backend@,
                reason: reason@,
            },
        }
    }
}

/// Why Klipper would reject the end point of a move.
#[allow(inconsistent_fields)]
#[derive(Clone, Copy, Debug)]
pub enum MoveOutOfRange {
    Axis { axis: usize, position: Double, minimum: Double, maximum: Double },
    Reachability { backend: &'static str, position: Vec3 },
}

/// Planner-facing interface. Reachability and motion limits are separate, so that a geometry
/// error is never disguised as a plausible duration.
pub trait KinematicsChecker {
    /// Why the end point of a move cannot be reached.
    spec fn violation(&self, m: PlanningMove) -> Option<MoveOutOfRange>;

    /// The move restricted to the limits of the backend.
    spec fn restricted(&self, m: PlanningMove) -> PlanningMove;

    fn validate_move(&self, move_cmd: &PlanningMove) -> (r: Result<(), MoveOutOfRange>)
        ensures
            r == match self.violation(*move_cmd) {
                Some(v) => Err(v),
                None => Ok(()),
            },
    ;

    fn limit_move(&self, move_cmd: &mut PlanningMove)
        ensures
            *final(move_cmd) == self.restricted(*old(move_cmd)),
    ;

    /// Limits a move that can be reached; a move that cannot stays as it is.
    fn check_move(&self, move_cmd: &mut PlanningMove) -> (r: Result<(), MoveOutOfRange>)
        ensures
            r == match self.violation(*old(move_cmd)) {
                Some(v) => Err(v),
                None => Ok(()),
            },
            *final(move_cmd) == if self.violation(*old(move_cmd)) is Some {
                *old(move_cmd)
            } else {
                self.restricted(*old(move_cmd))
            },
    ;
}

pub open spec fn backend_text(k: Kinematics) -> Seq<char> {
    match k {
        Kinematics::Unconfigured => "unconfigured"@,
        Kinematics::CartesianFamily { config } => match config.kind {
            CartesianKinematicsKind::Cartesian => "cartesian"@,
            CartesianKinematicsKind::Corexy => "corexy"@,
            CartesianKinematicsKind::Corexz => "corexz"@,
            CartesianKinematicsKind::HybridCorexy => "hybrid_corexy"@,
            CartesianKinematicsKind::HybridCorexz => "hybrid_corexz"@,
        },
        Kinematics::Delta { .. } => "delta"@,
        Kinematics::Polar { .. } => "polar"@,
        Kinematics::Deltesian { .. } => "deltesian"@,
        Kinematics::RotaryDelta { .. } => "rotary_delta"@,
        Kinematics::Unsupported { backend, .. } => backend@,
    }
}

impl Kinematics {
    pub fn backend_name(&self) -> (r: &str)
        ensures
            r@ == backend_text(*self),
    {
        match self {
            Kinematics::Unconfigured => "unconfigured",
            Kinematics::CartesianFamily { config } => match config.kind {
                CartesianKinematicsKind::Cartesian => "cartesian",
                CartesianKinematicsKind::Corexy => "corexy",
                CartesianKinematicsKind::Corexz => "corexz",
                CartesianKinematicsKind::HybridCorexy => "hybrid_corexy",
                CartesianKinematicsKind::HybridCorexz => "hybrid_corexz",
            },
            Kinematics::Delta { .. } => "delta",
            Kinematics::Polar { .. } => "polar",
            Kinematics::Deltesian { .. } => "deltesian",
            Kinematics::RotaryDelta { .. } => "rotary_delta",
            Kinematics::Unsupported { backend, .. } => backend.as_str(),
        }
    }

    pub fn is_unconfigured(&self) -> (r: bool)
        ensures
            r == (*self is Unconfigured),
    {
        match self {
            Kinematics::Unconfigured => true,
            _ => false,
        }
    }

    pub fn unsupported(backend: &str, reason: &str) -> (r: Kinematics)
        ensures
            r matches Kinematics::Unsupported { backend: b, reason: w } && b@ == backend@ && w@
                == reason@,
    {
        Kinematics::Unsupported { backend: backend.to_owned(), reason: reason.to_owned() }
    }

    pub fn unsupported_details(&self) -> (r: Option<(&str, &str)>)
        ensures
            match *self {
                Kinematics::Unsupported { backend, reason } => r matches Some((b, w)) && b@
                    == backend@ && w@ == reason@,
                _ => r is None,
            },
    {
        match self {
            Kinematics::Unsupported { backend, reason } => Some((backend.as_str(), reason.as_str())),
            _ => None,
        }
    }
}

#[verifier::allow_in_spec]
pub fn axis_violation(axis: usize, position: Double, minimum: Double, maximum: Double) -> MoveOutOfRange
    returns
        (MoveOutOfRange::Axis { axis, position, minimum, maximum }),
{
    MoveOutOfRange::Axis { axis, position, minimum, maximum }
}

/// The violation of one axis range: only an axis that moves is checked.
pub open spec fn range_violation(
    m: PlanningMove,
    axis: usize,
    minimum: Double,
    maximum: Double,
) -> Option<MoveOutOfRange> {
    let position = m.end.axis(axis);
    if !m.delta().axis(axis).equals(num(ZERO)) && (position < minimum || position > maximum) {
        Some(MoveOutOfRange::Axis { axis, position, minimum, maximum })
    } else {
        None
    }
}

fn check_range(m: &PlanningMove, axis: usize, minimum: Double, maximum: Double) -> (r: Option<
    MoveOutOfRange,
>)
    ensures
        r == range_violation(*m, axis, minimum, maximum),
{
    let position = m.end.axis(axis);
    if m.delta().axis(axis) != num(ZERO) && (position < minimum || position > maximum) {
        Some(axis_violation(axis, position, minimum, maximum))
    } else {
        None
    }
}

/// The move restricted by limits that apply to its Z component.
pub open spec fn z_restricted(m: PlanningMove, velocity: Double, accel: Double) -> PlanningMove {
    let z = m.delta().z;
    if !z.equals(num(ZERO)) {
        let ratio = m.distance / z.abs();
        m.limited(velocity * ratio, accel * ratio)
    } else {
        m
    }
}

fn limit_z(m: &mut PlanningMove, velocity: Double, accel: Double)
    ensures
        *final(m) == z_restricted(*old(m), velocity, accel),
{
    let z = m.delta().z;
    if z != num(ZERO) {
        let ratio = m.distance / z.abs();
        m.limit_speed(velocity * ratio, accel * ratio);
    }
}

impl KinematicsChecker for CartesianKinematics {
    open spec fn violation(&self, m: PlanningMove) -> Option<MoveOutOfRange> {
        match range_violation(m, 0, self.axis_minimum.x, self.axis_maximum.x) {
            Some(v) => Some(v),
            None => match range_violation(m, 1, self.axis_minimum.y, self.axis_maximum.y) {
                Some(v) => Some(v),
                None => range_violation(m, 2, self.axis_minimum.z, self.axis_maximum.z),
            },
        }
    }

    open spec fn restricted(&self, m: PlanningMove) -> PlanningMove {
        z_restricted(m, self.max_z_velocity, self.max_z_accel)
    }

    fn validate_move(&self, move_cmd: &PlanningMove) -> Result<(), MoveOutOfRange> {
        if let Some(v) = check_range(move_cmd, 0, self.axis_minimum.x, self.axis_maximum.x) {
            return Err(v);
        }
        if let Some(v) = check_range(move_cmd, 1, self.axis_minimum.y, self.axis_maximum.y) {
            return Err(v);
        }
        if let Some(v) = check_range(move_cmd, 2, self.axis_minimum.z, self.axis_maximum.z) {
            return Err(v);
        }
        Ok(())
    }

    fn limit_move(&self, move_cmd: &mut PlanningMove) {
        limit_z(move_cmd, self.max_z_velocity, self.max_z_accel);
    }

    fn check_move(&self, move_cmd: &mut PlanningMove) -> (r: Result<(), MoveOutOfRange>) {
        match self.validate_move(move_cmd) {
            Ok(()) => {
                self.limit_move(move_cmd);
                Ok(())
            },
            Err(v) => Err(v),
        }
    }
}

/// The smallest of three numbers, NaN left out.
#[verifier::allow_in_spec]
pub fn least3(a: Double, b: Double, c: Double) -> Double
    returns
        num(INFINITY_BITS).min(a).min(b).min(c),
{
    num(INFINITY_BITS).min(a).min(b).min(c)
}

/// The smallest of two numbers, NaN left out.
#[verifier::allow_in_spec]
pub fn least2(a: Double, b: Double) -> Double
    returns
        num(INFINITY_BITS).min(a).min(b),
{
    num(INFINITY_BITS).min(a).min(b)
}

/// The height that an arm of the given length spans over a horizontal distance.
#[verifier::allow_in_spec]
pub fn arm_height(arm: Double, horizontal: Double) -> Double
    returns
        (arm.squared() - horizontal.squared()).sqrt(),
{
    (arm.squared() - horizontal.squared()).sqrt()
}

/// Envelope values that follow from delta geometry.
#[derive(Clone, Copy, Debug)]
pub struct DeltaEnvelope {
    pub min_arm: Double,
    pub max_z: Double,
    pub limit_z: Double,
    pub max_xy2: Double,
    pub slow_xy2: Double,
    pub very_slow_xy2: Double,
}

/// The distance from the centre at which delta arms reach the given ratio.
#[verifier::allow_in_spec]
pub fn ratio_radius(ratio: Double, min_arm: Double, half_step: Double, radius: Double) -> Double
    returns
        ratio * (min_arm.squared() / (ratio.squared() + num(ONE)) - half_step.squared()).sqrt()
            + half_step - radius,
{
    ratio * (min_arm.squared() / (ratio.squared() + num(ONE)) - half_step.squared()).sqrt()
        + half_step - radius
}

impl DeltaKinematics {
    /// The envelope of the machine. Moves are slowed down past the arm ratios three and six, and
    /// the arm ratio twelve bounds the reachable area.
    #[verifier::allow_in_spec]
    pub fn parameters(&self) -> DeltaEnvelope
        returns
            ({
                let arms = self.arm_lengths;
                let stops = self.position_endstops;
                let min_arm = least3(arms[0], arms[1], arms[2]);
                let half_step = least3(
                    self.step_distances[0],
                    self.step_distances[1],
                    self.step_distances[2],
                ) * num(HALF);
                DeltaEnvelope {
                    min_arm,
                    max_z: least3(stops[0], stops[1], stops[2]),
                    limit_z: least3(
                        stops[0] + arm_height(arms[0], self.radius) - arms[0],
                        stops[1] + arm_height(arms[1], self.radius) - arms[1],
                        stops[2] + arm_height(arms[2], self.radius) - arms[2],
                    ),
                    max_xy2: self.print_radius.min(min_arm - self.radius).min(
                        ratio_radius(num(TWELVE), min_arm, half_step, self.radius),
                    ).squared(),
                    slow_xy2: ratio_radius(
                        num(THREE),
                        min_arm,
                        half_step,
                        self.radius,
                    ).squared(),
                    very_slow_xy2: ratio_radius(
                        num(SIX),
                        min_arm,
                        half_step,
                        self.radius,
                    ).squared(),
                }
            }),
    {
        let arms = self.arm_lengths;
        let stops = self.position_endstops;
        let min_arm = least3(arms[0], arms[1], arms[2]);
        let half_step = least3(
            self.step_distances[0],
            self.step_distances[1],
            self.step_distances[2],
        ) * num(HALF);
        DeltaEnvelope {
            min_arm,
            max_z: least3(stops[0], stops[1], stops[2]),
            limit_z: least3(
                stops[0] + arm_height(arms[0], self.radius) - arms[0],
                stops[1] + arm_height(arms[1], self.radius) - arms[1],
                stops[2] + arm_height(arms[2], self.radius) - arms[2],
            ),
            max_xy2: self.print_radius.min(min_arm - self.radius).min(
                ratio_radius(num(TWELVE), min_arm, half_step, self.radius),
            ).squared(),
            slow_xy2: ratio_radius(num(THREE), min_arm, half_step, self.radius).squared(),
            very_slow_xy2: ratio_radius(num(SIX), min_arm, half_step, self.radius).squared(),
        }
    }
}

/// The squared distance of a point from the machine centre.
#[verifier::allow_in_spec]
pub fn xy2(x: Double, y: Double) -> Double
    returns
        x.squared() + y.squared(),
{
    x.squared() + y.squared()
}

impl KinematicsChecker for DeltaKinematics {
    open spec fn violation(&self, m: PlanningMove) -> Option<MoveOutOfRange> {
        let p = self.parameters();
        let end = m.end.xyz();
        let allowed = if end.z > p.limit_z {
            let above = end.z - p.limit_z;
            let radius = self.radius - arm_height(p.min_arm, p.min_arm - above);
            p.max_xy2.min(radius.squared())
        } else {
            p.max_xy2
        };
        if xy2(end.x, end.y) > allowed || end.z < self.minimum_z || end.z > p.max_z {
            Some(MoveOutOfRange::Reachability { backend: "delta", position: end })
        } else {
            None
        }
    }

    open spec fn restricted(&self, m: PlanningMove) -> PlanningMove {
        let p = self.parameters();
        let z = z_restricted(m, self.max_z_velocity, self.max_z_accel);
        let extreme = xy2(m.start.x, m.start.y).max(xy2(m.end.x, m.end.y));
        if extreme > p.slow_xy2 {
            let scale = if extreme > p.very_slow_xy2 {
                num(QUARTER)
            } else {
                num(HALF)
            };
            z.limited(self.max_velocity * scale, self.max_accel * scale)
        } else {
            z
        }
    }

    fn validate_move(&self, move_cmd: &PlanningMove) -> Result<(), MoveOutOfRange> {
        let p = self.parameters();
        let end = move_cmd.end.xyz();
        let mut allowed = p.max_xy2;
        if end.z > p.limit_z {
            let above = end.z - p.limit_z;
            let radius = self.radius - arm_height(p.min_arm, p.min_arm - above);
            allowed = allowed.min(radius.squared());
        }
        if xy2(end.x, end.y) > allowed || end.z < self.minimum_z || end.z > p.max_z {
            return Err(MoveOutOfRange::Reachability { backend: "delta", position: end });
        }
        Ok(())
    }

    fn limit_move(&self, move_cmd: &mut PlanningMove) {
        limit_z(move_cmd, self.max_z_velocity, self.max_z_accel);
        let p = self.parameters();
        let extreme = xy2(move_cmd.start.x, move_cmd.start.y).max(
            xy2(move_cmd.end.x, move_cmd.end.y),
        );
        if extreme > p.slow_xy2 {
            let scale = if extreme > p.very_slow_xy2 {
                num(QUARTER)
            } else {
                num(HALF)
            };
            move_cmd.limit_speed(self.max_velocity * scale, self.max_accel * scale);
        }
    }

    fn check_move(&self, move_cmd: &mut PlanningMove) -> (r: Result<(), MoveOutOfRange>) {
        match self.validate_move(move_cmd) {
            Ok(()) => {
                self.limit_move(move_cmd);
                Ok(())
            },
            Err(v) => Err(v),
        }
    }
}

/// The smallest distance of the XY path of a move from the machine centre.
#[verifier::allow_in_spec]
pub fn distance_to_center(m: PlanningMove) -> Double
    returns
        ({
            let sx = m.end.x - m.start.x;
            let sy = m.end.y - m.start.y;
            let dot = sx * m.start.x.negated() + sy * m.start.y.negated();
            let length2 = sx * sx + sy * sy;
            if dot <= num(ZERO) {
                (m.start.x * m.start.x + m.start.y * m.start.y).sqrt()
            } else if dot >= length2 {
                (m.end.x * m.end.x + m.end.y * m.end.y).sqrt()
            } else {
                (sx * m.start.y.negated() - sy * m.start.x.negated()).abs() / length2.sqrt()
            }
        }),
{
    let sx = m.end.x - m.start.x;
    let sy = m.end.y - m.start.y;
    let dot = sx * m.start.x.negated() + sy * m.start.y.negated();
    let length2 = sx * sx + sy * sy;
    if dot <= num(ZERO) {
        (m.start.x * m.start.x + m.start.y * m.start.y).sqrt()
    } else if dot >= length2 {
        (m.end.x * m.end.x + m.end.y * m.end.y).sqrt()
    } else {
        (sx * m.start.y.negated() - sy * m.start.x.negated()).abs() / length2.sqrt()
    }
}

impl KinematicsChecker for PolarKinematics {
    open spec fn violation(&self, m: PlanningMove) -> Option<MoveOutOfRange> {
        let end = m.end.xyz();
        if xy2(end.x, end.y) > self.maximum_radius.squared() {
            Some(MoveOutOfRange::Reachability { backend: "polar", position: end })
        } else {
            range_violation(m, 2, self.minimum_z, self.maximum_z)
        }
    }

    open spec fn restricted(&self, m: PlanningMove) -> PlanningMove {
        let z = z_restricted(m, self.max_z_velocity, self.max_z_accel);
        let delta = m.delta();
        let center = distance_to_center(m);
        if (!delta.x.equals(num(ZERO)) || !delta.y.equals(num(ZERO)))
            && !self.max_angular_velocity.equals(num(ZERO)) && !center.equals(num(ZERO)) {
            let angular = z.max_cruise_v2.sqrt() / center;
            if self.max_angular_velocity < angular {
                let scale = self.max_angular_velocity / angular;
                z.limited(self.max_velocity * scale, self.max_accel * scale)
            } else {
                z
            }
        } else {
            z
        }
    }

    fn validate_move(&self, move_cmd: &PlanningMove) -> Result<(), MoveOutOfRange> {
        let end = move_cmd.end.xyz();
        if xy2(end.x, end.y) > self.maximum_radius.squared() {
            return Err(MoveOutOfRange::Reachability { backend: "polar", position: end });
        }
        if let Some(v) = check_range(move_cmd, 2, self.minimum_z, self.maximum_z) {
            return Err(v);
        }
        Ok(())
    }

    fn limit_move(&self, move_cmd: &mut PlanningMove) {
        let delta = move_cmd.delta();
        limit_z(move_cmd, self.max_z_velocity, self.max_z_accel);
        if (delta.x != num(ZERO) || delta.y != num(ZERO)) && self.max_angular_velocity != num(
            ZERO,
        ) {
            let center = distance_to_center(*move_cmd);
            if center != num(ZERO) {
                let angular = move_cmd.max_cruise_v2.sqrt() / center;
                if self.max_angular_velocity < angular {
                    let scale = self.max_angular_velocity / angular;
                    move_cmd.limit_speed(self.max_velocity * scale, self.max_accel * scale);
                }
            }
        }
    }

    fn check_move(&self, move_cmd: &mut PlanningMove) -> (r: Result<(), MoveOutOfRange>) {
        match self.validate_move(move_cmd) {
            Ok(()) => {
                self.limit_move(move_cmd);
                Ok(())
            },
            Err(v) => Err(v),
        }
    }
}

impl DeltesianKinematics {
    /// The reachable X range.
    #[verifier::allow_in_spec]
    pub fn x_limits(&self) -> (Double, Double)
        returns
            ({
                let cosine = self.minimum_angle_cosine;
                let x_min = self.arm_x_lengths[0].negated().max(
                    (cosine * self.arm_lengths[1] - self.arm_x_lengths[1]).negated(),
                ).ceil();
                let x_max = self.arm_x_lengths[1].min(
                    cosine * self.arm_lengths[0] - self.arm_x_lengths[0],
                ).floor();
                match self.print_width {
                    Some(width) => if width.equals(num(ZERO)) {
                        (x_min, x_max)
                    } else {
                        (width.negated() * num(HALF), width * num(HALF))
                    },
                    None => (x_min, x_max),
                }
            }),
    {
        let cosine = self.minimum_angle_cosine;
        let x_min = self.arm_x_lengths[0].negated().max(
            (cosine * self.arm_lengths[1] - self.arm_x_lengths[1]).negated(),
        ).ceil();
        let x_max = self.arm_x_lengths[1].min(
            cosine * self.arm_lengths[0] - self.arm_x_lengths[0],
        ).floor();
        match self.print_width {
            Some(width) => if width == num(ZERO) {
                (x_min, x_max)
            } else {
                (width.negated() * num(HALF), width * num(HALF))
            },
            None => (x_min, x_max),
        }
    }

    /// The height that both pillars allow at `x`.
    #[verifier::allow_in_spec]
    pub fn pillars_z_max(&self, x: Double) -> Double
        returns
            ({
                let arms = self.arm_lengths;
                let arms_x = self.arm_x_lengths;
                let stops = self.position_endstops;
                least2(
                    stops[0] + arm_height(arms[0], arms_x[0]) - arm_height(arms[0], arms_x[0] + x),
                    stops[1] + arm_height(arms[1], arms_x[1]) - arm_height(arms[1], arms_x[1] - x),
                )
            }),
    {
        let arms = self.arm_lengths;
        let arms_x = self.arm_x_lengths;
        let stops = self.position_endstops;
        least2(
            stops[0] + arm_height(arms[0], arms_x[0]) - arm_height(arms[0], arms_x[0] + x),
            stops[1] + arm_height(arms[1], arms_x[1]) - arm_height(arms[1], arms_x[1] - x),
        )
    }

    /// The height that is reachable over the whole X range.
    #[verifier::allow_in_spec]
    pub fn max_z(&self) -> Double
        returns
            self.pillars_z_max(self.x_limits().0).min(self.pillars_z_max(self.x_limits().1)),
    {
        let limits = self.x_limits();
        self.pillars_z_max(limits.0).min(self.pillars_z_max(limits.1))
    }

    /// The squared X distances past which moves are slow and very slow.
    #[verifier::allow_in_spec]
    pub fn slow_limits(&self) -> Option<(Double, Double)>
        returns
            ({
                let sr2 = self.slow_ratio.squared();
                let arms = self.arm_lengths;
                let arms_x = self.arm_x_lengths;
                if self.slow_ratio.equals(num(ZERO)) {
                    None
                } else {
                    Some(
                        (
                            least2(
                                (sr2 * arms[0].squared() / (sr2 + num(ONE))).sqrt() - arms_x[0],
                                (sr2 * arms[1].squared() / (sr2 + num(ONE))).sqrt() - arms_x[1],
                            ).squared(),
                            least2(
                                (num(TWO) * sr2 * arms[0].squared() / (num(TWO) * sr2 + num(
                                    ONE,
                                ))).sqrt() - arms_x[0],
                                (num(TWO) * sr2 * arms[1].squared() / (num(TWO) * sr2 + num(
                                    ONE,
                                ))).sqrt() - arms_x[1],
                            ).squared(),
                        ),
                    )
                }
            }),
    {
        let sr2 = self.slow_ratio.squared();
        let arms = self.arm_lengths;
        let arms_x = self.arm_x_lengths;
        if self.slow_ratio == num(ZERO) {
            return None;
        }
        let slow = least2(
            (sr2 * arms[0].squared() / (sr2 + num(ONE))).sqrt() - arms_x[0],
            (sr2 * arms[1].squared() / (sr2 + num(ONE))).sqrt() - arms_x[1],
        ).squared();
        let very_slow = least2(
            (num(TWO) * sr2 * arms[0].squared() / (num(TWO) * sr2 + num(ONE))).sqrt() - arms_x[0],
            (num(TWO) * sr2 * arms[1].squared() / (num(TWO) * sr2 + num(ONE))).sqrt() - arms_x[1],
        ).squared();
        Some((slow, very_slow))
    }
}

impl KinematicsChecker for DeltesianKinematics {
    open spec fn violation(&self, m: PlanningMove) -> Option<MoveOutOfRange> {
        let x = self.x_limits();
        let top = if m.end.z > self.max_z() {
            self.pillars_z_max(m.end.x)
        } else {
            self.max_z()
        };
        match range_violation(m, 0, x.0, x.1) {
            Some(v) => Some(v),
            None => match range_violation(m, 1, self.y_range[0], self.y_range[1]) {
                Some(v) => Some(v),
                None => range_violation(m, 2, self.minimum_z, top),
            },
        }
    }

    open spec fn restricted(&self, m: PlanningMove) -> PlanningMove {
        let z = z_restricted(m, self.max_z_velocity, self.max_z_accel);
        if m.delta().x.equals(num(ZERO)) {
            z
        } else {
            match self.slow_limits() {
                Some((slow_x2, very_slow_x2)) => {
                    let move_x2 = m.start.x.squared().max(m.end.x.squared());
                    if move_x2 > very_slow_x2 {
                        z.limited(self.max_velocity * num(QUARTER), self.max_accel * num(QUARTER))
                    } else if move_x2 > slow_x2 {
                        z.limited(self.max_velocity * num(HALF), self.max_accel * num(HALF))
                    } else {
                        z
                    }
                },
                None => z,
            }
        }
    }

    fn validate_move(&self, move_cmd: &PlanningMove) -> Result<(), MoveOutOfRange> {
        let max_z = self.max_z();
        let top = if move_cmd.end.z > max_z {
            self.pillars_z_max(move_cmd.end.x)
        } else {
            max_z
        };
        let x = self.x_limits();
        if let Some(v) = check_range(move_cmd, 0, x.0, x.1) {
            return Err(v);
        }
        if let Some(v) = check_range(move_cmd, 1, self.y_range[0], self.y_range[1]) {
            return Err(v);
        }
        if let Some(v) = check_range(move_cmd, 2, self.minimum_z, top) {
            return Err(v);
        }
        Ok(())
    }

    fn limit_move(&self, move_cmd: &mut PlanningMove) {
        limit_z(move_cmd, self.max_z_velocity, self.max_z_accel);
        if move_cmd.delta().x != num(ZERO) {
            if let Some((slow_x2, very_slow_x2)) = self.slow_limits() {
                let move_x2 = move_cmd.start.x.squared().max(move_cmd.end.x.squared());
                if move_x2 > very_slow_x2 {
                    move_cmd.limit_speed(
                        self.max_velocity * num(QUARTER),
                        self.max_accel * num(QUARTER),
                    );
                } else if move_x2 > slow_x2 {
                    move_cmd.limit_speed(
                        self.max_velocity * num(HALF),
                        self.max_accel * num(HALF),
                    );
                }
            }
        }
    }

    fn check_move(&self, move_cmd: &mut PlanningMove) -> (r: Result<(), MoveOutOfRange>) {
        match self.validate_move(move_cmd) {
            Ok(()) => {
                self.limit_move(move_cmd);
                Ok(())
            },
            Err(v) => Err(v),
        }
    }
}

/// The height at which a rotary-delta elbow of one tower tops out.
#[verifier::allow_in_spec]
pub fn elbow_limit(
    shoulder_radius: Double,
    shoulder_height: Double,
    upper: Double,
    lower: Double,
    endstop: Double,
) -> Double
    returns
        ({
            let dx = shoulder_radius.negated();
            let dy = endstop - shoulder_height;
            let upper2 = upper.squared();
            let lower2 = lower.squared();
            let c1 = num(HALF) / dy * (dx * dx + dy * dy + upper2 - lower2);
            let c2 = dx / dy;
            let scale = c2 * c2 + num(ONE);
            let elbow_x = c1 * c2 + (scale * upper2 - c1 * c1).sqrt();
            let elbow_y = (c1 * scale - c2 * elbow_x) / scale;
            shoulder_height + elbow_y - lower
        }),
{
    let dx = shoulder_radius.negated();
    let dy = endstop - shoulder_height;
    let upper2 = upper.squared();
    let lower2 = lower.squared();
    let c1 = num(HALF) / dy * (dx * dx + dy * dy + upper2 - lower2);
    let c2 = dx / dy;
    let scale = c2 * c2 + num(ONE);
    let elbow_x = c1 * c2 + (scale * upper2 - c1 * c1).sqrt();
    let elbow_y = (c1 * scale - c2 * elbow_x) / scale;
    shoulder_height + elbow_y - lower
}

impl RotaryDeltaKinematics {
    /// The height limit, the squared radius limit and the height past which the radius shrinks.
    #[verifier::allow_in_spec]
    pub fn limits(&self) -> (Double, Double, Double)
        returns
            ({
                let r = self.shoulder_radius;
                let upper = self.upper_arm_lengths;
                let lower = self.lower_arm_lengths;
                let stops = self.position_endstops;
                (
                    least3(stops[0], stops[1], stops[2]),
                    least3(r + upper[0], r + upper[1], r + upper[2]).min(
                        least3(lower[0] - r, lower[1] - r, lower[2] - r),
                    ).squared(),
                    least3(
                        elbow_limit(r, self.shoulder_height, upper[0], lower[0], stops[0]),
                        elbow_limit(r, self.shoulder_height, upper[1], lower[1], stops[1]),
                        elbow_limit(r, self.shoulder_height, upper[2], lower[2], stops[2]),
                    ),
                )
            }),
    {
        let r = self.shoulder_radius;
        let upper = self.upper_arm_lengths;
        let lower = self.lower_arm_lengths;
        let stops = self.position_endstops;
        (
            least3(stops[0], stops[1], stops[2]),
            least3(r + upper[0], r + upper[1], r + upper[2]).min(
                least3(lower[0] - r, lower[1] - r, lower[2] - r),
            ).squared(),
            least3(
                elbow_limit(r, self.shoulder_height, upper[0], lower[0], stops[0]),
                elbow_limit(r, self.shoulder_height, upper[1], lower[1], stops[1]),
                elbow_limit(r, self.shoulder_height, upper[2], lower[2], stops[2]),
            ),
        )
    }
}

impl KinematicsChecker for RotaryDeltaKinematics {
    open spec fn violation(&self, m: PlanningMove) -> Option<MoveOutOfRange> {
        let end = m.end.xyz();
        let (max_z, max_xy2, limit_z) = self.limits();
        let allowed = if end.z > limit_z {
            max_xy2.min((max_z - end.z).squared())
        } else {
            max_xy2
        };
        if xy2(end.x, end.y) > allowed || end.z < self.minimum_z || end.z > max_z {
            Some(MoveOutOfRange::Reachability { backend: "rotary_delta", position: end })
        } else {
            None
        }
    }

    /// Only the velocity is limited: the move keeps its acceleration.
    open spec fn restricted(&self, m: PlanningMove) -> PlanningMove {
        if m.delta().z.equals(num(ZERO)) {
            m
        } else {
            m.limited(self.max_z_velocity, m.acceleration)
        }
    }

    fn validate_move(&self, move_cmd: &PlanningMove) -> Result<(), MoveOutOfRange> {
        let end = move_cmd.end.xyz();
        let (max_z, max_xy2, limit_z) = self.limits();
        let allowed = if end.z > limit_z {
            max_xy2.min((max_z - end.z).squared())
        } else {
            max_xy2
        };
        if xy2(end.x, end.y) > allowed || end.z < self.minimum_z || end.z > max_z {
            return Err(MoveOutOfRange::Reachability { backend: "rotary_delta", position: end });
        }
        Ok(())
    }

    fn limit_move(&self, move_cmd: &mut PlanningMove) {
        if move_cmd.delta().z != num(ZERO) {
            let acceleration = move_cmd.acceleration;
            move_cmd.limit_speed(self.max_z_velocity, acceleration);
        }
    }

    fn check_move(&self, move_cmd: &mut PlanningMove) -> (r: Result<(), MoveOutOfRange>) {
        match self.validate_move(move_cmd) {
            Ok(()) => {
                self.limit_move(move_cmd);
                Ok(())
            },
            Err(v) => Err(v),
        }
    }
}

impl KinematicsChecker for Kinematics {
    open spec fn violation(&self, m: PlanningMove) -> Option<MoveOutOfRange> {
        match *self {
            Kinematics::CartesianFamily { config } => config.violation(m),
            Kinematics::Delta { config } => config.violation(m),
            Kinematics::Polar { config } => config.violation(m),
            Kinematics::Deltesian { config } => config.violation(m),
            Kinematics::RotaryDelta { config } => config.violation(m),
            Kinematics::Unconfigured => None,
            Kinematics::Unsupported { .. } => None,
        }
    }

    open spec fn restricted(&self, m: PlanningMove) -> PlanningMove {
        match *self {
            Kinematics::CartesianFamily { config } => config.restricted(m),
            Kinematics::Delta { config } => config.restricted(m),
            Kinematics::Polar { config } => config.restricted(m),
            Kinematics::Deltesian { config } => config.restricted(m),
            Kinematics::RotaryDelta { config } => config.restricted(m),
            Kinematics::Unconfigured => m,
            Kinematics::Unsupported { .. } => m,
        }
    }

    fn validate_move(&self, move_cmd: &PlanningMove) -> Result<(), MoveOutOfRange> {
        match self {
            Kinematics::CartesianFamily { config } => config.validate_move(move_cmd),
            Kinematics::Delta { config } => config.validate_move(move_cmd),
            Kinematics::Polar { config } => config.validate_move(move_cmd),
            Kinematics::Deltesian { config } => config.validate_move(move_cmd),
            Kinematics::RotaryDelta { config } => config.validate_move(move_cmd),
            Kinematics::Unconfigured => Ok(()),
            Kinematics::Unsupported { .. } => Ok(()),
        }
    }

    fn limit_move(&self, move_cmd: &mut PlanningMove) {
        match self {
            Kinematics::CartesianFamily { config } => config.limit_move(move_cmd),
            Kinematics::Delta { config } => config.limit_move(move_cmd),
            Kinematics::Polar { config } => config.limit_move(move_cmd),
            Kinematics::Deltesian { config } => config.limit_move(move_cmd),
            Kinematics::RotaryDelta { config } => config.limit_move(move_cmd),
            Kinematics::Unconfigured => {},
            Kinematics::Unsupported { .. } => {},
        }
    }

    fn check_move(&self, move_cmd: &mut PlanningMove) -> (r: Result<(), MoveOutOfRange>) {
        match self.validate_move(move_cmd) {
            Ok(()) => {
                self.limit_move(move_cmd);
                Ok(())
            },
            Err(v) => Err(v),
        }
    }
}

} // verus!
