//! Printer limits and the limits of its extruders.

use vstd::prelude::*;

use crate::constants::EXTRUDE_CROSS_SECTION;
use crate::constants::FIFTY;
use crate::constants::FILAMENT_DIAMETER;
use crate::constants::FIVE;
use crate::constants::HALF;
use crate::constants::HUNDRED;
use crate::constants::HUNDRED_THOUSAND;
use crate::constants::NOZZLE_DIAMETER;
use crate::constants::PI;
use crate::constants::TWO;
use crate::double::num;
use crate::double::Double;
use crate::double::ONE;
use crate::double::ZERO;
use crate::geometry::Vec3;
use crate::geometry::Vec4;
use crate::kinematics::Kinematics;
use crate::motion_transform::MotionTransformConfig;
use crate::planning_move::ExtruderViolation;
use crate::planning_move::PlanningMove;
use crate::table::Table;

verus! {

/// How coordinates of an axis are read.
#[derive(Clone, Copy, Debug, PartialEq, Eq, Structural)]
pub enum PositionMode {
    Absolute,
    Relative,
}

/// What a command with a declared duration does.
#[derive(Clone, Copy, Debug, PartialEq, Eq, Structural)]
pub enum DurationContractCategory {
    Macro,
    Homing,
    Probing,
    Other,
}

/// Why a command has no known duration.
#[derive(Clone, Copy, Debug, PartialEq, Eq, Structural)]
pub enum UnknownDurationCategory {
    TemperatureWait,
    Homing,
    FilamentChange,
    CommandOrMacro,
}

/// The state that a command with a declared duration leaves behind.
#[derive(Clone, Debug)]
pub struct ContractState {
    pub coordinate_mode: Option<PositionMode>,
    pub extrusion_mode: Option<PositionMode>,
    pub gcode_position: Option<Vec4>,
    pub physical_position: Option<Vec4>,
    pub speed_factor_percent: Option<Double>,
    pub extrusion_factor_percent: Option<Double>,
    pub active_extruder: Option<String>,
}

/// A declared duration of a command, in seconds.
#[derive(Clone, Debug)]
pub struct CommandContract {
    pub duration: Double,
    pub category: DurationContractCategory,
    pub state: ContractState,
}

#[derive(Clone, Copy, Debug)]
pub struct FirmwareRetractionOptions {
    pub retract_length: Double,
    pub unretract_extra_length: Double,
    pub unretract_speed: Double,
    pub retract_speed: Double,
    pub lift_z: Double,
}

#[derive(Clone, Copy, Debug)]
pub struct ExtruderLimits {
    pub nozzle_diameter: Double,
    pub filament_diameter: Double,
    pub max_extrude_only_velocity: Double,
    pub max_extrude_only_accel: Double,
    pub max_extrude_only_distance: Double,
    pub instantaneous_corner_velocity: Double,
    pub max_extrude_cross_section: Double,
}

impl ExtruderLimits {
    #[verifier::allow_in_spec]
    pub fn defaults() -> ExtruderLimits
        returns
            (ExtruderLimits {
                nozzle_diameter: num(NOZZLE_DIAMETER),
                filament_diameter: num(FILAMENT_DIAMETER),
                max_extrude_only_velocity: num(HUNDRED),
                max_extrude_only_accel: num(HUNDRED),
                max_extrude_only_distance: num(FIFTY),
                instantaneous_corner_velocity: num(ONE),
                max_extrude_cross_section: num(EXTRUDE_CROSS_SECTION),
            }),
    {
        ExtruderLimits {
            nozzle_diameter: num(NOZZLE_DIAMETER),
            filament_diameter: num(FILAMENT_DIAMETER),
            max_extrude_only_velocity: num(HUNDRED),
            max_extrude_only_accel: num(HUNDRED),
            max_extrude_only_distance: num(FIFTY),
            instantaneous_corner_velocity: num(ONE),
            max_extrude_cross_section: num(EXTRUDE_CROSS_SECTION),
        }
    }

    #[verifier::allow_in_spec]
    pub fn filament_area(&self) -> Double
        returns
            num(PI) * (self.filament_diameter * num(HALF)).squared(),
    {
        num(PI) * (self.filament_diameter * num(HALF)).squared()
    }

    #[verifier::allow_in_spec]
    pub fn max_extrude_ratio(&self) -> Double
        returns
            self.max_extrude_cross_section / self.filament_area(),
    {
        self.max_extrude_cross_section / self.filament_area()
    }

    /// The move with the extruder's limits applied.
    pub open spec fn checked(self, m: PlanningMove) -> PlanningMove {
        let axis_r = m.rate.w;
        let axis_d = m.delta().w;
        if !m.is_extrude_move() {
            m
        } else if (m.delta().x.equals(num(ZERO)) && m.delta().y.equals(num(ZERO))) || axis_r < num(
            ZERO,
        ) {
            let inv = num(ONE) / axis_r.abs();
            let flagged = if axis_d.abs() > self.max_extrude_only_distance {
                PlanningMove {
                    extruder_violation: Some(ExtruderViolation::ExtrudeOnlyMoveTooLong),
                    ..m
                }
            } else {
                m
            };
            flagged.limited(
                self.max_extrude_only_velocity * inv,
                self.max_extrude_only_accel * inv,
            )
        } else {
            let max_ratio = self.max_extrude_ratio();
            if axis_r > max_ratio && axis_d > self.nozzle_diameter * max_ratio {
                PlanningMove {
                    extruder_violation: Some(ExtruderViolation::MaximumCrossSection),
                    ..m
                }
            } else {
                m
            }
        }
    }

    /// Applies the extruder's limits: retractions and moves without X/Y travel follow the
    /// extrude-only limits, other moves the maximum cross section.
    pub fn check_move(&self, m: &mut PlanningMove)
        ensures
            *final(m) == self.checked(*old(m)),
    {
        if !m.is_extrude_move() {
            return;
        }
        let axis_r = m.rate.w;
        let axis_d = m.delta().w;
        if (m.delta().x == num(ZERO) && m.delta().y == num(ZERO)) || axis_r < num(ZERO) {
            if axis_d.abs() > self.max_extrude_only_distance {
                m.extruder_violation = Some(ExtruderViolation::ExtrudeOnlyMoveTooLong);
            }
            let inv = num(ONE) / axis_r.abs();
            m.limit_speed(self.max_extrude_only_velocity * inv, self.max_extrude_only_accel * inv);
        } else {
            let max_ratio = self.max_extrude_ratio();
            if axis_r > max_ratio && axis_d > self.nozzle_diameter * max_ratio {
                m.extruder_violation = Some(ExtruderViolation::MaximumCrossSection);
            }
        }
    }
}

/// A limit that applies to moves in one direction, or to the extruder alone.
#[derive(Clone, Copy, Debug)]
pub enum MoveChecker {
    AxisLimiter { axis: Vec3, max_velocity: Double, max_accel: Double },
    ExtruderLimiter { max_velocity: Double, max_accel: Double },
}

impl MoveChecker {
    /// The move with the limit applied.
    pub open spec fn checked(self, m: PlanningMove) -> PlanningMove {
        match self {
            MoveChecker::AxisLimiter { axis, max_velocity, max_accel } => {
                if m.is_zero_distance() {
                    m
                } else {
                    let ratio = m.distance / m.delta().xyz().dot(axis).abs();
                    m.limited(max_velocity * ratio, max_accel * ratio)
                }
            },
            MoveChecker::ExtruderLimiter { max_velocity, max_accel } => {
                let e_rate = m.rate.w;
                if m.is_extrude_only_move() && ((m.rate.x.equals(num(ZERO)) && m.rate.y.equals(
                    num(ZERO),
                )) || e_rate < num(ZERO)) {
                    let inv = num(ONE) / e_rate.abs();
                    m.limited(max_velocity * inv, max_accel * inv)
                } else {
                    m
                }
            },
        }
    }

    pub fn check(&self, m: &mut PlanningMove)
        ensures
            *final(m) == self.checked(*old(m)),
    {
        match *self {
            MoveChecker::AxisLimiter { axis, max_velocity, max_accel } => {
                if m.is_zero_distance() {
                    return;
                }
                let ratio = m.distance / m.delta().xyz().dot(axis).abs();
                m.limit_speed(max_velocity * ratio, max_accel * ratio);
            },
            MoveChecker::ExtruderLimiter { max_velocity, max_accel } => {
                if !m.is_extrude_only_move() {
                    return;
                }
                let e_rate = m.rate.w;
                if (m.rate.x == num(ZERO) && m.rate.y == num(ZERO)) || e_rate < num(ZERO) {
                    let inv = num(ONE) / e_rate.abs();
                    m.limit_speed(max_velocity * inv, max_accel * inv);
                }
            },
        }
    }
}

/// All limits that the planner works with.
#[derive(Clone, Debug)]
pub struct PrinterLimits {
    pub max_velocity: Double,
    pub max_acceleration: Double,
    pub max_accel_to_decel: Option<Double>,
    pub minimum_cruise_ratio: Option<Double>,
    pub square_corner_velocity: Double,
    pub junction_deviation: Double,
    pub mcr_pseudo_accel: Double,
    pub instant_corner_velocity: Double,
    pub extruders: Table<ExtruderLimits>,
    pub initial_extruder: Option<String>,
    pub firmware_retraction: Option<FirmwareRetractionOptions>,
    pub mm_per_arc_segment: Option<Double>,
    pub move_checkers: Vec<MoveChecker>,
    pub kinematics: Kinematics,
    pub motion_transforms: MotionTransformConfig,
    pub initial_coordinate_mode: PositionMode,
    pub initial_extrusion_mode: PositionMode,
    /// Declared durations by upper-case command name.
    pub command_contracts: Table<CommandContract>,
}

/// The junction deviation that allows the given speed at a right-angle corner.
#[verifier::allow_in_spec]
pub fn scv_to_jd(scv: Double, acceleration: Double) -> Double
    returns
        scv * scv * (num(TWO).sqrt() - num(ONE)) / acceleration,
{
    scv * scv * (num(TWO).sqrt() - num(ONE)) / acceleration
}

/// The acceleration that the minimum cruise ratio leaves for speeding up.
#[verifier::allow_in_spec]
pub fn pseudo_accel(
    minimum_cruise_ratio: Option<Double>,
    max_accel_to_decel: Option<Double>,
    max_acceleration: Double,
) -> Double
    returns
        (match (minimum_cruise_ratio, max_accel_to_decel) {
            (Some(v), _) => max_acceleration * (num(ONE) - v.clamp(num(ZERO), num(ONE))),
            (_, Some(v)) => v.min(max_acceleration),
            _ => num(FIFTY).min(max_acceleration),
        }),
{
    match (minimum_cruise_ratio, max_accel_to_decel) {
        (Some(v), _) => max_acceleration * (num(ONE) - v.clamp(num(ZERO), num(ONE))),
        (_, Some(v)) => v.min(max_acceleration),
        _ => num(FIFTY).min(max_acceleration),
    }
}

impl PrinterLimits {
    /// The limits with the derived values brought up to date.
    pub open spec fn recalculated(self) -> PrinterLimits {
        PrinterLimits {
            junction_deviation: scv_to_jd(self.square_corner_velocity, self.max_acceleration),
            mcr_pseudo_accel: pseudo_accel(
                self.minimum_cruise_ratio,
                self.max_accel_to_decel,
                self.max_acceleration,
            ),
            ..self
        }
    }

    pub fn recalculate(&mut self)
        ensures
            *final(self) == old(self).recalculated(),
    {
        self.junction_deviation = scv_to_jd(self.square_corner_velocity, self.max_acceleration);
        self.mcr_pseudo_accel = pseudo_accel(
            self.minimum_cruise_ratio,
            self.max_accel_to_decel,
            self.max_acceleration,
        );
    }

    pub fn set_max_velocity(&mut self, v: Double)
        ensures
            *final(self) == (PrinterLimits { max_velocity: v, ..*old(self) }),
    {
        self.max_velocity = v;
    }

    pub open spec fn with_max_acceleration(self, v: Double) -> PrinterLimits {
        PrinterLimits { max_acceleration: v, ..self }.recalculated()
    }

    pub fn set_max_acceleration(&mut self, v: Double)
        ensures
            *final(self) == old(self).with_max_acceleration(v),
    {
        self.max_acceleration = v;
        self.recalculate();
    }

    pub open spec fn with_max_accel_to_decel(self, v: Double) -> PrinterLimits {
        PrinterLimits {
            max_accel_to_decel: Some(v),
            minimum_cruise_ratio: None,
            mcr_pseudo_accel: v.min(self.max_acceleration),
            ..self
        }
    }

    pub fn set_max_accel_to_decel(&mut self, v: Double)
        ensures
            *final(self) == old(self).with_max_accel_to_decel(v),
    {
        self.max_accel_to_decel = Some(v);
        self.minimum_cruise_ratio = None;
        self.mcr_pseudo_accel = pseudo_accel(
            self.minimum_cruise_ratio,
            self.max_accel_to_decel,
            self.max_acceleration,
        );
    }

    pub open spec fn with_minimum_cruise_ratio(self, v: Double) -> PrinterLimits {
        let ratio = v.clamp(num(ZERO), num(ONE));
        PrinterLimits {
            max_accel_to_decel: None,
            minimum_cruise_ratio: Some(ratio),
            mcr_pseudo_accel: self.max_acceleration * (num(ONE) - ratio.clamp(
                num(ZERO),
                num(ONE),
            )),
            ..self
        }
    }

    pub fn set_minimum_cruise_ratio(&mut self, v: Double)
        ensures
            *final(self) == old(self).with_minimum_cruise_ratio(v),
    {
        self.max_accel_to_decel = None;
        self.minimum_cruise_ratio = Some(v.clamp(num(ZERO), num(ONE)));
        self.mcr_pseudo_accel = pseudo_accel(
            self.minimum_cruise_ratio,
            self.max_accel_to_decel,
            self.max_acceleration,
        );
    }

    pub open spec fn with_square_corner_velocity(self, scv: Double) -> PrinterLimits {
        PrinterLimits {
            square_corner_velocity: scv,
            junction_deviation: scv_to_jd(scv, self.max_acceleration),
            ..self
        }
    }

    pub fn set_square_corner_velocity(&mut self, scv: Double)
        ensures
            *final(self) == old(self).with_square_corner_velocity(scv),
    {
        self.square_corner_velocity = scv;
        self.junction_deviation = scv_to_jd(self.square_corner_velocity, self.max_acceleration);
    }

    pub fn set_instant_corner_velocity(&mut self, icv: Double)
        ensures
            *final(self) == (PrinterLimits { instant_corner_velocity: icv, ..*old(self) }),
    {
        self.instant_corner_velocity = icv;
    }

    /// Generic limits: slow, with no extruders, checks or transforms, absolute coordinates and
    /// relative extrusion.
    pub open spec fn generic(&self) -> bool {
        &&& self.max_velocity == num(HUNDRED)
        &&& self.max_acceleration == num(HUNDRED)
        &&& self.max_accel_to_decel == Some(num(FIFTY))
        &&& self.minimum_cruise_ratio is None
        &&& self.square_corner_velocity == num(FIVE)
        &&& self.junction_deviation == scv_to_jd(num(FIVE), num(HUNDRED_THOUSAND))
        &&& self.mcr_pseudo_accel == num(FIFTY)
        &&& self.instant_corner_velocity == num(ONE)
        &&& self.extruders@.len() == 0
        &&& self.initial_extruder is None
        &&& self.firmware_retraction is None
        &&& self.mm_per_arc_segment is None
        &&& self.move_checkers@.len() == 0
        &&& self.kinematics is Unconfigured
        &&& self.motion_transforms.blank()
        &&& self.initial_coordinate_mode == PositionMode::Absolute
        &&& self.initial_extrusion_mode == PositionMode::Relative
        &&& self.command_contracts@.len() == 0
    }

    /// The corner velocity of the extruder at an index, or the printer's own.
    pub open spec fn corner_velocity(self, index: Option<usize>) -> Double {
        match index {
            Some(i) => if i < self.extruders@.len() {
                self.extruders@[i as int].1.instantaneous_corner_velocity
            } else {
                self.instant_corner_velocity
            },
            None => self.instant_corner_velocity,
        }
    }

    /// The squared junction speed that the extruders of two moves allow.
    pub open spec fn extruder_junction(self, current: PlanningMove, previous: PlanningMove) -> Double {
        let diff_r = (current.rate.w - previous.rate.w).abs();
        if current.extruder_index != previous.extruder_index {
            num(ZERO)
        } else if diff_r > num(ZERO) {
            let v = self.corner_velocity(current.extruder_index()) / diff_r;
            v * v
        } else {
            current.max_cruise_v2
        }
    }

    pub fn extruder_junction_speed_v2(&self, current: &PlanningMove, previous: &PlanningMove) -> (r:
        Double)
        ensures
            r == self.extruder_junction(*current, *previous),
    {
        if current.extruder_index != previous.extruder_index {
            return num(ZERO);
        }
        let diff_r = (current.rate.w - previous.rate.w).abs();
        if diff_r > num(ZERO) {
            let corner = match current.extruder_index() {
                Some(i) => if i < self.extruders.len() {
                    self.extruders.value_at(i).instantaneous_corner_velocity
                } else {
                    self.instant_corner_velocity
                },
                None => self.instant_corner_velocity,
            };
            let v = corner / diff_r;
            v * v
        } else {
            current.max_cruise_v2
        }
    }
}

impl Default for PrinterLimits {
    fn default() -> (r: PrinterLimits)
        ensures
            r.generic(),
    {
        PrinterLimits {
            max_velocity: num(HUNDRED),
            max_acceleration: num(HUNDRED),
            max_accel_to_decel: Some(num(FIFTY)),
            minimum_cruise_ratio: None,
            square_corner_velocity: num(FIVE),
            junction_deviation: scv_to_jd(num(FIVE), num(HUNDRED_THOUSAND)),
            mcr_pseudo_accel: num(FIFTY),
            instant_corner_velocity: num(ONE),
            extruders: Table::new(),
            initial_extruder: None,
            firmware_retraction: None,
            mm_per_arc_segment: None,
            move_checkers: Vec::new(),
            kinematics: Kinematics::Unconfigured,
            motion_transforms: MotionTransformConfig::none(),
            initial_coordinate_mode: PositionMode::Absolute,
            initial_extrusion_mode: PositionMode::Relative,
            command_contracts: Table::new(),
        }
    }
}

impl Default for ExtruderLimits {
    fn default() -> (r: ExtruderLimits)
        ensures
            r == ExtruderLimits::defaults(),
    {
        ExtruderLimits::defaults()
    }
}

} // verus!
