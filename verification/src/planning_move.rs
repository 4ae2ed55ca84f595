//! A single planned move and its motion profile.

use vstd::prelude::*;

use crate::constants::EPSILON;
use crate::constants::EXTRUDE_ONLY_ACCEL;
use crate::constants::HALF;
use crate::constants::PI;
use crate::constants::QUARTER;
use crate::constants::TWO;
use crate::constants::UNLIMITED_JUNCTION;
use crate::double::num;
use crate::double::Double;
use crate::double::ONE;
use crate::double::ZERO;
use crate::geometry::Vec4;

verus! {

/// The index of a move kind in its tracker.
#[derive(Clone, Copy, Debug, PartialEq, Eq, Structural)]
pub struct Kind {
    pub index: usize,
}

/// A way in which Klipper would reject the extrusion of a move.
#[derive(Clone, Copy, Debug, PartialEq, Eq, Structural)]
pub enum ExtruderViolation {
    NoExtruder,
    ExtrudeOnlyMoveTooLong,
    MaximumCrossSection,
}

/// The toolhead settings that a new move is made from.
#[derive(Clone, Copy, Debug)]
pub struct MotionSettings {
    pub velocity: Double,
    pub max_velocity: Double,
    pub max_acceleration: Double,
    pub junction_deviation: Double,
    pub mcr_pseudo_accel: Double,
    pub extruder_index: u8,
}

/// The index that stands for no extruder.
pub const NO_EXTRUDER: u8 = 255;

/// A move with its limits and, once it is planned, its velocities.
#[derive(Clone, Copy, Debug)]
pub struct PlanningMove {
    pub start: Vec4,
    pub end: Vec4,
    pub distance: Double,
    pub rate: Vec4,
    pub requested_velocity: Double,
    pub acceleration: Double,
    pub junction_deviation: Double,
    pub max_start_v2: Double,
    pub max_cruise_v2: Double,
    pub delta_v2: Double,
    pub next_junction_v2: Double,
    pub max_mcr_start_v2: Double,
    pub mcr_delta_v2: Double,
    pub kind: Option<Kind>,
    pub start_v: Double,
    pub cruise_v: Double,
    pub end_v: Double,
    pub extruder_index: u8,
    pub extruder_violation: Option<ExtruderViolation>,
}

impl PlanningMove {
    /// A move of the extruder alone.
    #[verifier::allow_in_spec]
    pub fn new_extrude_move(start: Vec4, end: Vec4, settings: MotionSettings) -> PlanningMove
        returns
            ({
                let travel = end.w - start.w;
                let move_d = travel.abs();
                let inv_move_d = if move_d > num(ZERO) {
                    num(ONE) / move_d
                } else {
                    num(ZERO)
                };
                PlanningMove {
                    start,
                    end,
                    distance: (start.w - end.w).abs(),
                    rate: Vec4::new(num(ZERO), num(ZERO), num(ZERO), travel).times(inv_move_d),
                    requested_velocity: settings.velocity,
                    acceleration: num(EXTRUDE_ONLY_ACCEL),
                    junction_deviation: settings.junction_deviation,
                    max_start_v2: num(ZERO),
                    max_cruise_v2: settings.velocity * settings.velocity,
                    delta_v2: num(TWO) * move_d * num(EXTRUDE_ONLY_ACCEL),
                    next_junction_v2: num(UNLIMITED_JUNCTION),
                    max_mcr_start_v2: num(ZERO),
                    mcr_delta_v2: num(TWO) * move_d * settings.mcr_pseudo_accel,
                    kind: None,
                    start_v: num(ZERO),
                    cruise_v: num(ZERO),
                    end_v: num(ZERO),
                    extruder_index: settings.extruder_index,
                    extruder_violation: None,
                }
            }),
    {
        let travel = end.w - start.w;
        let move_d = travel.abs();
        let inv_move_d = if move_d > num(ZERO) {
            num(ONE) / move_d
        } else {
            num(ZERO)
        };
        PlanningMove {
            start,
            end,
            distance: (start.w - end.w).abs(),
            rate: Vec4::new(num(ZERO), num(ZERO), num(ZERO), travel).times(inv_move_d),
            requested_velocity: settings.velocity,
            acceleration: num(EXTRUDE_ONLY_ACCEL),
            junction_deviation: settings.junction_deviation,
            max_start_v2: num(ZERO),
            max_cruise_v2: settings.velocity * settings.velocity,
            delta_v2: num(TWO) * move_d * num(EXTRUDE_ONLY_ACCEL),
            next_junction_v2: num(UNLIMITED_JUNCTION),
            max_mcr_start_v2: num(ZERO),
            mcr_delta_v2: num(TWO) * move_d * settings.mcr_pseudo_accel,
            kind: None,
            start_v: num(ZERO),
            cruise_v: num(ZERO),
            end_v: num(ZERO),
            extruder_index: settings.extruder_index,
            extruder_violation: None,
        }
    }

    /// A move that travels in X, Y or Z.
    #[verifier::allow_in_spec]
    pub fn new_kinematic_move(start: Vec4, end: Vec4, settings: MotionSettings) -> PlanningMove
        returns
            ({
                let distance = start.minus(end).xyz().length();
                let velocity = settings.velocity.min(settings.max_velocity);
                PlanningMove {
                    start,
                    end,
                    distance,
                    rate: end.minus(start).divided_by(distance),
                    requested_velocity: velocity,
                    acceleration: settings.max_acceleration,
                    junction_deviation: settings.junction_deviation,
                    max_start_v2: num(ZERO),
                    max_cruise_v2: velocity * velocity,
                    delta_v2: num(TWO) * distance * settings.max_acceleration,
                    next_junction_v2: num(UNLIMITED_JUNCTION),
                    max_mcr_start_v2: num(ZERO),
                    mcr_delta_v2: num(TWO) * distance * settings.mcr_pseudo_accel,
                    kind: None,
                    start_v: num(ZERO),
                    cruise_v: num(ZERO),
                    end_v: num(ZERO),
                    extruder_index: settings.extruder_index,
                    extruder_violation: None,
                }
            }),
    {
        let distance = start.minus(end).xyz().length();
        let velocity = settings.velocity.min(settings.max_velocity);
        PlanningMove {
            start,
            end,
            distance,
            rate: end.minus(start).divided_by(distance),
            requested_velocity: velocity,
            acceleration: settings.max_acceleration,
            junction_deviation: settings.junction_deviation,
            max_start_v2: num(ZERO),
            max_cruise_v2: velocity * velocity,
            delta_v2: num(TWO) * distance * settings.max_acceleration,
            next_junction_v2: num(UNLIMITED_JUNCTION),
            max_mcr_start_v2: num(ZERO),
            mcr_delta_v2: num(TWO) * distance * settings.mcr_pseudo_accel,
            kind: None,
            start_v: num(ZERO),
            cruise_v: num(ZERO),
            end_v: num(ZERO),
            extruder_index: settings.extruder_index,
            extruder_violation: None,
        }
    }

    /// A move between two points.
    #[verifier::allow_in_spec]
    pub fn new(start: Vec4, end: Vec4, settings: MotionSettings) -> PlanningMove
        returns
            (if start.xyz().matches(end.xyz()) {
                PlanningMove::new_extrude_move(start, end, settings)
            } else {
                PlanningMove::new_kinematic_move(start, end, settings)
            }),
    {
        if start.xyz().matches(end.xyz()) {
            PlanningMove::new_extrude_move(start, end, settings)
        } else {
            PlanningMove::new_kinematic_move(start, end, settings)
        }
    }

    /// Whether the toolhead travels.
    #[verifier::allow_in_spec]
    pub fn is_kinematic_move(&self) -> bool
        returns
            !self.start.xyz().matches(self.end.xyz()),
    {
        !self.start.xyz().matches(self.end.xyz())
    }

    /// Whether filament moves.
    #[verifier::allow_in_spec]
    pub fn is_extrude_move(&self) -> bool
        returns
            (self.end.w - self.start.w).abs() >= num(EPSILON),
    {
        (self.end.w - self.start.w).abs() >= num(EPSILON)
    }

    #[verifier::allow_in_spec]
    pub fn is_extrude_only_move(&self) -> bool
        returns
            !self.is_kinematic_move() && self.is_extrude_move(),
    {
        !self.is_kinematic_move() && self.is_extrude_move()
    }

    #[verifier::allow_in_spec]
    pub fn is_zero_distance(&self) -> bool
        returns
            self.distance.abs() < num(EPSILON),
    {
        self.distance.abs() < num(EPSILON)
    }

    #[verifier::allow_in_spec]
    pub fn delta(&self) -> Vec4
        returns
            self.end.minus(self.start),
    {
        self.end.minus(self.start)
    }

    /// The position of the move's extruder in the table of extruders.
    #[verifier::allow_in_spec]
    pub fn extruder_index(&self) -> Option<usize>
        returns
            (if self.extruder_index != NO_EXTRUDER {
                Some(self.extruder_index as usize)
            } else {
                None
            }),
    {
        if self.extruder_index != NO_EXTRUDER {
            Some(self.extruder_index as usize)
        } else {
            None
        }
    }

    #[verifier::allow_in_spec]
    pub fn accel_distance(&self) -> Double
        returns
            (self.cruise_v * self.cruise_v - self.start_v * self.start_v) * num(HALF)
                / self.acceleration,
    {
        (self.cruise_v * self.cruise_v - self.start_v * self.start_v) * num(HALF)
            / self.acceleration
    }

    #[verifier::allow_in_spec]
    pub fn accel_time(&self) -> Double
        returns
            self.accel_distance() / ((self.start_v + self.cruise_v) * num(HALF)),
    {
        self.accel_distance() / ((self.start_v + self.cruise_v) * num(HALF))
    }

    #[verifier::allow_in_spec]
    pub fn decel_distance(&self) -> Double
        returns
            (self.cruise_v * self.cruise_v - self.end_v * self.end_v) * num(HALF)
                / self.acceleration,
    {
        (self.cruise_v * self.cruise_v - self.end_v * self.end_v) * num(HALF) / self.acceleration
    }

    #[verifier::allow_in_spec]
    pub fn decel_time(&self) -> Double
        returns
            self.decel_distance() / ((self.end_v + self.cruise_v) * num(HALF)),
    {
        self.decel_distance() / ((self.end_v + self.cruise_v) * num(HALF))
    }

    #[verifier::allow_in_spec]
    pub fn cruise_distance(&self) -> Double
        returns
            (self.distance - self.accel_distance() - self.decel_distance()).max(num(ZERO)),
    {
        (self.distance - self.accel_distance() - self.decel_distance()).max(num(ZERO))
    }

    #[verifier::allow_in_spec]
    pub fn cruise_time(&self) -> Double
        returns
            self.cruise_distance() / self.cruise_v,
    {
        self.cruise_distance() / self.cruise_v
    }

    #[verifier::allow_in_spec]
    pub fn total_time(&self) -> Double
        returns
            self.accel_time() + self.cruise_time() + self.decel_time(),
    {
        self.accel_time() + self.cruise_time() + self.decel_time()
    }

    /// The time of the move at its highest allowed speed.
    #[verifier::allow_in_spec]
    pub fn min_move_time(&self) -> Double
        returns
            self.distance / self.max_cruise_v2.sqrt(),
    {
        self.distance / self.max_cruise_v2.sqrt()
    }

    /// The width of the extruded line; only moves that travel and extrude have one.
    #[verifier::allow_in_spec]
    pub fn line_width(&self, filament_radius: Double, layer_height: Double) -> Option<Double>
        returns
            (if !self.is_kinematic_move() || !self.is_extrude_move() {
                None
            } else {
                Some(self.rate.w * filament_radius * filament_radius * num(PI) / layer_height)
            }),
    {
        if !self.is_kinematic_move() || !self.is_extrude_move() {
            None
        } else {
            Some(self.rate.w * filament_radius * filament_radius * num(PI) / layer_height)
        }
    }

    /// The extruded volume per second.
    #[verifier::allow_in_spec]
    pub fn flow_rate(&self, filament_radius: Double) -> Option<Double>
        returns
            (if !self.is_extrude_move() {
                None
            } else {
                Some(
                    self.delta().w * filament_radius * filament_radius * num(PI)
                        / self.total_time(),
                )
            }),
    {
        if !self.is_extrude_move() {
            None
        } else {
            Some(self.delta().w * filament_radius * filament_radius * num(PI) / self.total_time())
        }
    }

    /// The move restricted to a velocity and an acceleration.
    pub open spec fn limited(self, velocity: Double, acceleration: Double) -> PlanningMove {
        let v2 = velocity * velocity;
        let accel = self.acceleration.min(acceleration);
        let delta_v2 = num(TWO) * self.distance * accel;
        PlanningMove {
            max_cruise_v2: if v2 < self.max_cruise_v2 {
                v2
            } else {
                self.max_cruise_v2
            },
            acceleration: accel,
            delta_v2,
            mcr_delta_v2: self.mcr_delta_v2.min(delta_v2),
            ..self
        }
    }

    pub fn limit_speed(&mut self, velocity: Double, acceleration: Double)
        ensures
            *final(self) == old(self).limited(velocity, acceleration),
    {
        let v2 = velocity * velocity;
        if v2 < self.max_cruise_v2 {
            self.max_cruise_v2 = v2;
        }
        self.acceleration = self.acceleration.min(acceleration);
        self.delta_v2 = num(TWO) * self.distance * self.acceleration;
        self.mcr_delta_v2 = self.mcr_delta_v2.min(self.delta_v2);
    }

    pub fn limit_next_junction_speed(&mut self, velocity: Double)
        ensures
            *final(self) == (PlanningMove {
                next_junction_v2: old(self).next_junction_v2.min(velocity * velocity),
                ..*old(self)
            }),
    {
        self.next_junction_v2 = self.next_junction_v2.min(velocity * velocity);
    }

    /// The squared junction speed limit from the angle between two moves.
    pub open spec fn junction_limit(self, previous: PlanningMove, extruder_v2: Double) -> Double {
        let limit = extruder_v2.min(self.max_cruise_v2).min(previous.max_cruise_v2).min(
            previous.next_junction_v2,
        ).min(previous.max_start_v2 + previous.delta_v2);
        let cos_theta = self.rate.xyz().dot(previous.rate.xyz()).negated();
        let sin_half = (num(HALF) * (num(ONE) - cos_theta)).max(num(ZERO)).sqrt();
        let cos_half = (num(HALF) * (num(ONE) + cos_theta)).max(num(ZERO)).sqrt();
        let one_minus_sin = num(ONE) - sin_half;
        if one_minus_sin > num(ZERO) && cos_half > num(ZERO) {
            let r_jd = sin_half / one_minus_sin;
            let quarter_tan = num(QUARTER) * sin_half / cos_half;
            limit.min(r_jd * self.junction_deviation * self.acceleration).min(
                r_jd * previous.junction_deviation * previous.acceleration,
            ).min(self.delta_v2 * quarter_tan).min(previous.delta_v2 * quarter_tan)
        } else {
            limit
        }
    }

    /// The move with its junction to the previous move taken into account.
    pub open spec fn joined(self, previous: PlanningMove, extruder_v2: Double) -> PlanningMove {
        if !self.is_kinematic_move() || !previous.is_kinematic_move() {
            self
        } else {
            let max_start_v2 = self.junction_limit(previous, extruder_v2);
            PlanningMove {
                max_start_v2,
                max_mcr_start_v2: max_start_v2.min(
                    previous.max_mcr_start_v2 + previous.mcr_delta_v2,
                ),
                ..self
            }
        }
    }

    /// Limits the start speed by the junction to the previous move.
    pub fn apply_junction(&mut self, previous: &PlanningMove, extruder_v2: Double)
        ensures
            *final(self) == old(self).joined(*previous, extruder_v2),
    {
        if !self.is_kinematic_move() || !previous.is_kinematic_move() {
            return;
        }
        let mut max_start_v2 = extruder_v2.min(self.max_cruise_v2).min(previous.max_cruise_v2).min(
            previous.next_junction_v2,
        ).min(previous.max_start_v2 + previous.delta_v2);
        let cos_theta = self.rate.xyz().dot(previous.rate.xyz()).negated();
        let sin_half = (num(HALF) * (num(ONE) - cos_theta)).max(num(ZERO)).sqrt();
        let cos_half = (num(HALF) * (num(ONE) + cos_theta)).max(num(ZERO)).sqrt();
        let one_minus_sin = num(ONE) - sin_half;
        if one_minus_sin > num(ZERO) && cos_half > num(ZERO) {
            let r_jd = sin_half / one_minus_sin;
            let quarter_tan = num(QUARTER) * sin_half / cos_half;
            max_start_v2 = max_start_v2.min(r_jd * self.junction_deviation * self.acceleration).min(
                r_jd * previous.junction_deviation * previous.acceleration,
            ).min(self.delta_v2 * quarter_tan).min(previous.delta_v2 * quarter_tan);
        }
        self.max_start_v2 = max_start_v2;
        self.max_mcr_start_v2 = max_start_v2.min(previous.max_mcr_start_v2 + previous.mcr_delta_v2);
    }

    /// The move with its planned velocities.
    pub open spec fn planned(self, start_v2: Double, cruise_v2: Double, end_v2: Double) -> PlanningMove {
        PlanningMove {
            start_v: start_v2.sqrt(),
            cruise_v: cruise_v2.sqrt(),
            end_v: end_v2.sqrt(),
            ..self
        }
    }

    pub fn set_junction(&mut self, start_v2: Double, cruise_v2: Double, end_v2: Double)
        ensures
            *final(self) == old(self).planned(start_v2, cruise_v2, end_v2),
    {
        self.start_v = start_v2.sqrt();
        self.cruise_v = cruise_v2.sqrt();
        self.end_v = end_v2.sqrt();
    }
}

} // verus!
