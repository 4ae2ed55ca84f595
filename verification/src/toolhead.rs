//! The state of the toolhead between commands.

use vstd::prelude::*;

use crate::constants::HUNDRED;
use crate::constants::SIXTY;
use crate::constants::SIX_THOUSAND;
use crate::double::num;
use crate::double::Double;
use crate::double::ONE;
use crate::double::ZERO;
use crate::geometry::Vec4;
use crate::limits::ContractState;
use crate::limits::ExtruderLimits;
use crate::limits::MoveChecker;
use crate::limits::PositionMode;
use crate::limits::PrinterLimits;
use crate::motion_transform::opt_text;
use crate::motion_transform::MotionTransformState;
use crate::motion_transform::TransformView;
use crate::planning_move::ExtruderViolation;
use crate::planning_move::MotionSettings;
use crate::planning_move::PlanningMove;
use crate::planning_move::NO_EXTRUDER;
use crate::table::has_key;
use crate::table::inserted;
use crate::table::lookup;
use crate::table::position;
use crate::table::Table;
use crate::text::same;

verus! {

/// Optional values for X, Y, Z and E.
pub type Axes = [Option<Double>; 4];

/// A saved coordinate state.
#[derive(Clone, Copy, Debug)]
pub struct SavedGcodeState {
    pub position: Vec4,
    pub base_position: Vec4,
    pub homing_position: Vec4,
    pub position_modes: [PositionMode; 4],
    pub velocity: Double,
    pub speed_factor: Double,
    pub extrude_factor: Double,
}

#[derive(Debug)]
pub struct ToolheadState {
    /// Physical position submitted to the motion planner.
    pub position: Vec4,
    /// Origin of absolute coordinates.
    pub base_position: Vec4,
    pub homing_position: Vec4,
    pub position_modes: [PositionMode; 4],
    pub limits: PrinterLimits,
    pub planner_position: Vec4,
    pub planner_has_moved: bool,
    pub motion_transforms: MotionTransformState,
    pub velocity: Double,
    pub speed_factor: Double,
    pub extrude_factor: Double,
    pub active_extruder: Option<String>,
    pub extruder_positions: Table<Double>,
    pub saved_states: Table<SavedGcodeState>,
}

#[verifier::ext_equal]
pub struct ToolheadView {
    pub position: Vec4,
    pub base_position: Vec4,
    pub homing_position: Vec4,
    pub position_modes: [PositionMode; 4],
    pub limits: PrinterLimits,
    pub planner_position: Vec4,
    pub planner_has_moved: bool,
    pub transforms: TransformView,
    pub velocity: Double,
    pub speed_factor: Double,
    pub extrude_factor: Double,
    pub active_extruder: Option<Seq<char>>,
    pub extruder_positions: Seq<(Seq<char>, Double)>,
    pub saved_states: Seq<(Seq<char>, SavedGcodeState)>,
}

impl View for ToolheadState {
    type V = ToolheadView;

    open spec fn view(&self) -> ToolheadView {
        ToolheadView {
            position: self.position,
            base_position: self.base_position,
            homing_position: self.homing_position,
            position_modes: self.position_modes,
            limits: self.limits,
            planner_position: self.planner_position,
            planner_has_moved: self.planner_has_moved,
            transforms: self.motion_transforms.with(self.limits.motion_transforms),
            velocity: self.velocity,
            speed_factor: self.speed_factor,
            extrude_factor: self.extrude_factor,
            active_extruder: opt_text(self.active_extruder),
            extruder_positions: self.extruder_positions@,
            saved_states: self.saved_states@,
        }
    }
}

/// The first extruder limiter among the checks.
pub open spec fn first_limiter(checkers: Seq<MoveChecker>) -> Option<(Double, Double)>
    decreases checkers.len(),
{
    if checkers.len() == 0 {
        None
    } else {
        match checkers[0] {
            MoveChecker::ExtruderLimiter { max_velocity, max_accel } => Some(
                (max_velocity, max_accel),
            ),
            _ => first_limiter(checkers.skip(1)),
        }
    }
}

fn find_limiter(checkers: &Vec<MoveChecker>) -> (r: Option<(Double, Double)>)
    ensures
        r == first_limiter(checkers@),
{
    let mut i: usize = 0;
    assert(checkers@.skip(0) == checkers@);
    while i < checkers.len()
        invariant
            i <= checkers@.len(),
            first_limiter(checkers@) == first_limiter(checkers@.skip(i as int)),
        decreases checkers.len() - i,
    {
        assert(checkers@.skip(i as int)[0] == checkers@[i as int]);
        if let MoveChecker::ExtruderLimiter { max_velocity, max_accel } = checkers[i] {
            return Some((max_velocity, max_accel));
        }
        assert(checkers@.skip(i as int).skip(1) == checkers@.skip(i + 1));
        i = i + 1;
    }
    None
}

/// The extruders that planning starts with: without any, an extruder limiter stands for one.
pub open spec fn initial_extruders(limits: PrinterLimits) -> Seq<(Seq<char>, ExtruderLimits)> {
    match first_limiter(limits.move_checkers@) {
        Some((max_velocity, max_accel)) => if limits.extruders@.len() == 0 {
            inserted(
                limits.extruders@,
                "extruder"@,
                ExtruderLimits {
                    max_extrude_only_velocity: max_velocity,
                    max_extrude_only_accel: max_accel,
                    instantaneous_corner_velocity: limits.instant_corner_velocity,
                    ..ExtruderLimits::defaults()
                },
            )
        } else {
            limits.extruders@
        },
        None => limits.extruders@,
    }
}

/// The extruder that is active at the start: the configured one, or else the first.
pub open spec fn initial_active(
    limits: PrinterLimits,
    extruders: Seq<(Seq<char>, ExtruderLimits)>,
) -> Option<Seq<char>> {
    let wanted = opt_text(limits.initial_extruder);
    if wanted is Some && has_key(extruders, wanted->0) {
        wanted
    } else if extruders.len() > 0 {
        Some(extruders[0].0)
    } else {
        None
    }
}

/// The move after the first `i` checks.
pub open spec fn checked_by(checkers: Seq<MoveChecker>, m: PlanningMove, i: int) -> PlanningMove
    decreases i,
{
    if i <= 0 {
        m
    } else {
        checkers[i - 1].checked(checked_by(checkers, m, i - 1))
    }
}

impl ToolheadView {
    /// The state before the first command.
    pub open spec fn starts_from(self, given: PrinterLimits) -> bool {
        let extruders = initial_extruders(given);
        &&& self.limits == (PrinterLimits { extruders: self.limits.extruders, ..given })
        &&& self.limits.extruders@ == extruders
        &&& self.position == Vec4::zero()
        &&& self.base_position == Vec4::zero()
        &&& self.homing_position == Vec4::zero()
        &&& self.position_modes == [
            given.initial_coordinate_mode,
            given.initial_coordinate_mode,
            given.initial_coordinate_mode,
            given.initial_extrusion_mode,
        ]
        &&& self.transforms == TransformView::initial(given.motion_transforms)
        &&& self.planner_position == self.transforms.transformed(Vec4::zero())
        &&& !self.planner_has_moved
        &&& self.velocity == given.max_velocity
        &&& self.speed_factor == num(ONE) / num(SIXTY)
        &&& self.extrude_factor == num(ONE)
        &&& self.active_extruder == initial_active(given, extruders)
        &&& self.extruder_positions == Seq::new(
            extruders.len(),
            |i: int| (extruders[i].0, num(ZERO)),
        )
        &&& self.saved_states.len() == 0
    }

    /// The position of the active extruder among the extruders.
    pub open spec fn extruder_index(self) -> u8 {
        match self.active_extruder {
            Some(name) => {
                let i = position(self.limits.extruders@, name);
                if i < self.limits.extruders@.len() && i < NO_EXTRUDER {
                    i as u8
                } else {
                    NO_EXTRUDER
                }
            },
            None => NO_EXTRUDER,
        }
    }

    /// The settings for a new move at the given velocity.
    pub open spec fn settings_at(self, velocity: Double) -> MotionSettings {
        MotionSettings {
            velocity,
            max_velocity: self.limits.max_velocity,
            max_acceleration: self.limits.max_acceleration,
            junction_deviation: self.limits.junction_deviation,
            mcr_pseudo_accel: self.limits.mcr_pseudo_accel,
            extruder_index: self.extruder_index(),
        }
    }

    /// The state with the filament position of the active extruder recorded.
    pub open spec fn recorded(self) -> ToolheadView {
        match self.active_extruder {
            Some(name) => ToolheadView {
                extruder_positions: inserted(self.extruder_positions, name, self.position.w),
                ..self
            },
            None => self,
        }
    }

    /// The state with another extruder active. Each extruder keeps its own filament position.
    pub open spec fn with_extruder(self, name: Seq<char>) -> ToolheadView {
        let saved = self.recorded();
        let w = match lookup(saved.extruder_positions, name) {
            Some(w) => w,
            None => num(ZERO),
        };
        ToolheadView {
            position: Vec4 { w, ..self.position },
            planner_position: Vec4 { w, ..self.planner_position },
            active_extruder: Some(name),
            ..saved
        }
    }

    /// The physical coordinate of an axis that a command asks for.
    pub open spec fn axis_target(self, axis: usize, value: Option<Double>) -> Double {
        match value {
            Some(v) => {
                let travel = if axis == 3 {
                    v * self.extrude_factor
                } else {
                    v
                };
                match self.position_modes[axis as int] {
                    PositionMode::Relative => self.position.axis(axis) + travel,
                    PositionMode::Absolute => self.base_position.axis(axis) + travel,
                }
            },
            None => self.position.axis(axis),
        }
    }

    /// The physical position that a command asks for.
    pub open spec fn target(self, axes: Axes) -> Vec4 {
        Vec4 {
            x: self.axis_target(0, axes[0]),
            y: self.axis_target(1, axes[1]),
            z: self.axis_target(2, axes[2]),
            w: self.axis_target(3, axes[3]),
        }
    }

    /// The move to a physical position.
    pub open spec fn move_to(self, target: Vec4, velocity: Option<Double>) -> PlanningMove {
        PlanningMove::new(
            self.position,
            target,
            self.settings_at(
                match velocity {
                    Some(v) => v,
                    None => self.velocity,
                },
            ),
        )
    }

    /// The state at a physical position.
    pub open spec fn moved_to(self, target: Vec4) -> ToolheadView {
        ToolheadView { position: target, ..self }.recorded()
    }

    pub open spec fn relative(self) -> ToolheadView {
        ToolheadView {
            position_modes: [
                PositionMode::Relative,
                PositionMode::Relative,
                PositionMode::Relative,
                PositionMode::Relative,
            ],
            ..self
        }
    }

    /// The position in the coordinates of the file.
    pub open spec fn gcode_position_of(self) -> Vec4 {
        let p = self.position.minus(self.base_position);
        Vec4 { w: p.w / self.extrude_factor, ..p }
    }

    /// The origin of an axis once the current position is declared to be `value`.
    pub open spec fn rebased_axis(self, axis: usize, value: Option<Double>) -> Double {
        match value {
            Some(v) => self.position.axis(axis) - if axis == 3 {
                v * self.extrude_factor
            } else {
                v
            },
            None => self.base_position.axis(axis),
        }
    }

    /// The state once the current position is declared to have the given coordinates; without
    /// any, the current position becomes the origin.
    pub open spec fn rebased(self, axes: Axes) -> ToolheadView {
        ToolheadView {
            base_position: if axes[0] is None && axes[1] is None && axes[2] is None && axes[3] is None {
                self.position
            } else {
                Vec4 {
                    x: self.rebased_axis(0, axes[0]),
                    y: self.rebased_axis(1, axes[1]),
                    z: self.rebased_axis(2, axes[2]),
                    w: self.rebased_axis(3, axes[3]),
                }
            },
            ..self
        }
    }

    /// The state with a speed override, which must be positive.
    pub open spec fn with_speed_factor(self, percent: Double) -> ToolheadView {
        if percent <= num(ZERO) {
            self
        } else {
            let factor = percent / num(SIX_THOUSAND);
            ToolheadView {
                speed_factor: factor,
                velocity: self.velocity / self.speed_factor * factor,
                ..self
            }
        }
    }

    /// The state with an extrusion override, which must be positive; the filament coordinate of
    /// the file stays.
    pub open spec fn with_extrude_factor(self, percent: Double) -> ToolheadView {
        if percent <= num(ZERO) {
            self
        } else {
            let factor = percent / num(HUNDRED);
            let e_value = (self.position.w - self.base_position.w) / self.extrude_factor;
            ToolheadView {
                base_position: Vec4 { w: self.position.w - e_value * factor, ..self.base_position },
                extrude_factor: factor,
                ..self
            }
        }
    }

    pub open spec fn snapshot(self) -> SavedGcodeState {
        SavedGcodeState {
            position: self.position,
            base_position: self.base_position,
            homing_position: self.homing_position,
            position_modes: self.position_modes,
            velocity: self.velocity,
            speed_factor: self.speed_factor,
            extrude_factor: self.extrude_factor,
        }
    }

    pub open spec fn saved_as(self, name: Seq<char>) -> ToolheadView {
        ToolheadView {
            saved_states: inserted(self.saved_states, name, self.snapshot()),
            ..self
        }
    }

    /// The state with saved coordinates; the filament position is not moved back.
    pub open spec fn restored(self, state: SavedGcodeState) -> ToolheadView {
        ToolheadView {
            position_modes: state.position_modes,
            base_position: Vec4 {
                w: state.base_position.w + (self.position.w - state.position.w),
                ..state.base_position
            },
            homing_position: state.homing_position,
            velocity: state.velocity,
            speed_factor: state.speed_factor,
            extrude_factor: state.extrude_factor,
            ..self
        }
    }

    /// Where the toolhead moves back to.
    pub open spec fn restore_target(self, state: SavedGcodeState) -> Vec4 {
        Vec4 { w: self.position.w, ..state.position }
    }

    /// The offset that a command asks for on an axis.
    pub open spec fn wanted_offset(
        self,
        axis: usize,
        offset: Option<Double>,
        adjustment: Option<Double>,
    ) -> Option<Double> {
        match offset {
            Some(v) => Some(v),
            None => match adjustment {
                Some(a) => Some(self.homing_position.axis(axis) + a),
                None => None,
            },
        }
    }

    /// How far the offset of an axis changes.
    pub open spec fn offset_delta(
        self,
        axis: usize,
        offset: Option<Double>,
        adjustment: Option<Double>,
    ) -> Double {
        match self.wanted_offset(axis, offset, adjustment) {
            Some(v) => v - self.homing_position.axis(axis),
            None => num(ZERO),
        }
    }

    pub open spec fn offset_deltas(self, offsets: Axes, adjustments: Axes) -> Vec4 {
        Vec4 {
            x: self.offset_delta(0, offsets[0], adjustments[0]),
            y: self.offset_delta(1, offsets[1], adjustments[1]),
            z: self.offset_delta(2, offsets[2], adjustments[2]),
            w: self.offset_delta(3, offsets[3], adjustments[3]),
        }
    }

    pub open spec fn offset_base(
        self,
        axis: usize,
        offset: Option<Double>,
        adjustment: Option<Double>,
    ) -> Double {
        if self.wanted_offset(axis, offset, adjustment) is Some {
            self.base_position.axis(axis) + self.offset_delta(axis, offset, adjustment)
        } else {
            self.base_position.axis(axis)
        }
    }

    pub open spec fn offset_homing(
        self,
        axis: usize,
        offset: Option<Double>,
        adjustment: Option<Double>,
    ) -> Double {
        match self.wanted_offset(axis, offset, adjustment) {
            Some(v) => v,
            None => self.homing_position.axis(axis),
        }
    }

    /// The state with other coordinate offsets.
    pub open spec fn with_offsets(self, offsets: Axes, adjustments: Axes) -> ToolheadView {
        ToolheadView {
            base_position: Vec4 {
                x: self.offset_base(0, offsets[0], adjustments[0]),
                y: self.offset_base(1, offsets[1], adjustments[1]),
                z: self.offset_base(2, offsets[2], adjustments[2]),
                w: self.offset_base(3, offsets[3], adjustments[3]),
            },
            homing_position: Vec4 {
                x: self.offset_homing(0, offsets[0], adjustments[0]),
                y: self.offset_homing(1, offsets[1], adjustments[1]),
                z: self.offset_homing(2, offsets[2], adjustments[2]),
                w: self.offset_homing(3, offsets[3], adjustments[3]),
            },
            ..self
        }
    }

    /// The move with the checks of the printer and of the active extruder applied.
    pub open spec fn checked(self, m: PlanningMove) -> PlanningMove {
        let limited = checked_by(
            self.limits.move_checkers@,
            m,
            self.limits.move_checkers@.len() as int,
        );
        if limited.is_extrude_move() {
            let extruder = match self.active_extruder {
                Some(name) => lookup(self.limits.extruders@, name),
                None => None,
            };
            match extruder {
                Some(e) => e.checked(limited),
                None => PlanningMove {
                    extruder_violation: Some(ExtruderViolation::NoExtruder),
                    ..limited
                },
            }
        } else {
            limited
        }
    }

    /// The planner position from which a move starts.
    pub open spec fn path_start(self, logical: PlanningMove) -> Vec4 {
        if self.planner_has_moved {
            self.planner_position
        } else {
            self.transforms.transformed(logical.start)
        }
    }

    /// The physical moves of a logical move, after all transforms and checks.
    pub open spec fn physical_moves(self, logical: PlanningMove) -> Seq<PlanningMove> {
        let targets = self.transforms.path(logical.start, logical.end);
        Seq::new(
            targets.len(),
            |i: int|
                {
                    let start = if i == 0 {
                        self.path_start(logical)
                    } else {
                        targets[i - 1]
                    };
                    self.checked(
                        PlanningMove {
                            kind: logical.kind,
                            requested_velocity: logical.requested_velocity,
                            max_cruise_v2: logical.requested_velocity * logical.requested_velocity,
                            ..PlanningMove::new(start, targets[i], self.settings_at(self.velocity))
                        },
                    )
                },
        )
    }

    /// The state after the physical moves of a logical move.
    #[verifier::opaque]
    pub open spec fn after_path(self, logical: PlanningMove) -> ToolheadView {
        ToolheadView {
            planner_position: self.transforms.path(logical.start, logical.end).last(),
            planner_has_moved: true,
            ..self
        }
    }

    /// The state once the transforms have changed: the position follows the planner.
    pub open spec fn retransformed(self) -> ToolheadView {
        ToolheadView {
            position: self.transforms.untransformed(self.planner_position),
            ..self
        }
    }
}

/// Four given values.
#[verifier::allow_in_spec]
pub fn all_axes(p: Vec4) -> Axes
    returns
        [Some(p.x), Some(p.y), Some(p.z), Some(p.w)],
{
    [Some(p.x), Some(p.y), Some(p.z), Some(p.w)]
}

impl ToolheadView {
    pub open spec fn with_coordinate_mode(self, mode: PositionMode) -> ToolheadView {
        ToolheadView { position_modes: [mode, mode, mode, self.position_modes[3]], ..self }
    }

    pub open spec fn with_extrusion_mode(self, mode: PositionMode) -> ToolheadView {
        ToolheadView {
            position_modes: [
                self.position_modes[0],
                self.position_modes[1],
                self.position_modes[2],
                mode,
            ],
            ..self
        }
    }

    /// The state with an extruder activated, if it exists.
    pub open spec fn activated(self, name: Seq<char>) -> ToolheadView {
        if self.active_extruder == Some(name) || !has_key(self.limits.extruders@, name) {
            self
        } else {
            self.with_extruder(name)
        }
    }

    /// The state at a position that was reached outside the planner.
    pub open spec fn placed_at(self, p: Vec4) -> ToolheadView {
        ToolheadView { position: p, planner_has_moved: false, ..self }.recorded()
    }

    /// The state that a command with a declared duration leaves behind.
    pub open spec fn with_contract(self, state: ContractState) -> ToolheadView {
        let a = match state.coordinate_mode {
            Some(mode) => self.with_coordinate_mode(mode),
            None => self,
        };
        let b = match state.extrusion_mode {
            Some(mode) => a.with_extrusion_mode(mode),
            None => a,
        };
        let c = match state.speed_factor_percent {
            Some(percent) => b.with_speed_factor(percent),
            None => b,
        };
        let d = match state.extrusion_factor_percent {
            Some(percent) => c.with_extrude_factor(percent),
            None => c,
        };
        let e = match opt_text(state.active_extruder) {
            Some(name) => d.activated(name),
            None => d,
        };
        let f = match state.physical_position {
            Some(p) => e.placed_at(p),
            None => e,
        };
        match state.gcode_position {
            Some(p) => f.rebased(all_axes(p)),
            None => f,
        }
    }
}

impl ToolheadState {
    pub fn from_limits(limits: PrinterLimits) -> (r: ToolheadState)
        ensures
            r@.starts_from(limits),
    {
        let mut limits: PrinterLimits = limits;
        let ghost given = limits;
        if limits.extruders.len() == 0 {
            if let Some((max_velocity, max_accel)) = find_limiter(&limits.move_checkers) {
                let corner = limits.instant_corner_velocity;
                limits.extruders.insert(
                    "extruder",
                    ExtruderLimits {
                        max_extrude_only_velocity: max_velocity,
                        max_extrude_only_accel: max_accel,
                        instantaneous_corner_velocity: corner,
                        ..ExtruderLimits::defaults()
                    },
                );
            }
        }
        let ghost extruders = limits.extruders@;
        assert(extruders == initial_extruders(given));
        let mut active_extruder: Option<String> = None;
        if let Some(name) = &limits.initial_extruder {
            if limits.extruders.contains_key(name.as_str()) {
                active_extruder = Some(name.clone());
            }
        }
        if active_extruder.is_none() && limits.extruders.len() > 0 {
            active_extruder = Some(limits.extruders.key_at(0).to_owned());
        }
        let mut extruder_positions: Table<Double> = Table::new();
        let mut i: usize = 0;
        while i < limits.extruders.len()
            invariant
                i <= limits.extruders@.len(),
                extruders == limits.extruders@,
                extruder_positions@ == Seq::new(i as nat, |k: int| (extruders[k].0, num(ZERO))),
            decreases limits.extruders@.len() - i,
        {
            let ghost before = extruder_positions@;
            extruder_positions.entries.push((limits.extruders.key_at(i).to_owned(), num(ZERO)));
            assert(extruder_positions@ == before.push((extruders[i as int].0, num(ZERO))));
            i = i + 1;
        }
        let motion_transforms = MotionTransformState::new(&limits.motion_transforms);
        let planner_position = motion_transforms.transform_position(
            &limits.motion_transforms,
            Vec4::zero(),
        );
        let coordinate: PositionMode = limits.initial_coordinate_mode;
        let extrusion: PositionMode = limits.initial_extrusion_mode;
        let velocity = limits.max_velocity;
        ToolheadState {
            position: Vec4::zero(),
            base_position: Vec4::zero(),
            homing_position: Vec4::zero(),
            position_modes: [coordinate, coordinate, coordinate, extrusion],
            limits,
            planner_position,
            planner_has_moved: false,
            motion_transforms,
            velocity,
            speed_factor: num(ONE) / num(SIXTY),
            extrude_factor: num(ONE),
            active_extruder,
            extruder_positions,
            saved_states: Table::new(),
        }
    }

    pub fn active_extruder(&self) -> (r: Option<&str>)
        ensures
            self@.active_extruder == match r {
                Some(t) => Some(t@),
                None => None,
            },
    {
        match &self.active_extruder {
            Some(name) => Some(name.as_str()),
            None => None,
        }
    }

    fn active_extruder_index(&self) -> (r: u8)
        ensures
            r == self@.extruder_index(),
    {
        match &self.active_extruder {
            Some(name) => {
                let i: usize = self.limits.extruders.index_of(name.as_str());
                if i < self.limits.extruders.len() && i < NO_EXTRUDER as usize {
                    i as u8
                } else {
                    NO_EXTRUDER
                }
            },
            None => NO_EXTRUDER,
        }
    }

    fn settings(&self, velocity: Double) -> (r: MotionSettings)
        ensures
            r == self@.settings_at(velocity),
    {
        MotionSettings {
            velocity,
            max_velocity: self.limits.max_velocity,
            max_acceleration: self.limits.max_acceleration,
            junction_deviation: self.limits.junction_deviation,
            mcr_pseudo_accel: self.limits.mcr_pseudo_accel,
            extruder_index: self.active_extruder_index(),
        }
    }

    fn record_extruder_position(&mut self)
        ensures
            final(self)@ == old(self)@.recorded(),
    {
        let name: String = match &self.active_extruder {
            Some(name) => name.clone(),
            None => {
                return;
            },
        };
        self.extruder_positions.insert(name.as_str(), self.position.w);
    }

    /// Activates an extruder: whether it was not active already, or an error if it is unknown.
    pub fn activate_extruder(&mut self, name: &str) -> (r: Result<bool, ()>)
        ensures
            r == (if old(self)@.active_extruder == Some(name@) {
                Ok::<bool, ()>(false)
            } else if !has_key(old(self)@.limits.extruders@, name@) {
                Err(())
            } else {
                Ok(true)
            }),
            final(self)@ == old(self)@.activated(name@),
    {
        if let Some(active) = &self.active_extruder {
            if same(active.as_str(), name) {
                return Ok(false);
            }
        }
        if !self.limits.extruders.contains_key(name) {
            return Err(());
        }
        self.record_extruder_position();
        let w = match self.extruder_positions.get(name) {
            Some(w) => *w,
            None => num(ZERO),
        };
        self.position.w = w;
        self.planner_position.w = w;
        self.active_extruder = Some(name.to_owned());
        Ok(true)
    }

    fn axis_position(&self, axis: usize, value: Option<Double>) -> (r: Double)
        requires
            axis < 4,
        ensures
            r == self@.axis_target(axis, value),
    {
        match value {
            Some(v) => {
                let travel = if axis == 3 {
                    v * self.extrude_factor
                } else {
                    v
                };
                match self.position_modes[axis] {
                    PositionMode::Relative => self.position.axis(axis) + travel,
                    PositionMode::Absolute => self.base_position.axis(axis) + travel,
                }
            },
            None => self.position.axis(axis),
        }
    }

    /// The physical position at the given coordinates.
    pub fn target_of(&self, axes: Axes) -> (r: Vec4)
        ensures
            r == self@.target(axes),
    {
        Vec4 {
            x: self.axis_position(0, axes[0]),
            y: self.axis_position(1, axes[1]),
            z: self.axis_position(2, axes[2]),
            w: self.axis_position(3, axes[3]),
        }
    }

    /// Moves to the given coordinates.
    pub fn perform_move(&mut self, axes: Axes) -> (r: PlanningMove)
        ensures
            r == old(self)@.move_to(old(self)@.target(axes), None),
            final(self)@ == old(self)@.moved_to(old(self)@.target(axes)),
    {
        let target = self.target_of(axes);
        self.perform_physical_move(target, None)
    }

    /// The physical position at the given distances.
    pub fn relative_target(&self, axes: Axes) -> (r: Vec4)
        ensures
            r == self@.relative().target(axes),
    {
        Vec4 {
            x: match axes[0] {
                Some(v) => self.position.x + v,
                None => self.position.x,
            },
            y: match axes[1] {
                Some(v) => self.position.y + v,
                None => self.position.y,
            },
            z: match axes[2] {
                Some(v) => self.position.z + v,
                None => self.position.z,
            },
            w: match axes[3] {
                Some(v) => self.position.w + v * self.extrude_factor,
                None => self.position.w,
            },
        }
    }

    /// Moves by the given distances.
    pub fn perform_relative_move(&mut self, axes: Axes) -> (r: PlanningMove)
        ensures
            r == old(self)@.move_to(old(self)@.relative().target(axes), None),
            final(self)@ == old(self)@.moved_to(old(self)@.relative().target(axes)),
    {
        let target = self.relative_target(axes);
        self.perform_physical_move(target, None)
    }

    /// Moves to a physical position, at another velocity if one is given.
    pub fn perform_physical_move(&mut self, target: Vec4, requested_velocity: Option<Double>) -> (r:
        PlanningMove)
        ensures
            r == old(self)@.move_to(target, requested_velocity),
            final(self)@ == old(self)@.moved_to(target),
    {
        let velocity = match requested_velocity {
            Some(v) => v,
            None => self.velocity,
        };
        let m = PlanningMove::new(self.position, target, self.settings(velocity));
        self.position = target;
        self.record_extruder_position();
        m
    }

    /// Sets the velocity; one that is not positive is refused.
    pub fn set_speed(&mut self, v: Double) -> (accepted: bool)
        ensures
            accepted == !(v <= num(ZERO)),
            final(self)@ == if accepted {
                ToolheadView { velocity: v, ..old(self)@ }
            } else {
                old(self)@
            },
    {
        if v <= num(ZERO) {
            return false;
        }
        self.velocity = v;
        true
    }

    /// Sets the velocity from a feed rate per minute; one that is not positive is refused.
    pub fn set_gcode_speed(&mut self, feedrate: Double) -> (accepted: bool)
        ensures
            accepted == !(feedrate * old(self)@.speed_factor <= num(ZERO)),
            final(self)@ == if accepted {
                ToolheadView { velocity: feedrate * old(self)@.speed_factor, ..old(self)@ }
            } else {
                old(self)@
            },
    {
        let v = feedrate * self.speed_factor;
        self.set_speed(v)
    }

    /// The position in the coordinates of the file.
    pub fn gcode_position(&self) -> (r: Vec4)
        ensures
            r == self@.gcode_position_of(),
    {
        let p = self.position.minus(self.base_position);
        Vec4 { w: p.w / self.extrude_factor, ..p }
    }

    fn origin_of(&self, axis: usize, value: Option<Double>) -> (r: Double)
        ensures
            r == self@.rebased_axis(axis, value),
    {
        match value {
            Some(v) => self.position.axis(axis) - if axis == 3 {
                v * self.extrude_factor
            } else {
                v
            },
            None => self.base_position.axis(axis),
        }
    }

    pub fn set_gcode_position(&mut self, axes: Axes)
        ensures
            final(self)@ == old(self)@.rebased(axes),
    {
        if axes[0].is_none() && axes[1].is_none() && axes[2].is_none() && axes[3].is_none() {
            self.base_position = self.position;
            return;
        }
        self.base_position = Vec4 {
            x: self.origin_of(0, axes[0]),
            y: self.origin_of(1, axes[1]),
            z: self.origin_of(2, axes[2]),
            w: self.origin_of(3, axes[3]),
        };
    }

    pub fn set_speed_factor(&mut self, percent: Double)
        ensures
            final(self)@ == old(self)@.with_speed_factor(percent),
    {
        if percent <= num(ZERO) {
            return;
        }
        let gcode_speed = self.velocity / self.speed_factor;
        self.speed_factor = percent / num(SIX_THOUSAND);
        self.velocity = gcode_speed * self.speed_factor;
    }

    pub fn set_extrude_factor(&mut self, percent: Double)
        ensures
            final(self)@ == old(self)@.with_extrude_factor(percent),
    {
        if percent <= num(ZERO) {
            return;
        }
        let factor = percent / num(HUNDRED);
        let e_value = (self.position.w - self.base_position.w) / self.extrude_factor;
        self.base_position.w = self.position.w - e_value * factor;
        self.extrude_factor = factor;
    }

    pub fn save_gcode_state(&mut self, name: &str)
        ensures
            final(self)@ == old(self)@.saved_as(name@),
    {
        let state = SavedGcodeState {
            position: self.position,
            base_position: self.base_position,
            homing_position: self.homing_position,
            position_modes: self.position_modes,
            velocity: self.velocity,
            speed_factor: self.speed_factor,
            extrude_factor: self.extrude_factor,
        };
        self.saved_states.insert(name, state);
    }

    /// Restores a saved state and moves back if that is requested; an unknown name is an error.
    pub fn restore_gcode_state(
        &mut self,
        name: &str,
        move_requested: bool,
        move_speed: Option<Double>,
    ) -> (r: Result<Option<PlanningMove>, ()>)
        ensures
            match lookup(old(self)@.saved_states, name@) {
                None => r == Err::<Option<PlanningMove>, ()>(()) && final(self)@ == old(self)@,
                Some(state) => {
                    let restored = old(self)@.restored(state);
                    let target = restored.restore_target(state);
                    if move_requested {
                        &&& r == Ok::<Option<PlanningMove>, ()>(
                            Some(restored.move_to(target, move_speed)),
                        )
                        &&& final(self)@ == restored.moved_to(target)
                    } else {
                        &&& r == Ok::<Option<PlanningMove>, ()>(None)
                        &&& final(self)@ == restored
                    }
                },
            },
    {
        let state: SavedGcodeState = match self.saved_states.get(name) {
            Some(state) => *state,
            None => {
                return Err(());
            },
        };
        let e_diff = self.position.w - state.position.w;
        self.position_modes = state.position_modes;
        self.base_position = Vec4 { w: state.base_position.w + e_diff, ..state.base_position };
        self.homing_position = state.homing_position;
        self.velocity = state.velocity;
        self.speed_factor = state.speed_factor;
        self.extrude_factor = state.extrude_factor;
        if !move_requested {
            return Ok(None);
        }
        let target = Vec4 { w: self.position.w, ..state.position };
        Ok(Some(self.perform_physical_move(target, move_speed)))
    }

    fn offset_axis(&mut self, axis: usize, offset: Option<Double>, adjustment: Option<Double>) -> (r:
        Double)
        requires
            axis < 4,
        ensures
            r == old(self)@.offset_delta(axis, offset, adjustment),
            final(self)@ == (ToolheadView {
                base_position: old(self)@.base_position.with_axis(
                    axis,
                    old(self)@.offset_base(axis, offset, adjustment),
                ),
                homing_position: old(self)@.homing_position.with_axis(
                    axis,
                    old(self)@.offset_homing(axis, offset, adjustment),
                ),
                ..old(self)@
            }),
    {
        let wanted: Option<Double> = match offset {
            Some(v) => Some(v),
            None => match adjustment {
                Some(a) => Some(self.homing_position.axis(axis) + a),
                None => None,
            },
        };
        match wanted {
            Some(v) => {
                let delta = v - self.homing_position.axis(axis);
                self.base_position = self.base_position.with_axis(
                    axis,
                    self.base_position.axis(axis) + delta,
                );
                self.homing_position = self.homing_position.with_axis(axis, v);
                delta
            },
            None => num(ZERO),
        }
    }

    /// Changes the coordinate offsets and moves along if that is requested.
    pub fn set_gcode_offset(
        &mut self,
        offsets: Axes,
        adjustments: Axes,
        move_requested: bool,
        move_speed: Option<Double>,
    ) -> (r: Option<PlanningMove>)
        ensures
            ({
                let shifted = old(self)@.with_offsets(offsets, adjustments);
                let target = old(self)@.position.plus(
                    old(self)@.offset_deltas(offsets, adjustments),
                );
                if move_requested {
                    r == Some(shifted.move_to(target, move_speed)) && final(self)@
                        == shifted.moved_to(target)
                } else {
                    r is None && final(self)@ == shifted
                }
            }),
    {
        let x = self.offset_axis(0, offsets[0], adjustments[0]);
        let y = self.offset_axis(1, offsets[1], adjustments[1]);
        let z = self.offset_axis(2, offsets[2], adjustments[2]);
        let w = self.offset_axis(3, offsets[3], adjustments[3]);
        if !move_requested {
            return None;
        }
        let target = self.position.plus(Vec4 { x, y, z, w });
        Some(self.perform_physical_move(target, move_speed))
    }

    fn apply_move_checks(&self, m: &mut PlanningMove)
        ensures
            *final(m) == self@.checked(*old(m)),
    {
        let ghost given = *m;
        let mut i: usize = 0;
        while i < self.limits.move_checkers.len()
            invariant
                i <= self.limits.move_checkers@.len(),
                *m == checked_by(self.limits.move_checkers@, given, i as int),
            decreases self.limits.move_checkers.len() - i,
        {
            self.limits.move_checkers[i].check(m);
            i = i + 1;
        }
        if m.is_extrude_move() {
            let extruder: Option<&ExtruderLimits> = match &self.active_extruder {
                Some(name) => self.limits.extruders.get(name.as_str()),
                None => None,
            };
            match extruder {
                Some(e) => e.check_move(m),
                None => {
                    m.extruder_violation = Some(ExtruderViolation::NoExtruder);
                },
            }
        }
    }

    /// The physical moves of a logical move, after all transforms and checks.
    pub fn transform_move(&mut self, logical: PlanningMove) -> (r: Vec<PlanningMove>)
        ensures
            r@ == old(self)@.physical_moves(logical),
            r@.len() >= 1,
            final(self)@ == old(self)@.after_path(logical),
    {
        proof {
            reveal(ToolheadView::after_path);
        }
        let mut start = if self.planner_has_moved {
            self.planner_position
        } else {
            self.motion_transforms.transform_position(
                &self.limits.motion_transforms,
                logical.start,
            )
        };
        let targets: Vec<Vec4> = self.motion_transforms.transform_move(
            &self.limits.motion_transforms,
            logical.start,
            logical.end,
        );
        let ghost v = self@;
        let ghost wanted = v.physical_moves(logical);
        let settings: MotionSettings = self.settings(self.velocity);
        let mut moves: Vec<PlanningMove> = Vec::new();
        let mut i: usize = 0;
        while i < targets.len()
            invariant
                i <= targets@.len(),
                self@ == v,
                wanted == v.physical_moves(logical),
                targets@ == v.transforms.path(logical.start, logical.end),
                settings == v.settings_at(v.velocity),
                start == if i == 0 {
                    v.path_start(logical)
                } else {
                    targets@[i - 1]
                },
                moves@ == wanted.take(i as int),
            decreases targets.len() - i,
        {
            let target: Vec4 = targets[i];
            let mut m = PlanningMove::new(start, target, settings);
            m.kind = logical.kind;
            m.requested_velocity = logical.requested_velocity;
            m.max_cruise_v2 = logical.requested_velocity * logical.requested_velocity;
            self.apply_move_checks(&mut m);
            moves.push(m);
            assert(moves@ == wanted.take(i + 1));
            start = target;
            i = i + 1;
        }
        assert(wanted.take(i as int) == wanted);
        self.planner_position = start;
        self.planner_has_moved = true;
        moves
    }

    pub fn reset_after_transform_change(&mut self)
        ensures
            final(self)@ == old(self)@.retransformed(),
    {
        self.position = self.motion_transforms.untransform_position(
            &self.limits.motion_transforms,
            self.planner_position,
        );
    }

    pub fn set_coordinate_mode(&mut self, mode: PositionMode)
        ensures
            final(self)@ == old(self)@.with_coordinate_mode(mode),
    {
        let e: PositionMode = self.position_modes[3];
        self.position_modes = [mode, mode, mode, e];
    }

    pub fn set_extrusion_mode(&mut self, mode: PositionMode)
        ensures
            final(self)@ == old(self)@.with_extrusion_mode(mode),
    {
        let modes: [PositionMode; 4] = self.position_modes;
        self.position_modes = [modes[0], modes[1], modes[2], mode];
    }

    /// Takes over the state that a command with a declared duration leaves behind.
    pub fn apply_contract(&mut self, state: &ContractState)
        ensures
            final(self)@ == old(self)@.with_contract(*state),
    {
        if let Some(mode) = state.coordinate_mode {
            self.set_coordinate_mode(mode);
        }
        if let Some(mode) = state.extrusion_mode {
            self.set_extrusion_mode(mode);
        }
        if let Some(percent) = state.speed_factor_percent {
            self.set_speed_factor(percent);
        }
        if let Some(percent) = state.extrusion_factor_percent {
            self.set_extrude_factor(percent);
        }
        if let Some(name) = &state.active_extruder {
            let _ = self.activate_extruder(name.as_str());
        }
        if let Some(p) = state.physical_position {
            self.position = p;
            self.planner_has_moved = false;
            self.record_extruder_position();
        }
        if let Some(p) = state.gcode_position {
            self.set_gcode_position(all_axes(p));
        }
    }
}

} // verus!
