//! The planner: G-code commands in, planned operations out.

use vstd::prelude::*;

pub use crate::delay::Delay;
pub use crate::delay::Duration;
pub use crate::diagnostics::PlannerDiagnostic;
pub use crate::diagnostics::PlannerDiagnosticCode;
pub use crate::limits::CommandContract;
pub use crate::limits::ContractState;
pub use crate::limits::DurationContractCategory;
pub use crate::limits::ExtruderLimits;
pub use crate::limits::FirmwareRetractionOptions;
pub use crate::limits::MoveChecker;
pub use crate::limits::PositionMode;
pub use crate::limits::PrinterLimits;
pub use crate::limits::UnknownDurationCategory;
pub use crate::lookahead::MoveSequence;
pub use crate::laws::lemma_step_counted;
use crate::operations::held;
use crate::operations::OperationSequence;
pub use crate::operations::PlanningOperation;
pub use crate::planning_move::Kind;
pub use crate::planning_move::PlanningMove;
pub use crate::toolhead::ToolheadState;

use crate::constants::HALF;
use crate::constants::HUNDRED;
use crate::constants::THOUSAND;
use crate::decimal::parse_double;
use crate::decimal::parsed;
use crate::diagnostics::invalid_move_speed_of;
use crate::diagnostics::unknown_duration_of;
use crate::diagnostics::unknown_extruder_of;
use crate::diagnostics::unknown_profile_of;
use crate::diagnostics::unknown_saved_state_of;
use crate::diagnostics::unsupported_kinematics_of;
use crate::diagnostics::unsupported_motion_transform_of;
use crate::diagnostics::unsupported_state_command_of;
use crate::double::num;
use crate::double::Double;
use crate::double::ZERO;
use crate::gcode::get_flag;
use crate::gcode::get_named_number;
use crate::gcode::get_named_text;
use crate::gcode::get_number;
use crate::gcode::lettered;
use crate::gcode::lettered_number;
use crate::gcode::named;
use crate::gcode::named_flag;
use crate::gcode::named_number;
use crate::gcode::named_text;
use crate::gcode::CommandView;
use crate::gcode::GCodeCommand;
use crate::gcode::GCodeOperation;
use crate::gcode::OperationView;
use crate::geometry::Vec4;
use crate::kinds::texts;
use crate::kinds::KindTracker;
use crate::kinds::KindView;
use crate::kinematics::Kinematics;
use crate::motion_transform::skew_cosine;
use crate::motion_transform::skew_profile;
use crate::motion_transform::SkewFactors;
use crate::motion_transform::TransformView;
use crate::operations::operations_of;
use crate::operations::OperationsView;
use crate::table::has_key;
use crate::table::lookup;
use crate::text::after_prefix;
use crate::text::decimal;
use crate::text::same;
use crate::text::split;
use crate::text::split_at_char;
use crate::text::split_char;
use crate::text::split_once;
use crate::text::strip_prefix;
use crate::text::to_decimal;
use crate::text::to_upper;
use crate::text::trim;
use crate::text::trim_start;
use crate::text::trimmed;
use crate::text::trimmed_start;
use crate::text::upper;
use crate::text::views;
use crate::toolhead::Axes;
use crate::toolhead::ToolheadView;

verus! {

/// The plane of arc moves.
#[derive(Clone, Copy, Debug, PartialEq, Eq, Structural)]
pub enum Plane {
    XY,
    XZ,
    YZ,
}

/// Whether filament is retracted by the firmware.
#[derive(Clone, Copy, Debug, PartialEq, Eq, Structural)]
pub struct FirmwareRetractionState {
    pub retracted: bool,
}

#[derive(Debug)]
pub struct Planner {
    pub operations: OperationSequence,
    pub toolhead_state: ToolheadState,
    pub kind_tracker: KindTracker,
    pub firmware_retraction: Option<FirmwareRetractionState>,
    pub arc_plane: Plane,
}

#[verifier::ext_equal]
pub struct PlannerView {
    pub operations: OperationsView,
    pub toolhead: ToolheadView,
    pub kinds: KindView,
    pub retraction: Option<FirmwareRetractionState>,
    pub plane: Plane,
}

impl View for Planner {
    type V = PlannerView;

    open spec fn view(&self) -> PlannerView {
        PlannerView {
            operations: self.operations@,
            toolhead: self.toolhead_state@,
            kinds: self.kind_tracker@,
            retraction: self.firmware_retraction,
            plane: self.arc_plane,
        }
    }
}

/// The upper-case name of a command, such as `G28` or `PRINT_START`; moves and comments have
/// none.
pub open spec fn command_name(op: OperationView) -> Option<Seq<char>> {
    match op {
        OperationView::Traditional { letter, code, .. } => Some(
            seq![letter] + decimal(code as nat),
        ),
        OperationView::Extended { command, .. } => Some(upper(command)),
        _ => None,
    }
}

pub fn name_of(op: &GCodeOperation) -> (r: Option<String>)
    ensures
        command_name(op@) == match r {
            Some(t) => Some(t@),
            None => None,
        },
{
    match op {
        GCodeOperation::Traditional { letter, code, .. } => {
            let mut name: String = String::new();
            name.push(*letter);
            name.append(to_decimal(*code as u128).as_str());
            assert(name@ == seq![*letter] + decimal(*code as nat));
            Some(name)
        },
        GCodeOperation::Extended { command, .. } => Some(to_upper(command.as_str())),
        _ => None,
    }
}

/// Whether a command changes state that is not modelled.
pub open spec fn unsupported_extended(command: Seq<char>) -> bool {
    command == "restore_dual_carriage_state"@ || command == "save_dual_carriage_state"@ || command
        == "set_dual_carriage"@ || command == "set_kinematic_position"@ || command
        == "bed_tilt_calibrate"@ || command == "set_z_thermal_adjust"@ || command
        == "tuning_tower"@ || command == "exclude_object"@ || command == "exclude_object_define"@
        || command == "exclude_object_start"@ || command == "exclude_object_end"@
}

pub fn is_unsupported_state_command(command: &str) -> (r: bool)
    ensures
        r == unsupported_extended(command@),
{
    same(command, "restore_dual_carriage_state") || same(command, "save_dual_carriage_state")
        || same(command, "set_dual_carriage") || same(command, "set_kinematic_position") || same(
        command,
        "bed_tilt_calibrate",
    ) || same(command, "set_z_thermal_adjust") || same(command, "tuning_tower") || same(
        command,
        "exclude_object",
    ) || same(command, "exclude_object_define") || same(command, "exclude_object_start") || same(
        command,
        "exclude_object_end",
    )
}

pub open spec fn unsupported_traditional(op: OperationView) -> bool {
    match op {
        OperationView::Traditional { letter, code, .. } => (letter == 'G' && (code == 20 || code
            == 28)) || (letter == 'M' && code == 600),
        _ => false,
    }
}

fn is_unsupported_traditional_state_command(op: &GCodeOperation) -> (r: bool)
    ensures
        r == unsupported_traditional(op@),
{
    match op {
        GCodeOperation::Traditional { letter, code, .. } => (*letter == 'G' && (*code == 20
            || *code == 28)) || (*letter == 'M' && *code == 600),
        _ => false,
    }
}

/// The duration of a pause in milliseconds; a negative one is no pause, and one that does not
/// fit is cut off.
pub open spec fn pause_of(milliseconds: Option<Double>) -> Duration {
    let seconds = match milliseconds {
        Some(v) => (v / num(THOUSAND)).max(num(ZERO)),
        None => num(ZERO),
    };
    match Duration::of_seconds(seconds) {
        Some(d) => d,
        None => Duration { secs: u64::MAX, nanos: 999_999_999 },
    }
}

/// Why a command has no known duration.
pub open spec fn unknown_category(op: OperationView) -> Option<UnknownDurationCategory> {
    match op {
        OperationView::Traditional { letter, code, .. } => if letter == 'G' && code == 28 {
            Some(UnknownDurationCategory::Homing)
        } else if letter == 'M' && (code == 109 || code == 190) {
            Some(UnknownDurationCategory::TemperatureWait)
        } else if letter == 'M' && code == 600 {
            Some(UnknownDurationCategory::FilamentChange)
        } else {
            None
        },
        OperationView::Extended { command, .. } => if command == "temperature_wait"@ {
            Some(UnknownDurationCategory::TemperatureWait)
        } else {
            None
        },
        _ => None,
    }
}

/// The delay that a command asks for.
pub open spec fn delay_of(op: OperationView) -> Option<Delay<Seq<char>>> {
    match unknown_category(op) {
        Some(category) => Some(Delay::Unknown { command: command_name(op)->0, category }),
        None => match op {
            OperationView::Traditional { letter, code, params } => if letter == 'G' && code == 4 {
                Some(Delay::Dwell(pause_of(lettered_number(params, 'P'))))
            } else {
                None
            },
            _ => None,
        },
    }
}

/// The delay that a command asks for.
pub fn is_dwell(op: &GCodeOperation) -> (r: Option<Delay>)
    ensures
        delay_of(op@) == match r {
            Some(d) => Some(d@),
            None => None,
        },
{
    let category: Option<UnknownDurationCategory> = match op {
        GCodeOperation::Traditional { letter, code, .. } => if *letter == 'G' && *code == 28 {
            Some(UnknownDurationCategory::Homing)
        } else if *letter == 'M' && (*code == 109 || *code == 190) {
            Some(UnknownDurationCategory::TemperatureWait)
        } else if *letter == 'M' && *code == 600 {
            Some(UnknownDurationCategory::FilamentChange)
        } else {
            None
        },
        GCodeOperation::Extended { command, .. } => if same(command.as_str(), "temperature_wait") {
            Some(UnknownDurationCategory::TemperatureWait)
        } else {
            None
        },
        _ => None,
    };
    if let Some(category) = category {
        return match name_of(op) {
            Some(command) => Some(Delay::Unknown { command, category }),
            None => None,
        };
    }
    match op {
        GCodeOperation::Traditional { letter, code, params } => if *letter == 'G' && *code == 4 {
            let seconds = match get_number(params, 'P') {
                Some(v) => (v / num(THOUSAND)).max(num(ZERO)),
                None => num(ZERO),
            };
            Some(
                Delay::Dwell(
                    match Duration::from_secs(seconds) {
                        Some(d) => d,
                        None => Duration { secs: u64::MAX, nanos: 999_999_999 },
                    },
                ),
            )
        } else {
            None
        },
        _ => None,
    }
}

/// The cosine that a skew parameter with three lengths asks for.
pub open spec fn skew_request(text: Seq<char>) -> Option<Double> {
    let parts = split(text, ',');
    if parts.len() != 3 {
        None
    } else {
        match (parsed(trim(parts[0])), parsed(trim(parts[1])), parsed(trim(parts[2]))) {
            (Some(ac), Some(bd), Some(ad)) => skew_cosine(ac, bd, ad),
            _ => None,
        }
    }
}

/// The cosine that a skew parameter with three lengths asks for.
pub fn parse_skew_cosine(text: &str) -> (r: Option<Double>)
    ensures
        r == skew_request(text@),
{
    let parts: Vec<&str> = split_char(text, ',');
    assert(views(parts@).len() == parts@.len());
    if parts.len() != 3 {
        return None;
    }
    assert(views(parts@)[0] == parts@[0]@ && views(parts@)[1] == parts@[1]@ && views(parts@)[2]
        == parts@[2]@);
    match (
        parse_double(trimmed(parts[0])),
        parse_double(trimmed(parts[1])),
        parse_double(trimmed(parts[2])),
    ) {
        (Some(ac), Some(bd), Some(ad)) => skew_cosine(ac, bd, ad),
        _ => None,
    }
}

/// The skew factor of a parameter: the tangent that belongs to its cosine, if both exist.
pub open spec fn skew_factor(text: Seq<char>, tangent: Option<Double>) -> Option<Double> {
    match (skew_request(text), tangent) {
        (Some(_), Some(t)) => if t.is_finite() {
            Some(t)
        } else {
            None
        },
        _ => None,
    }
}

/// The skew factor of a parameter: the tangent that belongs to its cosine, if both exist.
pub fn parse_skew_factor(text: &str, tangent: Option<Double>) -> (r: Option<Double>)
    ensures
        r == skew_factor(text@, tangent),
{
    match (parse_skew_cosine(text), tangent) {
        (Some(_), Some(t)) => if t.is_finite() {
            Some(t)
        } else {
            None
        },
        _ => None,
    }
}

/// A filament distance.
#[verifier::allow_in_spec]
pub fn filament(e: Double) -> Axes
    returns
        [None, None, None, Some(e)],
{
    [None, None, None, Some(e)]
}

/// A height distance.
#[verifier::allow_in_spec]
pub fn height(z: Double) -> Axes
    returns
        [None, None, Some(z), None],
{
    [None, None, Some(z), None]
}

/// A number, or another one in its place.
#[verifier::allow_in_spec]
pub fn number_or(value: Option<Double>, other: Double) -> Double
    returns
        (match value {
            Some(v) => v,
            None => other,
        }),
{
    match value {
        Some(v) => v,
        None => other,
    }
}

/// The retraction options after a command.
pub open spec fn changed_retraction(
    o: FirmwareRetractionOptions,
    params: Seq<(Seq<char>, Seq<char>)>,
) -> FirmwareRetractionOptions {
    FirmwareRetractionOptions {
        retract_length: number_or(named_number(params, "retract_length"@), o.retract_length),
        unretract_extra_length: number_or(
            named_number(params, "unretract_extra_length"@),
            o.unretract_extra_length,
        ),
        unretract_speed: number_or(named_number(params, "unretract_speed"@), o.unretract_speed),
        retract_speed: number_or(named_number(params, "retract_speed"@), o.retract_speed),
        lift_z: number_or(named_number(params, "lift_z"@), o.lift_z),
    }
}

/// The limits after a velocity-limit command.
pub open spec fn changed_limits(
    limits: PrinterLimits,
    params: Seq<(Seq<char>, Seq<char>)>,
) -> PrinterLimits {
    let a = match named_number(params, "velocity"@) {
        Some(v) => PrinterLimits { max_velocity: v, ..limits },
        None => limits,
    };
    let b = match named_number(params, "accel"@) {
        Some(v) => a.with_max_acceleration(v),
        None => a,
    };
    let c = match named_number(params, "square_corner_velocity"@) {
        Some(v) => b.with_square_corner_velocity(v),
        None => b,
    };
    match named_number(params, "minimum_cruise_ratio"@) {
        Some(v) => c.with_minimum_cruise_ratio(v),
        None => match named_number(params, "accel_to_decel"@) {
            Some(v) => c.with_max_accel_to_decel(v),
            None => c,
        },
    }
}

pub open spec fn offsets_of(params: Seq<(Seq<char>, Seq<char>)>) -> Axes {
    [
        named_number(params, "x"@),
        named_number(params, "y"@),
        named_number(params, "z"@),
        named_number(params, "e"@),
    ]
}

pub open spec fn adjustments_of(params: Seq<(Seq<char>, Seq<char>)>) -> Axes {
    [
        named_number(params, "x_adjust"@),
        named_number(params, "y_adjust"@),
        named_number(params, "z_adjust"@),
        named_number(params, "e_adjust"@),
    ]
}

/// The text of a parameter, or another text in its place.
pub open spec fn text_or(
    params: Seq<(Seq<char>, Seq<char>)>,
    name: Seq<char>,
    other: Seq<char>,
) -> Seq<char> {
    match named_text(params, name) {
        Some(t) => t,
        None => other,
    }
}

/// A requested move speed, which must be positive.
pub open spec fn usable_speed(speed: Option<Double>) -> Option<Double> {
    match speed {
        Some(v) => if v <= num(ZERO) {
            None
        } else {
            Some(v)
        },
        None => None,
    }
}

impl PlannerView {
    pub open spec fn with_fill(self) -> PlannerView {
        PlannerView { operations: self.operations.with_fill(), ..self }
    }

    pub open spec fn with_boundary(self) -> PlannerView {
        PlannerView { operations: self.operations.with_boundary(), ..self }
    }

    pub open spec fn with_delay(self, d: Delay<Seq<char>>) -> PlannerView {
        PlannerView { operations: self.operations.with_delay(d), ..self }
    }

    pub open spec fn with_diagnostic(self, d: PlannerDiagnostic<Seq<char>>) -> PlannerView {
        PlannerView { operations: self.operations.with_diagnostic(d), ..self }
    }

    pub open spec fn with_toolhead(self, t: ToolheadView) -> PlannerView {
        PlannerView { toolhead: t, ..self }
    }

    pub open spec fn with_limits(self, limits: PrinterLimits) -> PlannerView {
        self.with_toolhead(ToolheadView { limits, ..self.toolhead })
    }

    pub open spec fn with_transforms(self, t: TransformView) -> PlannerView {
        self.with_toolhead(ToolheadView { transforms: t, ..self.toolhead }.retransformed())
    }

    /// The state with a logical move queued.
    pub open spec fn with_move(self, m: PlanningMove) -> PlannerView {
        PlannerView {
            operations: self.operations.with_logical_move(m, self.toolhead),
            toolhead: self.toolhead.after_path(m),
            ..self
        }
    }

    /// The state after a move to a physical position.
    #[verifier::opaque]
    pub open spec fn moved(self, target: Vec4, velocity: Option<Double>, kind: Option<Kind>) -> PlannerView {
        let m = PlanningMove { kind, ..self.toolhead.move_to(target, velocity) };
        self.with_toolhead(self.toolhead.moved_to(target)).with_move(m)
    }

    /// The state with a feed rate; one that is not positive is reported and not used.
    pub open spec fn with_feedrate(self, feedrate: Option<Double>) -> PlannerView {
        match feedrate {
            Some(f) => {
                let v = f * self.toolhead.speed_factor;
                if v <= num(ZERO) {
                    self.with_diagnostic(invalid_move_speed_of("MOVE"@))
                } else {
                    self.with_toolhead(ToolheadView { velocity: v, ..self.toolhead })
                }
            },
            None => self,
        }
    }

    pub open spec fn noting_comment(self, comment: Option<Seq<char>>) -> PlannerView {
        PlannerView { kinds: self.kinds.after_comment(comment), ..self }
    }

    /// The state after a linear move.
    #[verifier::opaque]
    pub open spec fn linear_move(
        self,
        axes: Axes,
        feedrate: Option<Double>,
        comment: Option<Seq<char>>,
    ) -> PlannerView {
        let fed = self.with_feedrate(feedrate);
        let kind = fed.kinds.comment_kind(comment);
        let noted = fed.noting_comment(comment);
        if axes[0] is Some || axes[1] is Some || axes[2] is Some || axes[3] is Some {
            noted.moved(noted.toolhead.target(axes), None, kind)
        } else {
            noted.with_fill()
        }
    }

    /// The state after the first `i` segments of an arc.
    pub open spec fn arc_moves(self, points: Seq<Vec4>, kind: Option<Kind>, i: int) -> PlannerView
        decreases i,
    {
        if i <= 0 {
            self
        } else {
            self.arc_moves(points, kind, i - 1).moved(points[i - 1], None, kind)
        }
    }

    /// The state after an arc.
    #[verifier::opaque]
    pub open spec fn arc(
        self,
        points: Seq<Vec4>,
        feedrate: Option<Double>,
        comment: Option<Seq<char>>,
    ) -> PlannerView {
        let fed = self.with_feedrate(feedrate);
        let kind = fed.kinds.comment_kind(comment);
        let noted = fed.noting_comment(comment);
        if points.len() == 0 {
            noted.with_fill()
        } else {
            noted.arc_moves(points, kind, points.len() as int)
        }
    }

    pub open spec fn knowing_kind(self, name: Seq<char>) -> PlannerView {
        PlannerView { kinds: self.kinds.knowing(name), ..self }
    }

    /// The state after a firmware retraction: filament back, then up.
    pub open spec fn retracted(self, o: FirmwareRetractionOptions) -> PlannerView {
        let kind = Some(self.kinds.kind_of("Firmware retract"@));
        let a = PlannerView {
            retraction: Some(FirmwareRetractionState { retracted: true }),
            ..self.knowing_kind("Firmware retract"@)
        };
        let b = a.moved(
            a.toolhead.relative().target(filament(o.retract_length.negated())),
            Some(o.retract_speed),
            kind,
        );
        if o.lift_z > num(ZERO) {
            b.moved(b.toolhead.relative().target(height(o.lift_z)), None, kind)
        } else {
            b
        }
    }

    /// The state after a firmware unretraction: down, then filament forward.
    pub open spec fn unretracted(self, o: FirmwareRetractionOptions) -> PlannerView {
        let kind = Some(self.kinds.kind_of("Firmware unretract"@));
        let a = PlannerView {
            retraction: Some(FirmwareRetractionState { retracted: false }),
            ..self.knowing_kind("Firmware unretract"@)
        };
        let b = if o.lift_z > num(ZERO) {
            a.moved(a.toolhead.relative().target(height(o.lift_z.negated())), None, kind)
        } else {
            a
        };
        b.moved(
            b.toolhead.relative().target(filament(o.retract_length + o.unretract_extra_length)),
            Some(o.unretract_speed),
            kind,
        )
    }

    /// The state after `G10` or `G11`. Without firmware retraction the command is reported;
    /// filament that is retracted is not retracted again.
    #[verifier::opaque]
    pub open spec fn firmware_retraction(self, back: bool) -> PlannerView {
        match (self.retraction, self.toolhead.limits.firmware_retraction) {
            (Some(state), Some(options)) => if state.retracted == back {
                self.with_fill()
            } else if back {
                self.retracted(options)
            } else {
                self.unretracted(options)
            },
            _ => self.with_diagnostic(
                unsupported_state_command_of(
                    if back {
                        "g10"@
                    } else {
                        "g11"@
                    },
                ),
            ).with_fill(),
        }
    }

    /// The state after a traditional command that is no move, delay, arc or retraction.
    #[verifier::opaque]
    pub open spec fn traditional(self, letter: char, code: u16, params: Seq<(char, Seq<char>)>) -> PlannerView {
        let t = self.toolhead;
        if letter == 'G' && code == 17 {
            PlannerView { plane: Plane::XY, ..self }
        } else if letter == 'G' && code == 18 {
            PlannerView { plane: Plane::XZ, ..self }
        } else if letter == 'G' && code == 19 {
            PlannerView { plane: Plane::YZ, ..self }
        } else if letter == 'G' && code == 92 {
            self.with_toolhead(
                t.rebased(
                    [
                        lettered_number(params, 'X'),
                        lettered_number(params, 'Y'),
                        lettered_number(params, 'Z'),
                        lettered_number(params, 'E'),
                    ],
                ),
            )
        } else if letter == 'G' && code == 90 {
            self.with_toolhead(t.with_coordinate_mode(PositionMode::Absolute))
        } else if letter == 'G' && code == 91 {
            self.with_toolhead(t.with_coordinate_mode(PositionMode::Relative))
        } else if letter == 'M' && code == 82 {
            self.with_toolhead(t.with_extrusion_mode(PositionMode::Absolute))
        } else if letter == 'M' && code == 83 {
            self.with_toolhead(t.with_extrusion_mode(PositionMode::Relative))
        } else if letter == 'M' && code == 220 {
            self.with_toolhead(
                t.with_speed_factor(number_or(lettered_number(params, 'S'), num(HUNDRED))),
            )
        } else if letter == 'M' && code == 221 {
            self.with_toolhead(
                t.with_extrude_factor(number_or(lettered_number(params, 'S'), num(HUNDRED))),
            )
        } else if letter == 'M' && code == 204 {
            match (
                lettered_number(params, 'S'),
                lettered_number(params, 'P'),
                lettered_number(params, 'T'),
            ) {
                (Some(s), _, _) => self.with_limits(t.limits.with_max_acceleration(s)),
                (None, Some(p), Some(q)) => self.with_limits(
                    t.limits.with_max_acceleration(p.min(q)),
                ),
                _ => self,
            }
        } else {
            self
        }
    }

    /// A speed that is not positive is reported if a move is requested.
    pub open spec fn checking_speed(self, requested: bool, speed: Option<Double>, name: Seq<char>) -> PlannerView {
        if requested && speed is Some && usable_speed(speed) is None {
            self.with_diagnostic(invalid_move_speed_of(name))
        } else {
            self
        }
    }

    /// The state after `SET_GCODE_OFFSET`.
    pub open spec fn offset(self, params: Seq<(Seq<char>, Seq<char>)>) -> PlannerView {
        let requested = named_flag(params, "move"@);
        let speed = named_number(params, "move_speed"@);
        let checked = self.checking_speed(requested, speed, "SET_GCODE_OFFSET"@);
        let t = checked.toolhead;
        let shifted = checked.with_toolhead(
            t.with_offsets(offsets_of(params), adjustments_of(params)),
        );
        if requested {
            shifted.moved(
                t.position.plus(t.offset_deltas(offsets_of(params), adjustments_of(params))),
                usable_speed(speed),
                None,
            )
        } else {
            shifted.with_fill()
        }
    }

    /// The state after `RESTORE_GCODE_STATE`.
    pub open spec fn restore(self, params: Seq<(Seq<char>, Seq<char>)>) -> PlannerView {
        let name = text_or(params, "name"@, "default"@);
        let requested = named_flag(params, "move"@);
        let speed = named_number(params, "move_speed"@);
        match lookup(self.toolhead.saved_states, name) {
            None => self.with_diagnostic(unknown_saved_state_of(name)).with_fill(),
            Some(state) => {
                let checked = self.checking_speed(requested, speed, "RESTORE_GCODE_STATE"@);
                let restored = checked.with_toolhead(checked.toolhead.restored(state));
                if requested {
                    restored.moved(
                        restored.toolhead.restore_target(state),
                        usable_speed(speed),
                        None,
                    )
                } else {
                    restored.with_fill()
                }
            },
        }
    }

    /// The state after `ACTIVATE_EXTRUDER`; a change of extruders waits for the moves before it.
    pub open spec fn activate(self, params: Seq<(Seq<char>, Seq<char>)>) -> PlannerView {
        let name = text_or(params, "extruder"@, "extruder"@);
        if self.toolhead.active_extruder == Some(name) {
            self.with_fill()
        } else if !has_key(self.toolhead.limits.extruders@, name) {
            self.with_diagnostic(unknown_extruder_of(name)).with_fill()
        } else {
            self.with_toolhead(self.toolhead.activated(name)).with_boundary()
        }
    }

    /// The state after a change of one skew factor.
    pub open spec fn skew_plane(
        self,
        factor: Double,
        params: Seq<(Seq<char>, Seq<char>)>,
        name: Seq<char>,
        tangent: Option<Double>,
    ) -> (PlannerView, Double) {
        match named_text(params, name) {
            Some(text) => match skew_factor(text, tangent) {
                Some(f) => (self, f),
                None => (self.with_diagnostic(unsupported_state_command_of("set_skew"@)), factor),
            },
            None => (self, factor),
        }
    }

    /// The state after `SET_SKEW`.
    pub open spec fn set_skew(self, params: Seq<(Seq<char>, Seq<char>)>, tangents: [Option<Double>; 3]) -> PlannerView {
        let t = self.toolhead.transforms;
        if named_flag(params, "clear"@) {
            self.with_transforms(TransformView { skew: SkewFactors::none(), ..t })
        } else {
            let (a, xy) = self.skew_plane(t.skew.xy, params, "xy"@, tangents[0]);
            let (b, xz) = a.skew_plane(t.skew.xz, params, "xz"@, tangents[1]);
            let (c, yz) = b.skew_plane(t.skew.yz, params, "yz"@, tangents[2]);
            c.with_transforms(TransformView { skew: SkewFactors { xy, xz, yz }, ..t })
        }
    }

    /// The state after `BED_MESH_PROFILE`.
    pub open spec fn mesh_profile(self, params: Seq<(Seq<char>, Seq<char>)>) -> PlannerView {
        let t = self.toolhead.transforms;
        match named_text(params, "load"@) {
            Some(name) => if t.has_mesh(name) {
                self.with_transforms(t.with_mesh(Some(name)))
            } else {
                self.with_diagnostic(unknown_profile_of("BED_MESH_PROFILE"@, name))
            },
            None => self.with_diagnostic(unsupported_state_command_of("bed_mesh_profile"@)),
        }
    }

    /// The state after `SKEW_PROFILE`.
    pub open spec fn load_skew_profile(self, params: Seq<(Seq<char>, Seq<char>)>) -> PlannerView {
        let t = self.toolhead.transforms;
        match named_text(params, "load"@) {
            Some(name) => match skew_profile(t.config, name) {
                Some(skew) => self.with_transforms(TransformView { skew, ..t }),
                None => self.with_diagnostic(unknown_profile_of("SKEW_PROFILE"@, name)),
            },
            None => self.with_diagnostic(unsupported_state_command_of("skew_profile"@)),
        }
    }

    /// The state after `SET_RETRACTION`, which also takes back the note that filament is
    /// retracted.
    pub open spec fn set_retraction(self, params: Seq<(Seq<char>, Seq<char>)>) -> PlannerView {
        match (self.retraction, self.toolhead.limits.firmware_retraction) {
            (Some(_), Some(options)) => PlannerView {
                retraction: Some(FirmwareRetractionState { retracted: false }),
                ..self.with_limits(
                    PrinterLimits {
                        firmware_retraction: Some(changed_retraction(options, params)),
                        ..self.toolhead.limits
                    },
                )
            },
            _ => self,
        }
    }

    /// The state after a named command.
    #[verifier::opaque]
    pub open spec fn extended(
        self,
        command: Seq<char>,
        params: Seq<(Seq<char>, Seq<char>)>,
        tangents: [Option<Double>; 3],
    ) -> PlannerView {
        let t = self.toolhead;
        if command == "set_velocity_limit"@ {
            self.with_limits(changed_limits(t.limits, params)).with_fill()
        } else if command == "set_retraction"@ {
            self.set_retraction(params).with_fill()
        } else if command == "activate_extruder"@ {
            self.activate(params)
        } else if command == "set_gcode_offset"@ {
            self.offset(params)
        } else if command == "save_gcode_state"@ {
            self.with_toolhead(t.saved_as(text_or(params, "name"@, "default"@))).with_fill()
        } else if command == "restore_gcode_state"@ {
            self.restore(params)
        } else if command == "bed_mesh_clear"@ {
            self.with_transforms(t.transforms.with_mesh(None)).with_fill()
        } else if command == "bed_mesh_profile"@ {
            self.mesh_profile(params).with_fill()
        } else if command == "bed_mesh_offset"@ {
            self.with_transforms(
                t.transforms.with_offsets(
                    named_number(params, "x"@),
                    named_number(params, "y"@),
                    named_number(params, "zfade"@),
                ),
            ).with_fill()
        } else if command == "set_skew"@ {
            self.set_skew(params, tangents).with_fill()
        } else if command == "skew_profile"@ {
            self.load_skew_profile(params).with_fill()
        } else if unsupported_extended(command) {
            self.with_diagnostic(unsupported_state_command_of(command)).with_fill()
        } else if command == "set_pressure_advance"@ || command == "set_input_shaper"@ {
            self.with_fill()
        } else {
            self.with_unknown(upper(command), UnknownDurationCategory::CommandOrMacro)
        }
    }

    /// The state after a command of unknown duration, which is reported.
    pub open spec fn with_unknown(self, command: Seq<char>, category: UnknownDurationCategory) -> PlannerView {
        self.with_diagnostic(unknown_duration_of(command)).with_delay(
            Delay::Unknown { command, category },
        )
    }

    /// The state after a comment line: it may name a kind or add time.
    #[verifier::opaque]
    pub open spec fn comment_line(self, comment: Seq<char>) -> PlannerView {
        match after_prefix(comment, "TYPE:"@) {
            Some(name) => PlannerView {
                kinds: KindView {
                    current: Some(self.kinds.kind_of(name)),
                    ..self.kinds.knowing(name)
                },
                ..self
            }.with_fill(),
            None => match after_prefix(trim_start(comment), "ESTIMATOR_ADD_TIME "@) {
                Some(rest) => self.added_time(rest),
                None => self.with_fill(),
            },
        }
    }

    /// The state after an added time: a duration in seconds and an optional description.
    pub open spec fn added_time(self, rest: Seq<char>) -> PlannerView {
        let amount = match split_once(rest, ' ') {
            Some((a, _)) => a,
            None => rest,
        };
        let description = match split_once(rest, ' ') {
            Some((_, b)) => Some(b),
            None => None,
        };
        match parsed(amount) {
            None => self.with_fill(),
            Some(seconds) => {
                let kind = match description {
                    Some(b) => Some(self.kinds.kind_of(b)),
                    None => None,
                };
                let known = match description {
                    Some(b) => self.knowing_kind(b),
                    None => self,
                };
                match Duration::of_seconds(seconds) {
                    Some(duration) => known.with_delay(
                        Delay::EstimatorAddition { duration, kind },
                    ),
                    None => known.with_fill(),
                }
            },
        }
    }

    /// The declared duration of a command.
    pub open spec fn contract_for(self, op: OperationView) -> Option<(CommandContract, Duration)> {
        match command_name(op) {
            Some(name) => match lookup(self.toolhead.limits.command_contracts@, name) {
                Some(contract) => match Duration::of_seconds(contract.duration) {
                    Some(duration) => Some((contract, duration)),
                    None => None,
                },
                None => None,
            },
            None => None,
        }
    }

    /// The state after a command.
    pub open spec fn step(self, c: CommandView) -> PlannerView {
        let name = command_name(c.op);
        match self.contract_for(c.op) {
            Some((contract, duration)) => self.with_toolhead(
                self.toolhead.with_contract(contract.state),
            ).with_delay(
                Delay::Contract { duration, command: name->0, category: contract.category },
            ),
            None => {
                let noted = if unsupported_traditional(c.op) {
                    self.with_diagnostic(unsupported_state_command_of(name->0))
                } else {
                    self
                };
                match delay_of(c.op) {
                    Some(Delay::Unknown { command, category }) => noted.with_unknown(
                        command,
                        category,
                    ),
                    Some(d) => noted.with_delay(d),
                    None => noted.plain_step(c),
                }
            },
        }
    }

    /// The state after a command that is no delay.
    pub open spec fn plain_step(self, c: CommandView) -> PlannerView {
        match c.op {
            OperationView::Move { x, y, z, e, f } => self.linear_move([x, y, z, e], f, c.comment),
            OperationView::Traditional { letter, code, params } => if letter == 'G' && (code == 2
                || code == 3) {
                self.arc(c.arc, lettered_number(params, 'F'), c.comment)
            } else if letter == 'G' && code == 10 {
                self.firmware_retraction(true)
            } else if letter == 'G' && code == 11 {
                self.firmware_retraction(false)
            } else if letter == 'M' && code == 400 {
                self.with_boundary()
            } else {
                self.traditional(letter, code, params).with_fill()
            },
            OperationView::Extended { command, params } => self.extended(command, params, c.skew),
            OperationView::Nop => match c.comment {
                Some(comment) => self.comment_line(comment),
                None => self.with_fill(),
            },
        }
    }
}

/// The diagnostics of the first `i` transforms that are active and not modelled.
pub open spec fn transform_reports(
    v: OperationsView,
    names: Seq<Seq<char>>,
    i: int,
) -> OperationsView
    decreases i,
{
    if i <= 0 {
        v
    } else {
        transform_reports(v, names, i - 1).with_diagnostic(
            unsupported_motion_transform_of(names[i - 1]),
        )
    }
}

/// What is reported before the first command.
pub open spec fn initial_reports(limits: PrinterLimits) -> OperationsView {
    let empty = OperationsView { ops: Seq::empty(), diagnostics: Seq::empty() };
    let a = match limits.kinematics {
        Kinematics::Unsupported { backend, reason } => empty.with_diagnostic(
            unsupported_kinematics_of(backend@, reason@),
        ),
        _ => empty,
    };
    let names = texts(limits.motion_transforms.unsupported_active@);
    transform_reports(a, names, names.len() as int)
}

fn text_parameter<'a>(params: &'a Vec<(String, String)>, name: &str, other: &'a str) -> (r: &'a str)
    ensures
        r@ == text_or(named(params@), name@, other@),
{
    match get_named_text(params, name) {
        Some(t) => t,
        None => other,
    }
}

impl Planner {
    pub open spec fn well_formed(&self) -> bool {
        self.operations.well_formed()
    }

    pub fn from_limits(limits: PrinterLimits) -> (r: Planner)
        ensures
            r.well_formed(),
            r@.operations == initial_reports(limits),
            r@.toolhead.starts_from(limits),
            r@.kinds == (KindView { names: Seq::empty(), current: None }),
            r@.retraction == (if limits.firmware_retraction is Some {
                Some(FirmwareRetractionState { retracted: false })
            } else {
                None
            }),
            r@.plane == Plane::XY,
    {
        let mut operations: OperationSequence = OperationSequence::new();
        if let Some((backend, reason)) = limits.kinematics.unsupported_details() {
            operations.add_diagnostic(PlannerDiagnostic::unsupported_kinematics(backend, reason));
        }
        let ghost a = operations@;
        let ghost names = texts(limits.motion_transforms.unsupported_active@);
        let mut i: usize = 0;
        while i < limits.motion_transforms.unsupported_active.len()
            invariant
                i <= limits.motion_transforms.unsupported_active@.len(),
                names == texts(limits.motion_transforms.unsupported_active@),
                operations.well_formed(),
                operations@ == transform_reports(a, names, i as int),
            decreases limits.motion_transforms.unsupported_active.len() - i,
        {
            operations.add_diagnostic(
                PlannerDiagnostic::unsupported_motion_transform(
                    limits.motion_transforms.unsupported_active[i].as_str(),
                ),
            );
            i = i + 1;
        }
        let firmware_retraction: Option<FirmwareRetractionState> = match limits.firmware_retraction {
            Some(_) => Some(FirmwareRetractionState { retracted: false }),
            None => None,
        };
        Planner {
            operations,
            toolhead_state: ToolheadState::from_limits(limits),
            kind_tracker: KindTracker::new(),
            firmware_retraction,
            arc_plane: Plane::XY,
        }
    }

    fn perform(&mut self, target: Vec4, velocity: Option<Double>, kind: Option<Kind>)
        requires
            old(self).well_formed(),
        ensures
            final(self).well_formed(),
            final(self)@ == old(self)@.moved(target, velocity, kind),
    {
        proof {
            reveal(PlannerView::moved);
        }
        let mut m = self.toolhead_state.perform_physical_move(target, velocity);
        m.kind = kind;
        self.operations.add_move(m, &mut self.toolhead_state);
    }

    fn perform_relative(&mut self, axes: Axes, velocity: Option<Double>, kind: Option<Kind>)
        requires
            old(self).well_formed(),
        ensures
            final(self).well_formed(),
            final(self)@ == old(self)@.moved(
                old(self)@.toolhead.relative().target(axes),
                velocity,
                kind,
            ),
    {
        let target = self.toolhead_state.relative_target(axes);
        self.perform(target, velocity, kind);
    }

    fn apply_feedrate(&mut self, feedrate: Option<Double>)
        requires
            old(self).well_formed(),
        ensures
            final(self).well_formed(),
            final(self)@ == old(self)@.with_feedrate(feedrate),
    {
        if let Some(f) = feedrate {
            if !self.toolhead_state.set_gcode_speed(f) {
                self.operations.add_diagnostic(PlannerDiagnostic::invalid_move_speed("MOVE"));
            }
        }
    }

    fn process_move(&mut self, axes: Axes, feedrate: Option<Double>, comment: &Option<String>)
        requires
            old(self).well_formed(),
        ensures
            final(self).well_formed(),
            final(self)@ == old(self)@.linear_move(
                axes,
                feedrate,
                match *comment {
                    Some(c) => Some(c@),
                    None => None,
                },
            ),
    {
        proof {
            reveal(PlannerView::linear_move);
            reveal(PlannerView::moved);
        }
        self.apply_feedrate(feedrate);
        let kind = self.kind_tracker.kind_from_comment(comment);
        if axes[0].is_some() || axes[1].is_some() || axes[2].is_some() || axes[3].is_some() {
            let mut m = self.toolhead_state.perform_move(axes);
            m.kind = kind;
            self.operations.add_move(m, &mut self.toolhead_state);
        } else {
            self.operations.add_fill();
        }
    }

    fn process_arc(
        &mut self,
        points: &Vec<Vec4>,
        feedrate: Option<Double>,
        comment: &Option<String>,
    )
        requires
            old(self).well_formed(),
        ensures
            final(self).well_formed(),
            final(self)@ == old(self)@.arc(
                points@,
                feedrate,
                match *comment {
                    Some(c) => Some(c@),
                    None => None,
                },
            ),
    {
        proof {
            reveal(PlannerView::arc);
        }
        self.apply_feedrate(feedrate);
        let kind = self.kind_tracker.kind_from_comment(comment);
        if points.len() == 0 {
            self.operations.add_fill();
            return ;
        }
        let ghost start = self@;
        let mut i: usize = 0;
        while i < points.len()
            invariant
                i <= points@.len(),
                self.well_formed(),
                self@ == start.arc_moves(points@, kind, i as int),
            decreases points.len() - i,
        {
            self.perform(points[i], None, kind);
            i = i + 1;
        }
    }

    fn process_retraction(&mut self, back: bool)
        requires
            old(self).well_formed(),
        ensures
            final(self).well_formed(),
            final(self)@ == old(self)@.firmware_retraction(back),
    {
        proof {
            reveal(PlannerView::firmware_retraction);
        }
        let (state, o): (FirmwareRetractionState, FirmwareRetractionOptions) = match (
            self.firmware_retraction,
            self.toolhead_state.limits.firmware_retraction,
        ) {
            (Some(state), Some(options)) => (state, options),
            _ => {
                self.operations.add_diagnostic(
                    PlannerDiagnostic::unsupported_state_command(
                        if back {
                            "g10"
                        } else {
                            "g11"
                        },
                    ),
                );
                self.operations.add_fill();
                return ;
            },
        };
        if state.retracted == back {
            self.operations.add_fill();
            return ;
        }
        self.firmware_retraction = Some(FirmwareRetractionState { retracted: back });
        let lifts: bool = o.lift_z > num(ZERO);
        if back {
            let kind = Some(self.kind_tracker.get_kind("Firmware retract"));
            self.perform_relative(
                filament(o.retract_length.negated()),
                Some(o.retract_speed),
                kind,
            );
            if lifts {
                self.perform_relative(height(o.lift_z), None, kind);
            }
        } else {
            let kind = Some(self.kind_tracker.get_kind("Firmware unretract"));
            if lifts {
                self.perform_relative(height(o.lift_z.negated()), None, kind);
            }
            self.perform_relative(
                filament(o.retract_length + o.unretract_extra_length),
                Some(o.unretract_speed),
                kind,
            );
        }
    }

    fn process_traditional(&mut self, letter: char, code: u16, params: &Vec<(char, String)>)
        requires
            old(self).well_formed(),
        ensures
            final(self).well_formed(),
            final(self)@ == old(self)@.traditional(letter, code, lettered(params@)),
    {
        proof {
            reveal(PlannerView::traditional);
        }
        if letter == 'G' && code == 17 {
            self.arc_plane = Plane::XY;
        } else if letter == 'G' && code == 18 {
            self.arc_plane = Plane::XZ;
        } else if letter == 'G' && code == 19 {
            self.arc_plane = Plane::YZ;
        } else if letter == 'G' && code == 92 {
            self.toolhead_state.set_gcode_position(
                [
                    get_number(params, 'X'),
                    get_number(params, 'Y'),
                    get_number(params, 'Z'),
                    get_number(params, 'E'),
                ],
            );
        } else if letter == 'G' && code == 90 {
            self.toolhead_state.set_coordinate_mode(PositionMode::Absolute);
        } else if letter == 'G' && code == 91 {
            self.toolhead_state.set_coordinate_mode(PositionMode::Relative);
        } else if letter == 'M' && code == 82 {
            self.toolhead_state.set_extrusion_mode(PositionMode::Absolute);
        } else if letter == 'M' && code == 83 {
            self.toolhead_state.set_extrusion_mode(PositionMode::Relative);
        } else if letter == 'M' && code == 220 {
            self.toolhead_state.set_speed_factor(
                number_or(get_number(params, 'S'), num(HUNDRED)),
            );
        } else if letter == 'M' && code == 221 {
            self.toolhead_state.set_extrude_factor(
                number_or(get_number(params, 'S'), num(HUNDRED)),
            );
        } else if letter == 'M' && code == 204 {
            match (get_number(params, 'S'), get_number(params, 'P'), get_number(params, 'T')) {
                (Some(s), _, _) => self.toolhead_state.limits.set_max_acceleration(s),
                (None, Some(p), Some(t)) => self.toolhead_state.limits.set_max_acceleration(
                    p.min(t),
                ),
                _ => {},
            }
        }
    }

    fn change_limits(&mut self, params: &Vec<(String, String)>)
        requires
            old(self).well_formed(),
        ensures
            final(self).well_formed(),
            final(self)@ == old(self)@.with_limits(
                changed_limits(old(self)@.toolhead.limits, named(params@)),
            ),
    {
        if let Some(v) = get_named_number(params, "velocity") {
            self.toolhead_state.limits.set_max_velocity(v);
        }
        if let Some(v) = get_named_number(params, "accel") {
            self.toolhead_state.limits.set_max_acceleration(v);
        }
        if let Some(v) = get_named_number(params, "square_corner_velocity") {
            self.toolhead_state.limits.set_square_corner_velocity(v);
        }
        if let Some(v) = get_named_number(params, "minimum_cruise_ratio") {
            self.toolhead_state.limits.set_minimum_cruise_ratio(v);
        } else if let Some(v) = get_named_number(params, "accel_to_decel") {
            self.toolhead_state.limits.set_max_accel_to_decel(v);
        }
    }

    fn process_set_retraction(&mut self, params: &Vec<(String, String)>)
        requires
            old(self).well_formed(),
        ensures
            final(self).well_formed(),
            final(self)@ == old(self)@.set_retraction(named(params@)),
    {
        if let (Some(_), Some(o)) = (
            self.firmware_retraction,
            self.toolhead_state.limits.firmware_retraction,
        ) {
            let options = FirmwareRetractionOptions {
                retract_length: number_or(
                    get_named_number(params, "retract_length"),
                    o.retract_length,
                ),
                unretract_extra_length: number_or(
                    get_named_number(params, "unretract_extra_length"),
                    o.unretract_extra_length,
                ),
                unretract_speed: number_or(
                    get_named_number(params, "unretract_speed"),
                    o.unretract_speed,
                ),
                retract_speed: number_or(
                    get_named_number(params, "retract_speed"),
                    o.retract_speed,
                ),
                lift_z: number_or(get_named_number(params, "lift_z"), o.lift_z),
            };
            self.toolhead_state.limits.firmware_retraction = Some(options);
            self.firmware_retraction = Some(FirmwareRetractionState { retracted: false });
        }
    }

    fn process_activate(&mut self, params: &Vec<(String, String)>)
        requires
            old(self).well_formed(),
        ensures
            final(self).well_formed(),
            final(self)@ == old(self)@.activate(named(params@)),
    {
        let name = text_parameter(params, "extruder", "extruder");
        match self.toolhead_state.activate_extruder(name) {
            Ok(true) => self.operations.add_flush_boundary(),
            Ok(false) => self.operations.add_fill(),
            Err(()) => {
                self.operations.add_diagnostic(PlannerDiagnostic::unknown_extruder(name));
                self.operations.add_fill();
            },
        }
    }

    fn requested_speed(&mut self, requested: bool, speed: Option<Double>, name: &str) -> (r: Option<
        Double,
    >)
        requires
            old(self).well_formed(),
        ensures
            final(self).well_formed(),
            r == usable_speed(speed),
            final(self)@ == old(self)@.checking_speed(requested, speed, name@),
    {
        match speed {
            Some(v) => if v <= num(ZERO) {
                if requested {
                    self.operations.add_diagnostic(PlannerDiagnostic::invalid_move_speed(name));
                }
                None
            } else {
                Some(v)
            },
            None => None,
        }
    }

    fn process_offset(&mut self, params: &Vec<(String, String)>)
        requires
            old(self).well_formed(),
        ensures
            final(self).well_formed(),
            final(self)@ == old(self)@.offset(named(params@)),
    {
        proof {
            reveal(PlannerView::moved);
        }
        let offsets: Axes = [
            get_named_number(params, "x"),
            get_named_number(params, "y"),
            get_named_number(params, "z"),
            get_named_number(params, "e"),
        ];
        let adjustments: Axes = [
            get_named_number(params, "x_adjust"),
            get_named_number(params, "y_adjust"),
            get_named_number(params, "z_adjust"),
            get_named_number(params, "e_adjust"),
        ];
        let requested: bool = get_flag(params, "move");
        let speed = self.requested_speed(
            requested,
            get_named_number(params, "move_speed"),
            "SET_GCODE_OFFSET",
        );
        match self.toolhead_state.set_gcode_offset(offsets, adjustments, requested, speed) {
            Some(m) => {
                let mut m: PlanningMove = m;
                m.kind = None;
                self.operations.add_move(m, &mut self.toolhead_state);
            },
            None => self.operations.add_fill(),
        }
    }

    fn process_restore(&mut self, params: &Vec<(String, String)>)
        requires
            old(self).well_formed(),
        ensures
            final(self).well_formed(),
            final(self)@ == old(self)@.restore(named(params@)),
    {
        proof {
            reveal(PlannerView::moved);
        }
        let name = text_parameter(params, "name", "default");
        let requested: bool = get_flag(params, "move");
        if !self.toolhead_state.saved_states.contains_key(name) {
            self.operations.add_diagnostic(PlannerDiagnostic::unknown_saved_state(name));
            self.operations.add_fill();
            return;
        }
        let speed = self.requested_speed(
            requested,
            get_named_number(params, "move_speed"),
            "RESTORE_GCODE_STATE",
        );
        match self.toolhead_state.restore_gcode_state(name, requested, speed) {
            Ok(Some(m)) => {
                let mut m: PlanningMove = m;
                m.kind = None;
                self.operations.add_move(m, &mut self.toolhead_state);
            },
            _ => self.operations.add_fill(),
        }
    }

    fn skew_parameter(
        &mut self,
        factor: Double,
        params: &Vec<(String, String)>,
        name: &str,
        tangent: Option<Double>,
    ) -> (r: Double)
        requires
            old(self).well_formed(),
        ensures
            final(self).well_formed(),
            (final(self)@, r) == old(self)@.skew_plane(factor, named(params@), name@, tangent),
    {
        match get_named_text(params, name) {
            Some(text) => match parse_skew_factor(text, tangent) {
                Some(f) => f,
                None => {
                    self.operations.add_diagnostic(
                        PlannerDiagnostic::unsupported_state_command("set_skew"),
                    );
                    factor
                },
            },
            None => factor,
        }
    }

    fn process_skew(&mut self, params: &Vec<(String, String)>, tangents: [Option<Double>; 3])
        requires
            old(self).well_formed(),
        ensures
            final(self).well_formed(),
            final(self)@ == old(self)@.set_skew(named(params@), tangents),
    {
        let mut factors: SkewFactors = self.toolhead_state.motion_transforms.skew();
        if get_flag(params, "clear") {
            factors = SkewFactors::none();
        } else {
            let xy = self.skew_parameter(factors.xy, params, "xy", tangents[0]);
            let xz = self.skew_parameter(factors.xz, params, "xz", tangents[1]);
            let yz = self.skew_parameter(factors.yz, params, "yz", tangents[2]);
            factors = SkewFactors { xy, xz, yz };
        }
        self.toolhead_state.motion_transforms.set_skew(factors);
        self.toolhead_state.reset_after_transform_change();
    }

    fn process_mesh_profile(&mut self, params: &Vec<(String, String)>)
        requires
            old(self).well_formed(),
        ensures
            final(self).well_formed(),
            final(self)@ == old(self)@.mesh_profile(named(params@)),
    {
        match get_named_text(params, "load") {
            Some(name) => {
                if self.toolhead_state.motion_transforms.load_bed_mesh(
                    &self.toolhead_state.limits.motion_transforms,
                    name,
                ) {
                    self.toolhead_state.reset_after_transform_change();
                } else {
                    self.operations.add_diagnostic(
                        PlannerDiagnostic::unknown_motion_transform_profile(
                            "BED_MESH_PROFILE",
                            name,
                        ),
                    );
                }
            },
            None => self.operations.add_diagnostic(
                PlannerDiagnostic::unsupported_state_command("bed_mesh_profile"),
            ),
        }
    }

    fn process_skew_profile(&mut self, params: &Vec<(String, String)>)
        requires
            old(self).well_formed(),
        ensures
            final(self).well_formed(),
            final(self)@ == old(self)@.load_skew_profile(named(params@)),
    {
        match get_named_text(params, "load") {
            Some(name) => {
                if self.toolhead_state.motion_transforms.load_skew(
                    &self.toolhead_state.limits.motion_transforms,
                    name,
                ) {
                    self.toolhead_state.reset_after_transform_change();
                } else {
                    self.operations.add_diagnostic(
                        PlannerDiagnostic::unknown_motion_transform_profile("SKEW_PROFILE", name),
                    );
                }
            },
            None => self.operations.add_diagnostic(
                PlannerDiagnostic::unsupported_state_command("skew_profile"),
            ),
        }
    }

    fn process_unknown(&mut self, command: String, category: UnknownDurationCategory)
        requires
            old(self).well_formed(),
        ensures
            final(self).well_formed(),
            final(self)@ == old(self)@.with_unknown(command@, category),
    {
        self.operations.add_diagnostic(PlannerDiagnostic::unknown_duration(command.as_str()));
        self.operations.add_delay(Delay::Unknown { command, category });
    }

    fn process_extended(
        &mut self,
        command: &str,
        params: &Vec<(String, String)>,
        tangents: [Option<Double>; 3],
    )
        requires
            old(self).well_formed(),
        ensures
            final(self).well_formed(),
            final(self)@ == old(self)@.extended(command@, named(params@), tangents),
    {
        proof {
            reveal(PlannerView::extended);
        }
        if same(command, "set_velocity_limit") {
            self.change_limits(params);
            self.operations.add_fill();
        } else if same(command, "set_retraction") {
            self.process_set_retraction(params);
            self.operations.add_fill();
        } else if same(command, "activate_extruder") {
            self.process_activate(params);
        } else if same(command, "set_gcode_offset") {
            self.process_offset(params);
        } else if same(command, "save_gcode_state") {
            let name = text_parameter(params, "name", "default");
            self.toolhead_state.save_gcode_state(name);
            self.operations.add_fill();
        } else if same(command, "restore_gcode_state") {
            self.process_restore(params);
        } else if same(command, "bed_mesh_clear") {
            self.toolhead_state.motion_transforms.clear_bed_mesh();
            self.toolhead_state.reset_after_transform_change();
            self.operations.add_fill();
        } else if same(command, "bed_mesh_profile") {
            self.process_mesh_profile(params);
            self.operations.add_fill();
        } else if same(command, "bed_mesh_offset") {
            self.toolhead_state.motion_transforms.offset_bed_mesh(
                get_named_number(params, "x"),
                get_named_number(params, "y"),
                get_named_number(params, "zfade"),
            );
            self.toolhead_state.reset_after_transform_change();
            self.operations.add_fill();
        } else if same(command, "set_skew") {
            self.process_skew(params, tangents);
            self.operations.add_fill();
        } else if same(command, "skew_profile") {
            self.process_skew_profile(params);
            self.operations.add_fill();
        } else if is_unsupported_state_command(command) {
            self.operations.add_diagnostic(PlannerDiagnostic::unsupported_state_command(command));
            self.operations.add_fill();
        } else if same(command, "set_pressure_advance") || same(command, "set_input_shaper") {
            self.operations.add_fill();
        } else {
            self.process_unknown(to_upper(command), UnknownDurationCategory::CommandOrMacro);
        }
    }

    fn process_added_time(&mut self, rest: &str)
        requires
            old(self).well_formed(),
        ensures
            final(self).well_formed(),
            final(self)@ == old(self)@.added_time(rest@),
    {
        let (amount, description): (&str, Option<&str>) = match split_at_char(rest, ' ') {
            Some((a, b)) => (a, Some(b)),
            None => (rest, None),
        };
        match parse_double(amount) {
            None => self.operations.add_fill(),
            Some(seconds) => {
                let kind: Option<Kind> = match description {
                    Some(b) => Some(self.kind_tracker.get_kind(b)),
                    None => None,
                };
                match Duration::from_secs(seconds) {
                    Some(duration) => self.operations.add_delay(
                        Delay::EstimatorAddition { duration, kind },
                    ),
                    None => self.operations.add_fill(),
                }
            },
        }
    }

    fn process_comment(&mut self, comment: &str)
        requires
            old(self).well_formed(),
        ensures
            final(self).well_formed(),
            final(self)@ == old(self)@.comment_line(comment@),
    {
        proof {
            reveal(PlannerView::comment_line);
        }
        if let Some(name) = strip_prefix(comment, "TYPE:") {
            let kind = self.kind_tracker.get_kind(name);
            self.kind_tracker.set_current(Some(kind));
            self.operations.add_fill();
        } else if let Some(rest) = strip_prefix(trimmed_start(comment), "ESTIMATOR_ADD_TIME ") {
            self.process_added_time(rest);
        } else {
            self.operations.add_fill();
        }
    }

    fn process_plain(&mut self, cmd: &GCodeCommand)
        requires
            old(self).well_formed(),
        ensures
            final(self).well_formed(),
            final(self)@ == old(self)@.plain_step(cmd@),
    {
        match &cmd.op {
            GCodeOperation::Move { x, y, z, e, f } => {
                self.process_move([*x, *y, *z, *e], *f, &cmd.comment);
            },
            GCodeOperation::Traditional { letter, code, params } => {
                if *letter == 'G' && (*code == 2 || *code == 3) {
                    self.process_arc(&cmd.resolution.arc, get_number(params, 'F'), &cmd.comment);
                } else if *letter == 'G' && *code == 10 {
                    self.process_retraction(true);
                } else if *letter == 'G' && *code == 11 {
                    self.process_retraction(false);
                } else if *letter == 'M' && *code == 400 {
                    self.operations.add_flush_boundary();
                } else {
                    self.process_traditional(*letter, *code, params);
                    self.operations.add_fill();
                }
            },
            GCodeOperation::Extended { command, params } => {
                self.process_extended(command.as_str(), params, cmd.resolution.skew);
            },
            GCodeOperation::Nop => {
                match &cmd.comment {
                    Some(comment) => self.process_comment(comment.as_str()),
                    None => self.operations.add_fill(),
                }
            },
        }
    }

    /// Applies a command that has a declared duration: whether it has one.
    fn process_contract(&mut self, op: &GCodeOperation) -> (found: bool)
        requires
            old(self).well_formed(),
        ensures
            final(self).well_formed(),
            match old(self)@.contract_for(op@) {
                Some((contract, duration)) => found && final(self)@ == old(self)@.with_toolhead(
                    old(self)@.toolhead.with_contract(contract.state),
                ).with_delay(
                    Delay::Contract {
                        duration,
                        command: command_name(op@)->0,
                        category: contract.category,
                    },
                ),
                None => !found && final(self)@ == old(self)@,
            },
    {
        let command: String = match name_of(op) {
            Some(name) => name,
            None => {
                return false;
            },
        };
        let i: usize = self.toolhead_state.limits.command_contracts.index_of(command.as_str());
        if i >= self.toolhead_state.limits.command_contracts.len() {
            return false;
        }
        let contract = self.toolhead_state.limits.command_contracts.value_at(i);
        let duration: Duration = match Duration::from_secs(contract.duration) {
            Some(d) => d,
            None => {
                return false;
            },
        };
        let category: DurationContractCategory = contract.category;
        let state: ContractState = copy_state(&contract.state);
        self.toolhead_state.apply_contract(&state);
        self.operations.add_delay(Delay::Contract { duration, command, category });
        true
    }

    fn process_any(&mut self, cmd: &GCodeCommand)
        requires
            old(self).well_formed(),
        ensures
            final(self).well_formed(),
            final(self)@ == old(self)@.step(cmd@),
    {
        if self.process_contract(&cmd.op) {
            return ;
        }
        if is_unsupported_traditional_state_command(&cmd.op) {
            if let Some(name) = name_of(&cmd.op) {
                self.operations.add_diagnostic(
                    PlannerDiagnostic::unsupported_state_command(name.as_str()),
                );
            }
        }
        match is_dwell(&cmd.op) {
            Some(Delay::Unknown { command, category }) => self.process_unknown(command, category),
            Some(d) => self.operations.add_delay(d),
            None => self.process_plain(cmd),
        }
    }

    /// Plans a command and returns the number of operations that it resulted in: those by which
    /// the queue has grown.
    pub fn process_cmd(&mut self, cmd: &GCodeCommand) -> (r: usize)
        requires
            old(self).well_formed(),
        ensures
            final(self).well_formed(),
            final(self)@ == old(self)@.step(cmd@),
            r == held(final(self)@.operations.ops) - held(old(self)@.operations.ops),
    {
        let before: usize = self.operations.run_length();
        self.process_any(cmd);
        let after: usize = self.operations.run_length();
        proof {
            lemma_step_counted(old(self)@, cmd@);
        }
        // Moves join the run at the end of the queue; everything else is one operation.
        if after > before {
            after - before
        } else {
            1
        }
    }

    /// Plans everything that is still open.
    pub fn finalize(&mut self)
        requires
            old(self).well_formed(),
        ensures
            final(self).well_formed(),
            final(self)@ == (PlannerView {
                operations: old(self)@.operations.all_flushed(),
                ..old(self)@
            }),
    {
        self.operations.flush();
    }

    pub fn diagnostics(&self) -> (r: &Vec<PlannerDiagnostic>)
        ensures
            crate::operations::reported(r@) == self@.operations.diagnostics,
    {
        &self.operations.diagnostics
    }

    /// Takes the next operation that is final.
    pub fn next_operation(&mut self) -> (r: Option<PlanningOperation>)
        requires
            old(self).well_formed(),
        ensures
            final(self).well_formed(),
            old(self)@.operations.front() == match r {
                Some(op) => Some(op@),
                None => None,
            },
            final(self)@ == (PlannerView {
                operations: old(self)@.operations.taken(),
                ..old(self)@
            }),
            r is Some ==> final(self)@.operations.size() < old(self)@.operations.size(),
    {
        self.operations.next_operation()
    }

    /// Takes all operations that are final.
    pub fn drain(&mut self) -> (r: Vec<PlanningOperation>)
        requires
            old(self).well_formed(),
        ensures
            final(self).well_formed(),
            ({
                let (v, ops) = old(self)@.operations.drained(r@.len());
                operations_of(r@) == ops && v.front() is None && final(self)@ == (PlannerView {
                    operations: v.taken(),
                    ..old(self)@
                })
            }),
    {
        let ghost before = self@;
        let mut out: Vec<PlanningOperation> = Vec::new();
        assert(operations_of(out@) == Seq::<PlanningOperation<Seq<char>>>::empty());
        loop
            invariant_except_break
                self.well_formed(),
                self@ == (PlannerView {
                    operations: before.operations.drained(out@.len()).0,
                    ..before
                }),
                operations_of(out@) == before.operations.drained(out@.len()).1,
            ensures
                self.well_formed(),
                before.operations.drained(out@.len()).0.front() is None,
                self@ == (PlannerView {
                    operations: before.operations.drained(out@.len()).0.taken(),
                    ..before
                }),
                operations_of(out@) == before.operations.drained(out@.len()).1,
            decreases self@.operations.size(),
        {
            match self.next_operation() {
                Some(op) => {
                    let ghost done = out@;
                    let ghost o = op@;
                    out.push(op);
                    assert(operations_of(out@) == operations_of(done).push(o));
                },
                None => {
                    break;
                },
            }
        }
        out
    }

    /// The name of a move's kind.
    pub fn move_kind_str(&self, m: &PlanningMove) -> (r: Option<&str>)
        ensures
            self@.kinds.name_of(m.kind) == match r {
                Some(t) => Some(t@),
                None => None,
            },
    {
        self.kind_tracker.resolve_kind(m.kind)
    }

    /// The name of a kind.
    pub fn kind_str(&self, kind: Option<Kind>) -> (r: Option<&str>)
        ensures
            self@.kinds.name_of(kind) == match r {
                Some(t) => Some(t@),
                None => None,
            },
    {
        self.kind_tracker.resolve_kind(kind)
    }

    /// The name of a move's extruder.
    pub fn move_extruder_name(&self, m: &PlanningMove) -> (r: Option<&str>)
        ensures
            match OperationsView::tool_of(*m, self@.toolhead.limits) {
                Some((name, _)) => r matches Some(t) && t@ == name,
                None => r is None,
            },
    {
        match m.extruder_index() {
            Some(i) => if i < self.toolhead_state.limits.extruders.len() {
                Some(self.toolhead_state.limits.extruders.key_at(i))
            } else {
                None
            },
            None => None,
        }
    }

    /// The filament radius of a move's extruder.
    pub fn move_filament_radius(&self, m: &PlanningMove) -> (r: Option<Double>)
        ensures
            r == match OperationsView::tool_of(*m, self@.toolhead.limits) {
                Some((_, limits)) => Some(limits.filament_diameter * num(HALF)),
                None => None,
            },
    {
        match m.extruder_index() {
            Some(i) => if i < self.toolhead_state.limits.extruders.len() {
                Some(
                    self.toolhead_state.limits.extruders.value_at(i).filament_diameter * num(HALF),
                )
            } else {
                None
            },
            None => None,
        }
    }
}

fn copy_state(state: &ContractState) -> (r: ContractState)
    ensures
        r == *state,
{
    ContractState {
        coordinate_mode: state.coordinate_mode,
        extrusion_mode: state.extrusion_mode,
        gcode_position: state.gcode_position,
        physical_position: state.physical_position,
        speed_factor_percent: state.speed_factor_percent,
        extrusion_factor_percent: state.extrusion_factor_percent,
        active_extruder: match &state.active_extruder {
            Some(name) => Some(name.clone()),
            None => None,
        },
    }
}

} // verus!
