//! Structured diagnostics of the planner.

use vstd::prelude::*;

use crate::decimal::fixed;
use crate::decimal::format_fixed;
use crate::double::Double;
use crate::kinematics::MoveOutOfRange;
use crate::limits::ExtruderLimits;
use crate::planning_move::ExtruderViolation;
use crate::planning_move::PlanningMove;
use crate::text::same;
use crate::text::to_upper;
use crate::text::upper;

verus! {

#[derive(Clone, Copy, Debug, PartialEq, Eq, Structural)]
pub enum PlannerDiagnosticCode {
    UnknownSavedGcodeState,
    UnknownExtruder,
    UnsupportedStateCommand,
    UnsupportedKinematics,
    UnsupportedMotionTransform,
    UnknownMotionTransformProfile,
    MoveOutsideKinematicBounds,
    ExtrudeOnlyMoveTooLong,
    MoveExceedsMaximumExtrusion,
    ExtrudeWithoutExtruder,
    UnknownDuration,
    InvalidMoveSpeed,
}

/// A condition that makes an estimate less than exact.
#[derive(Clone, Debug)]
#[verifier::ext_equal]
pub struct PlannerDiagnostic<S = String> {
    pub code: PlannerDiagnosticCode,
    pub command: S,
    pub message: S,
}

impl View for PlannerDiagnostic<String> {
    type V = PlannerDiagnostic<Seq<char>>;

    open spec fn view(&self) -> PlannerDiagnostic<Seq<char>> {
        PlannerDiagnostic { code: self.code, command: self.command@, message: self.message@ }
    }
}

/// A diagnostic with the given texts.
pub open spec fn diagnosed(
    code: PlannerDiagnosticCode,
    command: Seq<char>,
    message: Seq<char>,
) -> PlannerDiagnostic<Seq<char>> {
    PlannerDiagnostic { code, command, message }
}

pub open spec fn unknown_saved_state_of(name: Seq<char>) -> PlannerDiagnostic<Seq<char>> {
    diagnosed(
        PlannerDiagnosticCode::UnknownSavedGcodeState,
        "RESTORE_GCODE_STATE"@,
        "unknown saved G-code state: "@ + name,
    )
}

pub open spec fn unsupported_state_command_of(command: Seq<char>) -> PlannerDiagnostic<Seq<char>> {
    diagnosed(
        PlannerDiagnosticCode::UnsupportedStateCommand,
        upper(command),
        "parsed state-changing command is not modeled; estimate is a lower bound"@,
    )
}

pub open spec fn unknown_extruder_of(name: Seq<char>) -> PlannerDiagnostic<Seq<char>> {
    diagnosed(
        PlannerDiagnosticCode::UnknownExtruder,
        "ACTIVATE_EXTRUDER"@,
        "Klipper has no configured extruder named '"@ + name + "'"@,
    )
}

pub open spec fn unsupported_kinematics_of(backend: Seq<char>, reason: Seq<char>) -> PlannerDiagnostic<
    Seq<char>,
> {
    diagnosed(
        PlannerDiagnosticCode::UnsupportedKinematics,
        "KINEMATICS"@,
        "configured Klipper kinematics '"@ + backend + "' is unsupported ("@ + reason
            + "); estimate is a lower bound"@,
    )
}

pub open spec fn unsupported_motion_transform_of(name: Seq<char>) -> PlannerDiagnostic<Seq<char>> {
    diagnosed(
        PlannerDiagnosticCode::UnsupportedMotionTransform,
        upper(name),
        "active motion transform is not modeled; estimate is a lower bound"@,
    )
}

pub open spec fn unknown_profile_of(command: Seq<char>, name: Seq<char>) -> PlannerDiagnostic<
    Seq<char>,
> {
    diagnosed(
        PlannerDiagnosticCode::UnknownMotionTransformProfile,
        command,
        "unknown motion-transform profile: "@ + name,
    )
}

pub open spec fn unknown_duration_of(command: Seq<char>) -> PlannerDiagnostic<Seq<char>> {
    diagnosed(
        PlannerDiagnosticCode::UnknownDuration,
        command,
        "duration is unknown and was not included; estimate is a lower bound"@,
    )
}

pub open spec fn invalid_move_speed_of(command: Seq<char>) -> PlannerDiagnostic<Seq<char>> {
    diagnosed(
        PlannerDiagnosticCode::InvalidMoveSpeed,
        command,
        "Klipper would reject a move speed that is not positive"@,
    )
}

/// The number with six digits after the point.
pub open spec fn six(x: Double) -> Seq<char> {
    fixed(x, 6)
}

pub open spec fn invalid_extrusion_of(
    violation: ExtruderViolation,
    m: PlanningMove,
    extruder: Option<(Seq<char>, ExtruderLimits)>,
) -> PlannerDiagnostic<Seq<char>> {
    match (violation, extruder) {
        (ExtruderViolation::ExtrudeOnlyMoveTooLong, Some((tool, limits))) => diagnosed(
            PlannerDiagnosticCode::ExtrudeOnlyMoveTooLong,
            "MOVE"@,
            "Klipper would reject extrude-only move on "@ + tool + ": "@ + six(m.delta().w.abs())
                + "mm exceeds configured "@ + six(limits.max_extrude_only_distance) + "mm"@,
        ),
        (ExtruderViolation::MaximumCrossSection, Some((tool, limits))) => diagnosed(
            PlannerDiagnosticCode::MoveExceedsMaximumExtrusion,
            "MOVE"@,
            "Klipper would reject extrusion on "@ + tool + ": "@ + six(
                m.rate.w * limits.filament_area(),
            ) + "mm^2 exceeds configured "@ + six(limits.max_extrude_cross_section) + "mm^2"@,
        ),
        _ => diagnosed(
            PlannerDiagnosticCode::ExtrudeWithoutExtruder,
            "MOVE"@,
            "Klipper would reject extrusion because no extruder is configured"@,
        ),
    }
}

pub open spec fn axis_name(axis: usize) -> Seq<char> {
    if axis == 0 {
        "X"@
    } else if axis == 1 {
        "Y"@
    } else {
        "Z"@
    }
}

pub open spec fn move_out_of_range_of(violation: MoveOutOfRange) -> PlannerDiagnostic<Seq<char>> {
    diagnosed(
        PlannerDiagnosticCode::MoveOutsideKinematicBounds,
        "MOVE"@,
        match violation {
            MoveOutOfRange::Axis { axis, position, minimum, maximum } => "Klipper would reject "@
                + axis_name(axis) + "="@ + six(position) + " outside configured range "@ + six(
                minimum,
            ) + ".."@ + six(maximum),
            MoveOutOfRange::Reachability { backend, position } => "Klipper "@ + backend@
                + " reachability rejects X="@ + six(position.x) + " Y="@ + six(position.y) + " Z="@
                + six(position.z),
        },
    )
}

impl PlannerDiagnostic<String> {
    fn with(code: PlannerDiagnosticCode, command: &str, message: String) -> (r: PlannerDiagnostic)
        ensures
            r@ == diagnosed(code, command@, message@),
    {
        PlannerDiagnostic { code, command: command.to_owned(), message }
    }

    pub fn unknown_saved_state(name: &str) -> (r: PlannerDiagnostic)
        ensures
            r@ == unknown_saved_state_of(name@),
    {
        let mut message: String = "unknown saved G-code state: ".to_owned();
        message.append(name);
        Self::with(PlannerDiagnosticCode::UnknownSavedGcodeState, "RESTORE_GCODE_STATE", message)
    }

    pub fn unsupported_state_command(command: &str) -> (r: PlannerDiagnostic)
        ensures
            r@ == unsupported_state_command_of(command@),
    {
        Self::with(
            PlannerDiagnosticCode::UnsupportedStateCommand,
            to_upper(command).as_str(),
            "parsed state-changing command is not modeled; estimate is a lower bound".to_owned(),
        )
    }

    pub fn unknown_extruder(name: &str) -> (r: PlannerDiagnostic)
        ensures
            r@ == unknown_extruder_of(name@),
    {
        let mut message: String = "Klipper has no configured extruder named '".to_owned();
        message.append(name);
        message.append("'");
        Self::with(PlannerDiagnosticCode::UnknownExtruder, "ACTIVATE_EXTRUDER", message)
    }

    pub fn unsupported_kinematics(backend: &str, reason: &str) -> (r: PlannerDiagnostic)
        ensures
            r@ == unsupported_kinematics_of(backend@, reason@),
    {
        let mut message: String = "configured Klipper kinematics '".to_owned();
        message.append(backend);
        message.append("' is unsupported (");
        message.append(reason);
        message.append("); estimate is a lower bound");
        Self::with(PlannerDiagnosticCode::UnsupportedKinematics, "KINEMATICS", message)
    }

    pub fn unsupported_motion_transform(name: &str) -> (r: PlannerDiagnostic)
        ensures
            r@ == unsupported_motion_transform_of(name@),
    {
        Self::with(
            PlannerDiagnosticCode::UnsupportedMotionTransform,
            to_upper(name).as_str(),
            "active motion transform is not modeled; estimate is a lower bound".to_owned(),
        )
    }

    pub fn unknown_motion_transform_profile(command: &str, name: &str) -> (r: PlannerDiagnostic)
        ensures
            r@ == unknown_profile_of(command@, name@),
    {
        let mut message: String = "unknown motion-transform profile: ".to_owned();
        message.append(name);
        Self::with(PlannerDiagnosticCode::UnknownMotionTransformProfile, command, message)
    }

    pub fn unknown_duration(command: &str) -> (r: PlannerDiagnostic)
        ensures
            r@ == unknown_duration_of(command@),
    {
        Self::with(
            PlannerDiagnosticCode::UnknownDuration,
            command,
            "duration is unknown and was not included; estimate is a lower bound".to_owned(),
        )
    }

    pub fn invalid_move_speed(command: &str) -> (r: PlannerDiagnostic)
        ensures
            r@ == invalid_move_speed_of(command@),
    {
        Self::with(
            PlannerDiagnosticCode::InvalidMoveSpeed,
            command,
            "Klipper would reject a move speed that is not positive".to_owned(),
        )
    }

    pub fn invalid_extrusion(
        violation: ExtruderViolation,
        m: &PlanningMove,
        extruder: Option<(&str, ExtruderLimits)>,
    ) -> (r: PlannerDiagnostic)
        ensures
            r@ == invalid_extrusion_of(
                violation,
                *m,
                match extruder {
                    Some((tool, limits)) => Some((tool@, limits)),
                    None => None,
                },
            ),
    {
        match (violation, extruder) {
            (ExtruderViolation::ExtrudeOnlyMoveTooLong, Some((tool, limits))) => {
                let mut message: String = "Klipper would reject extrude-only move on ".to_owned();
                message.append(tool);
                message.append(": ");
                message.append(format_fixed(m.delta().w.abs(), 6).as_str());
                message.append("mm exceeds configured ");
                message.append(format_fixed(limits.max_extrude_only_distance, 6).as_str());
                message.append("mm");
                Self::with(PlannerDiagnosticCode::ExtrudeOnlyMoveTooLong, "MOVE", message)
            },
            (ExtruderViolation::MaximumCrossSection, Some((tool, limits))) => {
                let mut message: String = "Klipper would reject extrusion on ".to_owned();
                message.append(tool);
                message.append(": ");
                message.append(format_fixed(m.rate.w * limits.filament_area(), 6).as_str());
                message.append("mm^2 exceeds configured ");
                message.append(format_fixed(limits.max_extrude_cross_section, 6).as_str());
                message.append("mm^2");
                Self::with(PlannerDiagnosticCode::MoveExceedsMaximumExtrusion, "MOVE", message)
            },
            _ => Self::with(
                PlannerDiagnosticCode::ExtrudeWithoutExtruder,
                "MOVE",
                "Klipper would reject extrusion because no extruder is configured".to_owned(),
            ),
        }
    }

    pub fn move_out_of_range(violation: MoveOutOfRange) -> (r: PlannerDiagnostic)
        ensures
            r@ == move_out_of_range_of(violation),
    {
        let message: String = match violation {
            MoveOutOfRange::Axis { axis, position, minimum, maximum } => {
                let mut text: String = "Klipper would reject ".to_owned();
                text.append(
                    if axis == 0 {
                        "X"
                    } else if axis == 1 {
                        "Y"
                    } else {
                        "Z"
                    },
                );
                text.append("=");
                text.append(format_fixed(position, 6).as_str());
                text.append(" outside configured range ");
                text.append(format_fixed(minimum, 6).as_str());
                text.append("..");
                text.append(format_fixed(maximum, 6).as_str());
                text
            },
            MoveOutOfRange::Reachability { backend, position } => {
                let mut text: String = "Klipper ".to_owned();
                text.append(backend);
                text.append(" reachability rejects X=");
                text.append(format_fixed(position.x, 6).as_str());
                text.append(" Y=");
                text.append(format_fixed(position.y, 6).as_str());
                text.append(" Z=");
                text.append(format_fixed(position.z, 6).as_str());
                text
            },
        };
        Self::with(PlannerDiagnosticCode::MoveOutsideKinematicBounds, "MOVE", message)
    }

    pub fn matches(&self, other: &PlannerDiagnostic) -> (r: bool)
        ensures
            r == (self@ == other@),
    {
        self.code == other.code && same(self.command.as_str(), other.command.as_str()) && same(
            self.message.as_str(),
            other.message.as_str(),
        )
    }
}

} // verus!
