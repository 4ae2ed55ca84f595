use klipper_estimator::diagnostics::PlannerDiagnosticCode;
use klipper_estimator::double::Double;
use klipper_estimator::gcode::parse_gcode;
use klipper_estimator::limits::{ExtruderLimits, FirmwareRetractionOptions, PrinterLimits};
use klipper_estimator::operations::PlanningOperation;
use klipper_estimator::planner::Planner;
use klipper_estimator::planning_move::PlanningMove;
use klipper_estimator::table::Table;

fn d(x: f64) -> Double {
    Double { bits: x.to_bits() }
}

fn f(x: Double) -> f64 {
    f64::from_bits(x.bits)
}

fn extruder(
    nozzle: f64,
    max_velocity: f64,
    max_accel: f64,
    max_distance: f64,
    corner_velocity: f64,
) -> ExtruderLimits {
    ExtruderLimits {
        nozzle_diameter: d(nozzle),
        filament_diameter: d(1.75),
        max_extrude_only_velocity: d(max_velocity),
        max_extrude_only_accel: d(max_accel),
        max_extrude_only_distance: d(max_distance),
        instantaneous_corner_velocity: d(corner_velocity),
        max_extrude_cross_section: d(4.0 * nozzle * nozzle),
    }
}

fn limits_with_extruders() -> PrinterLimits {
    let mut extruders = Table::new();
    extruders.insert("extruder", extruder(0.4, 5.0, 20.0, 10.0, 1.0));
    extruders.insert("extruder1", extruder(0.6, 12.0, 60.0, 20.0, 2.0));
    PrinterLimits {
        extruders,
        ..PrinterLimits::default()
    }
}

fn planner_with_extruders() -> Planner {
    Planner::from_limits(limits_with_extruders())
}

fn process(planner: &mut Planner, lines: &[&str]) {
    for line in lines {
        planner.process_cmd(&parse_gcode(line).unwrap());
    }
}

fn moves(planner: &mut Planner) -> Vec<PlanningMove> {
    planner.finalize();
    planner
        .drain()
        .into_iter()
        .filter_map(|operation| match operation {
            PlanningOperation::Move(m) => Some(m),
            _ => None,
        })
        .collect()
}

#[test]
fn tool_changes_preserve_independent_e_positions_and_move_identity() {
    let mut planner = planner_with_extruders();
    process(
        &mut planner,
        &[
            "M83",
            "G1 E5 F600",
            "ACTIVATE_EXTRUDER EXTRUDER=extruder1",
            "G1 E2 F600",
            "ACTIVATE_EXTRUDER EXTRUDER=extruder",
            "G1 E1 F600",
        ],
    );

    assert_eq!(planner.toolhead_state.active_extruder(), Some("extruder"));
    assert_eq!(f(planner.toolhead_state.position.w), 6.0);
    let moves = moves(&mut planner);
    let names: Vec<_> = moves
        .iter()
        .map(|m| planner.move_extruder_name(m).unwrap())
        .collect();
    assert_eq!(names, ["extruder", "extruder1", "extruder"]);
    assert_eq!(f(moves[0].end.w), 5.0);
    assert_eq!(f(moves[1].start.w), 0.0);
    assert_eq!(f(moves[1].end.w), 2.0);
    assert_eq!(f(moves[2].start.w), 5.0);
    assert_eq!(f(moves[2].end.w), 6.0);
}

#[test]
fn active_tool_limits_apply_to_extrude_only_and_combined_z_e_moves() {
    let mut planner = planner_with_extruders();
    process(&mut planner, &["M83", "G1 Z10 E20 F6000"]);
    let primary = moves(&mut planner).remove(0);
    assert_eq!(f(primary.max_cruise_v2), 6.25); // 5mm/s E divided by E/Z ratio 2.
    assert_eq!(f(primary.acceleration), 10.0);

    let mut planner = planner_with_extruders();
    process(
        &mut planner,
        &[
            "M83",
            "ACTIVATE_EXTRUDER EXTRUDER=extruder1",
            "G1 Z10 E20 F6000",
        ],
    );
    let secondary = moves(&mut planner).remove(0);
    assert_eq!(f(secondary.max_cruise_v2), 36.0);
    assert_eq!(f(secondary.acceleration), 30.0);
}

#[test]
fn each_tool_uses_its_own_instantaneous_corner_velocity() {
    fn junction_for(name: &str) -> f64 {
        let mut limits = limits_with_extruders();
        limits.initial_extruder = Some(name.into());
        let mut planner = Planner::from_limits(limits);
        process(&mut planner, &["M83", "G1 X10 E1 F6000", "G1 X20 E2 F6000"]);
        f(moves(&mut planner)[1].max_start_v2)
    }

    assert_eq!(junction_for("extruder"), 100.0);
    assert_eq!(junction_for("extruder1"), 400.0);
}

#[test]
fn invalid_extrusion_reports_the_same_classes_klipper_rejects() {
    let mut planner = planner_with_extruders();
    process(
        &mut planner,
        &[
            "M83",
            "G1 E11 F600",
            "G1 X10 E10 F600",
            "ACTIVATE_EXTRUDER EXTRUDER=missing",
        ],
    );
    let codes: Vec<_> = planner
        .diagnostics()
        .iter()
        .map(|diagnostic| diagnostic.code.clone())
        .collect();
    assert_eq!(
        codes,
        [
            PlannerDiagnosticCode::ExtrudeOnlyMoveTooLong,
            PlannerDiagnosticCode::MoveExceedsMaximumExtrusion,
            PlannerDiagnosticCode::UnknownExtruder,
        ]
    );
}

#[test]
fn firmware_retraction_has_signed_moves_and_resets_its_latch() {
    let mut limits = limits_with_extruders();
    limits.firmware_retraction = Some(FirmwareRetractionOptions {
        retract_length: d(2.0),
        unretract_extra_length: d(0.5),
        retract_speed: d(20.0),
        unretract_speed: d(10.0),
        lift_z: d(0.0),
    });
    let mut planner = Planner::from_limits(limits);
    process(
        &mut planner,
        &[
            "G10",
            "G11",
            "G10",
            "SET_RETRACTION RETRACT_LENGTH=1",
            "G10",
        ],
    );
    let deltas: Vec<_> = moves(&mut planner)
        .iter()
        .map(|m| f(m.end.w) - f(m.start.w))
        .collect();
    assert_eq!(deltas, [-2.0, 2.5, -2.0, -1.0]);
}

#[test]
fn a_lift_is_taken_back_when_filament_returns() {
    let mut limits = limits_with_extruders();
    limits.firmware_retraction = Some(FirmwareRetractionOptions {
        retract_length: d(1.0),
        unretract_extra_length: d(0.0),
        retract_speed: d(20.0),
        unretract_speed: d(10.0),
        lift_z: d(0.25),
    });
    let mut planner = Planner::from_limits(limits);
    process(&mut planner, &["G10", "G10", "G11", "G11"]);
    let heights: Vec<_> = moves(&mut planner)
        .iter()
        .map(|m| (f(m.end.z), f(m.end.w)))
        .collect();
    assert_eq!(heights[0], (0.0, -1.0));
    assert_eq!(heights[1], (0.25, -1.0));
    assert_eq!(*heights.last().unwrap(), (0.0, 0.0));
}

#[test]
fn an_unknown_initial_extruder_gives_way_to_the_first() {
    let mut limits = limits_with_extruders();
    limits.initial_extruder = Some("nothing".into());
    let planner = Planner::from_limits(limits);
    assert_eq!(planner.toolhead_state.active_extruder(), Some("extruder"));
}

#[test]
fn filament_without_an_extruder_is_reported() {
    let mut planner = planner_with_extruders();
    planner.toolhead_state.active_extruder = None;
    process(&mut planner, &["M83", "G1 X10 E1 F600"]);
    planner.finalize();
    assert_eq!(
        planner.diagnostics()[0].code,
        PlannerDiagnosticCode::ExtrudeWithoutExtruder
    );
}
