use klipper_estimator::diagnostics::PlannerDiagnosticCode;
use klipper_estimator::double::Double;
use klipper_estimator::duration::{DurationEstimate, OmittedDurationComponent};
use klipper_estimator::estimate::{
    format_time, EstimateAccuracyClass, EstimationMetadata, EstimationState,
};
use klipper_estimator::gcode::parse_gcode;
use klipper_estimator::limits::{
    CommandContract, ContractState, DurationContractCategory, ExtruderLimits, PrinterLimits,
    UnknownDurationCategory,
};
use klipper_estimator::planner::Planner;
use klipper_estimator::calibration::CalibrationReport;
use klipper_estimator::presentation::estimate_lines;
use klipper_estimator::report::{kind_lines, layer_lines, run_lines};
use klipper_estimator::snapshot::ConfigSnapshot;
use klipper_estimator::table::Table;

fn d(x: f64) -> Double {
    Double { bits: x.to_bits() }
}

fn f(x: Double) -> f64 {
    f64::from_bits(x.bits)
}

fn empty_state() -> EstimationState {
    let snapshot = ConfigSnapshot::built_in_defaults(0);
    EstimationState::new(EstimationMetadata::from_snapshot(&snapshot, "v3"))
}

fn estimated(limits: PrinterLimits, lines: &[&str]) -> EstimationState {
    let mut planner = Planner::from_limits(limits);
    for line in lines {
        planner.process_cmd(&parse_gcode(line).unwrap());
    }
    planner.finalize();
    let mut state = empty_state();
    for operation in planner.drain() {
        state.add_operation(&planner, &operation);
    }
    state.diagnostics = planner.diagnostics().clone();
    state
}

fn no_state() -> ContractState {
    ContractState {
        coordinate_mode: None,
        extrusion_mode: None,
        gcode_position: None,
        physical_position: None,
        speed_factor_percent: None,
        extrusion_factor_percent: None,
        active_extruder: None,
    }
}

#[test]
fn filament_statistics_keep_sign_and_tool_identity() {
    let extruder = ExtruderLimits {
        max_extrude_only_velocity: d(100.0),
        max_extrude_only_accel: d(1000.0),
        ..ExtruderLimits::default()
    };
    let mut extruders = Table::new();
    extruders.insert("extruder", extruder);
    extruders.insert("extruder1", extruder);
    let limits = PrinterLimits {
        extruders,
        ..PrinterLimits::default()
    };
    let state = estimated(
        limits,
        &[
            "M83",
            "G1 E5 F600",
            "G1 E-2 F600",
            "ACTIVATE_EXTRUDER EXTRUDER=extruder1",
            "G1 E3 F600",
        ],
    );

    let stats = &state.sequences[0].extruders;
    let first = stats.get("extruder").unwrap();
    let second = stats.get("extruder1").unwrap();
    assert_eq!(f(first.net_distance), 3.0);
    assert_eq!(f(first.extruded_distance), 5.0);
    assert_eq!(f(first.retracted_distance), -2.0);
    assert_eq!(f(second.net_distance), 3.0);
    assert_eq!(f(second.extruded_distance), 3.0);
    assert_eq!(f(second.retracted_distance), 0.0);
}

#[test]
fn estimate_metadata_exposes_reproducibility_context() {
    let mut snapshot = ConfigSnapshot::built_in_defaults(0);
    snapshot.klipper_version = Some("v0.13.0-745-gf0892d82b".into());
    snapshot.refresh_fingerprint(&b"settings".to_vec());

    let metadata = EstimationMetadata::from_snapshot(&snapshot, "v3.7.3-ste94pz");
    assert_eq!(metadata.estimator_version, "v3.7.3-ste94pz");
    assert_eq!(
        metadata.klipper_version.as_deref(),
        Some("v0.13.0-745-gf0892d82b")
    );
    assert_eq!(metadata.configuration_fingerprint, snapshot.fingerprint);
    assert_eq!(metadata.backend, "unconfigured");
    assert_eq!(metadata.accuracy_class, EstimateAccuracyClass::Degraded);
}

#[test]
fn omitted_duration_makes_the_accuracy_class_a_lower_bound() {
    let mut state = empty_state();
    state
        .duration
        .omitted_duration_components
        .push(OmittedDurationComponent {
            command: "PRINT_START".into(),
            category: UnknownDurationCategory::CommandOrMacro,
            reason: "duration is unknown and was not included".into(),
        });
    state.finalize_accuracy_class();

    assert_eq!(
        state.metadata.accuracy_class,
        EstimateAccuracyClass::LowerBound
    );
}

#[test]
fn non_positive_feedrate_is_a_diagnostic_instead_of_a_panic() {
    let mut state = estimated(PrinterLimits::default(), &["G1 X1 F0"]);
    state.finalize_accuracy_class();
    assert_eq!(
        state.metadata.accuracy_class,
        EstimateAccuracyClass::LowerBound
    );
    assert_eq!(
        state.diagnostics[0].code,
        PlannerDiagnosticCode::InvalidMoveSpeed
    );
}

#[test]
fn separates_motion_dwell_expected_additions_and_omissions() {
    let mut limits = PrinterLimits::default();
    limits.command_contracts.insert(
        "PRINT_START",
        CommandContract {
            duration: d(4.0),
            category: DurationContractCategory::Macro,
            state: no_state(),
        },
    );
    let mut planner = Planner::from_limits(limits);
    for line in [
        "PRINT_START",
        "G1 X10 F600",
        "G4 P2000",
        "; ESTIMATOR_ADD_TIME 3 measured",
        "M109 S200",
    ] {
        planner.process_cmd(&parse_gcode(line).unwrap());
    }
    planner.finalize();

    let mut estimate = DurationEstimate::default();
    for operation in planner.drain() {
        estimate.add_operation(&planner, &operation);
    }

    assert!(f(estimate.motion_time) > 0.0);
    assert_eq!(
        f(estimate.deterministic_time),
        f(estimate.motion_time) + 4.0 + 2.0 + 0.25
    );
    assert_eq!(
        f(estimate.expected_total_time),
        f(estimate.deterministic_time) + 3.0
    );
    assert_eq!(f(estimate.total_time), f(estimate.expected_total_time));
    assert_eq!(estimate.omitted_duration_components.len(), 1);
    assert_eq!(estimate.omitted_duration_components[0].command, "M109");
    assert_eq!(
        estimate.duration_components.get("macro_contract").map(|x| f(*x)),
        Some(4.0)
    );
}

#[test]
fn times_are_written_with_the_largest_units_first() {
    assert_eq!(format_time(d(0.0)), "0s");
    assert_eq!(format_time(d(59.5)), "59.500s");
    assert_eq!(format_time(d(60.0)), "60.000s");
    assert_eq!(format_time(d(3661.25)), "1h1m1.250s");
    assert_eq!(format_time(d(90061.0)), "1d1h1m1.000s");
}

#[test]
fn layers_and_kinds_add_up_to_the_motion() {
    let state = estimated(
        PrinterLimits::default(),
        &[
            "M83",
            ";TYPE:Perimeter",
            "G1 X10 E1 F600",
            "G1 Z0.2 F600",
            ";TYPE:Infill",
            "G1 X20 E1 F600",
        ],
    );
    let run = &state.sequences[0];
    assert_eq!(run.num_moves, 3);
    let layers: f64 = run.layer_times.iter().map(|(_, t)| f(*t)).sum();
    assert!(layers > 0.0);
    let phases =
        f(run.phase_times.acceleration) + f(run.phase_times.cruise) + f(run.phase_times.deceleration);
    assert!((phases - f(run.duration.motion_time)).abs() < 1e-9);
    assert!(!run_lines(0, run).is_empty());
    assert_eq!(layer_lines(&run.layer_times, 80).is_empty(), false);
    assert_eq!(kind_lines(&run.kind_times).len(), run.kind_times.len() + 1);
}

#[test]
fn an_estimate_is_told_in_full() {
    let mut state = estimated(PrinterLimits::default(), &["G1 X10 F600", "M109 S200"]);
    state.finalize_accuracy_class();
    let summary = ConfigSnapshot::built_in_defaults(0).summary();
    let lines = estimate_lines(&state, &summary, None, true, true, 80);
    assert_eq!(
        lines[0],
        "Estimator: v3 | Klipper: unknown | Backend: unconfigured | Accuracy: LowerBound"
    );
    assert_eq!(lines[1], "");
    assert!(lines[2].starts_with("Configuration: "));
    assert_eq!(
        lines[3],
        "  Warning: using built-in generic printer limits; estimate is not machine-specific"
    );
    assert!(lines.iter().any(|line| line == "Diagnostics:"));
    assert!(lines
        .iter()
        .any(|line| line == "  M109 (TemperatureWait): duration is unknown and was not included"));
    assert!(lines.iter().any(|line| line == "Sequences:"));
    assert!(lines.iter().any(|line| line == " Run 0:"));
    assert!(lines.iter().any(|line| line == "  Total moves:                 1"));
    assert!(lines
        .iter()
        .any(|line| line == "  Total distance:              10.000mm"));
    assert!(lines.iter().any(|line| line == "  Layer time distribution:"));

    let report = CalibrationReport::unavailable("no connection");
    let lines = estimate_lines(&state, &summary, Some(&report), false, false, 80);
    assert!(lines
        .iter()
        .any(|line| line == "History calibration: Unavailable"));
    assert!(lines.iter().any(|line| line == "  Reason: no connection"));
    assert!(!lines.iter().any(|line| line == "  Layer time distribution:"));
    assert!(!lines.iter().any(|line| line == "  Move kind distribution:"));
}
