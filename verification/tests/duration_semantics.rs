use klipper_estimator::delay::Delay;
use klipper_estimator::diagnostics::PlannerDiagnosticCode;
use klipper_estimator::double::Double;
use klipper_estimator::gcode::parse_gcode;
use klipper_estimator::geometry::Vec4;
use klipper_estimator::limits::{
    CommandContract, ContractState, DurationContractCategory, PositionMode, PrinterLimits,
    UnknownDurationCategory,
};
use klipper_estimator::operations::PlanningOperation;
use klipper_estimator::planner::Planner;

fn d(x: f64) -> Double {
    Double { bits: x.to_bits() }
}

fn f(x: Double) -> f64 {
    f64::from_bits(x.bits)
}

fn vector(v: [f64; 4]) -> Vec4 {
    Vec4::new(d(v[0]), d(v[1]), d(v[2]), d(v[3]))
}

fn array(v: Vec4) -> [f64; 4] {
    [f(v.x), f(v.y), f(v.z), f(v.w)]
}

#[test]
fn command_contract_applies_declared_duration_and_resulting_state() {
    let mut limits = PrinterLimits::default();
    limits.command_contracts.insert(
        "PRINT_START",
        CommandContract {
            duration: d(12.5),
            category: DurationContractCategory::Macro,
            state: ContractState {
                coordinate_mode: Some(PositionMode::Absolute),
                extrusion_mode: Some(PositionMode::Relative),
                gcode_position: Some(vector([10.0, 20.0, 30.0, 0.0])),
                physical_position: Some(vector([110.0, 120.0, 130.0, 0.0])),
                speed_factor_percent: Some(d(80.0)),
                extrusion_factor_percent: Some(d(95.0)),
                active_extruder: None,
            },
        },
    );
    let mut planner = Planner::from_limits(limits);

    planner.process_cmd(&parse_gcode("PRINT_START BED=60 EXTRUDER=200").unwrap());
    planner.finalize();

    assert_eq!(
        array(planner.toolhead_state.position),
        [110.0, 120.0, 130.0, 0.0]
    );
    assert_eq!(
        array(planner.toolhead_state.gcode_position()),
        [10.0, 20.0, 30.0, 0.0]
    );
    assert_eq!(
        planner.toolhead_state.position_modes[3],
        PositionMode::Relative
    );
    assert_eq!(f(planner.toolhead_state.speed_factor), 0.8 / 60.0);
    assert_eq!(f(planner.toolhead_state.extrude_factor), 0.95);

    let operations = planner.drain();
    assert!(matches!(
        operations.as_slice(),
        [PlanningOperation::Delay(Delay::Contract {
            duration,
            category: DurationContractCategory::Macro,
            ..
        })] if f(duration.as_secs()) == 12.5
    ));
}

#[test]
fn unknown_waits_and_macros_are_omitted_instead_of_receiving_fake_time() {
    let mut planner = Planner::from_limits(PrinterLimits::default());
    planner.process_cmd(&parse_gcode("M109 S200").unwrap());
    planner.process_cmd(&parse_gcode("PRINT_START").unwrap());
    planner.finalize();

    let operations = planner.drain();
    assert!(operations.iter().any(|operation| matches!(
        operation,
        PlanningOperation::Delay(Delay::Unknown {
            command,
            category: UnknownDurationCategory::TemperatureWait,
        }) if command == "M109"
    )));
    assert!(operations.iter().any(|operation| matches!(
        operation,
        PlanningOperation::Delay(Delay::Unknown {
            command,
            category: UnknownDurationCategory::CommandOrMacro,
        }) if command == "PRINT_START"
    )));
    assert!(planner
        .diagnostics()
        .iter()
        .any(|diagnostic| diagnostic.code == PlannerDiagnosticCode::UnknownDuration));
}

#[test]
fn each_kind_of_wait_has_its_category() {
    let mut planner = Planner::from_limits(PrinterLimits::default());
    for line in ["G28", "M600", "TEMPERATURE_WAIT SENSOR=extruder", "G4 P1500"] {
        planner.process_cmd(&parse_gcode(line).unwrap());
    }
    planner.finalize();
    let delays: Vec<Delay> = planner
        .drain()
        .into_iter()
        .filter_map(|operation| match operation {
            PlanningOperation::Delay(delay) => Some(delay),
            _ => None,
        })
        .collect();
    assert!(matches!(
        delays[0],
        Delay::Unknown { category: UnknownDurationCategory::Homing, .. }
    ));
    assert!(matches!(
        delays[1],
        Delay::Unknown { category: UnknownDurationCategory::FilamentChange, .. }
    ));
    assert!(matches!(
        delays[2],
        Delay::Unknown { category: UnknownDurationCategory::TemperatureWait, .. }
    ));
    assert_eq!(f(delays[3].duration().as_secs()), 1.5);
    assert_eq!(f(delays[0].duration().as_secs()), 0.0);
}
