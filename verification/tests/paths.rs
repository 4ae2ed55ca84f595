use klipper_estimator::arcs::Direction;
use klipper_estimator::diagnostics::PlannerDiagnosticCode;
use klipper_estimator::double::Double;
use klipper_estimator::gcode::parse_gcode;
use klipper_estimator::geometry::{Vec3, Vec4};
use klipper_estimator::kinematics::{
    CartesianKinematics, CartesianKinematicsKind, DeltaKinematics, Kinematics, PolarKinematics,
};
use klipper_estimator::limits::PrinterLimits;
use klipper_estimator::motion_transform::{
    apply_skew, unapply_skew, BedMeshConfig, BedMeshProfile, MotionTransformConfig,
    MotionTransformState, SkewCorrectionConfig, SkewFactors,
};
use klipper_estimator::operations::PlanningOperation;
use klipper_estimator::planner::Planner;
use klipper_estimator::planning_move::PlanningMove;
use klipper_estimator::post_process::EstimateRunner;
use klipper_estimator::table::Table;

fn d(x: f64) -> Double {
    Double { bits: x.to_bits() }
}

fn f(x: Double) -> f64 {
    f64::from_bits(x.bits)
}

fn v3(x: f64, y: f64, z: f64) -> Vec3 {
    Vec3::new(d(x), d(y), d(z))
}

fn assert_close(context: &str, actual: Double, expected: f64) {
    assert!(
        (f(actual) - expected).abs() <= 1.0e-8,
        "{}: expected {:.12}, got {:.12}",
        context,
        expected,
        f(actual)
    );
}

fn planned(planner: &mut Planner) -> Vec<PlanningMove> {
    planner.finalize();
    planner
        .drain()
        .into_iter()
        .filter_map(|operation| match operation {
            PlanningOperation::Move(m) => Some(m),
            _ => None,
        })
        .collect()
}

fn run(limits: PrinterLimits, lines: &[&str]) -> (Planner, Vec<PlanningMove>) {
    let mut planner = Planner::from_limits(limits);
    for line in lines {
        planner.process_cmd(&parse_gcode(line).unwrap());
    }
    let moves = planned(&mut planner);
    (planner, moves)
}

fn mesh() -> BedMeshProfile {
    let points = vec![
        vec![d(0.0), d(0.1), d(0.3)],
        vec![d(0.05), d(0.2), d(0.25)],
        vec![d(0.0), d(0.1), d(0.4)],
    ];
    BedMeshProfile::from_probed(
        [d(0.0), d(0.0)],
        [d(100.0), d(100.0)],
        points,
        [2, 2],
        "lagrange",
        d(0.2),
    )
    .unwrap()
}

fn configured_limits(active: bool) -> PrinterLimits {
    let profile = || if active { Some("test".to_string()) } else { None };
    let mut meshes = Table::new();
    meshes.insert("test", mesh());
    let mut skews = Table::new();
    skews.insert(
        "test",
        SkewFactors {
            xy: d(0.01),
            xz: d(0.0),
            yz: d(0.0),
        },
    );
    PrinterLimits {
        motion_transforms: MotionTransformConfig {
            bed_mesh: Some(BedMeshConfig {
                profiles: meshes,
                initial_profile: profile(),
                split_delta_z: d(0.02),
                move_check_distance: d(5.0),
                ..BedMeshConfig::defaults()
            }),
            skew_correction: Some(SkewCorrectionConfig {
                profiles: skews,
                initial_profile: profile(),
            }),
            unsupported_active: vec![],
        },
        ..PrinterLimits::default()
    }
}

#[test]
fn inactive_profiles_leave_path_unchanged_and_commands_change_state() {
    let ends = [(40.0, 30.0, 0.2), (80.0, 60.0, 0.2), (10.0, 90.0, 0.4)];
    let lines: Vec<String> = ends
        .iter()
        .map(|(x, y, z)| format!("G1 X{x} Y{y} Z{z} F3600"))
        .collect();
    let borrowed: Vec<&str> = lines.iter().map(|line| line.as_str()).collect();
    let (_, inactive) = run(configured_limits(false), &borrowed);
    assert_eq!(inactive.len(), ends.len());
    for (m, expected) in inactive.iter().zip(&ends) {
        assert_close("inactive x", m.end.x, expected.0);
        assert_close("inactive y", m.end.y, expected.1);
        assert_close("inactive z", m.end.z, expected.2);
    }

    let (planner, moves) = run(
        configured_limits(false),
        &[
            "BED_MESH_PROFILE LOAD=test",
            "SKEW_PROFILE LOAD=test",
            "G1 X40 Y30 Z0.2 F3600",
            "BED_MESH_CLEAR",
            "SET_SKEW CLEAR=1",
            "G1 X50 Y40 Z0.2 F3600",
            "BED_MESH_PROFILE LOAD=missing",
        ],
    );
    assert!(planner.diagnostics().iter().any(|diagnostic| {
        diagnostic.code == PlannerDiagnosticCode::UnknownMotionTransformProfile
    }));
    assert!(
        moves.len() > 2,
        "active mesh should split the first logical move"
    );
    let last = moves.last().unwrap();
    assert_close("cleared x", last.end.x, 50.0);
    assert_close("cleared y", last.end.y, 40.0);
    assert_close("cleared z", last.end.z, 0.2);

    let planner = Planner::from_limits(PrinterLimits {
        motion_transforms: MotionTransformConfig {
            unsupported_active: vec!["z_thermal_adjust".into()],
            ..MotionTransformConfig::none()
        },
        ..PrinterLimits::default()
    });
    assert_eq!(
        planner.diagnostics()[0].code,
        PlannerDiagnosticCode::UnsupportedMotionTransform
    );
}

#[test]
fn an_active_mesh_follows_the_surface() {
    let limits = configured_limits(true);
    let state = MotionTransformState::new(&limits.motion_transforms);
    let start = Vec4::new(d(0.0), d(0.0), d(0.2), d(0.0));
    let end = Vec4::new(d(100.0), d(0.0), d(0.2), d(3.0));
    let path = state.transform_move(&limits.motion_transforms, start, end);
    assert!(path.len() > 2);
    let last = path.last().unwrap();
    assert_close("filament", last.w, 3.0);
    let there = state.transform_position(&limits.motion_transforms, end);
    assert_close("surface", last.z, f(there.z));
    let back = state.untransform_position(&limits.motion_transforms, there);
    assert_close("back x", back.x, 100.0);
    assert_close("back z", back.z, 0.2);
}

#[test]
fn meshes_are_checked_when_they_are_made() {
    let flat = |algorithm: &str, rows: usize, columns: usize| {
        BedMeshProfile::from_probed(
            [d(0.0), d(0.0)],
            [d(10.0), d(10.0)],
            vec![vec![d(0.5); columns]; rows],
            [1, 1],
            algorithm,
            d(0.2),
        )
    };
    let profile = flat("lagrange", 3, 3).unwrap();
    assert!(profile.is_valid());
    assert_eq!(profile.matrix.len(), 5);
    assert!(profile.matrix.iter().all(|row| row.iter().all(|z| (f(*z) - 0.5).abs() < 1e-12)));
    assert!(flat("direct", 3, 3).is_none());
    let direct = BedMeshProfile::from_probed(
        [d(0.0), d(0.0)],
        [d(10.0), d(10.0)],
        vec![vec![d(0.1), d(0.2)], vec![d(0.3), d(0.4)]],
        [0, 0],
        "direct",
        d(0.2),
    )
    .unwrap();
    assert_eq!(f(direct.matrix[1][0]), 0.3);
    let profile = flat("bicubic", 4, 4).unwrap();
    assert_eq!(profile.matrix.len(), 7);
    assert!(profile.matrix.iter().all(|row| row.iter().all(|z| (f(*z) - 0.5).abs() < 1e-12)));
    assert!(flat("unknown", 3, 3).is_none());
    assert!(flat("lagrange", 0, 0).is_none());
}

#[test]
fn skew_is_undone() {
    let factors = SkewFactors {
        xy: d(0.02),
        xz: d(-0.01),
        yz: d(0.005),
    };
    let p = Vec4::new(d(30.0), d(40.0), d(5.0), d(1.0));
    let q = apply_skew(p, factors);
    assert_close("x", q.x, 30.0 - 40.0 * 0.02 - 5.0 * (-0.01 - 0.02 * 0.005));
    let back = unapply_skew(q, factors);
    assert_close("x", back.x, 30.0);
    assert_close("y", back.y, 40.0);
    assert_close("z", back.z, 5.0);
    assert_close("e", back.w, 1.0);
}

fn cartesian(kind: CartesianKinematicsKind) -> Kinematics {
    Kinematics::CartesianFamily {
        config: CartesianKinematics {
            kind,
            axis_minimum: v3(0.0, 0.0, 0.0),
            axis_maximum: v3(250.0, 210.0, 200.0),
            max_z_velocity: d(12.0),
            max_z_accel: d(100.0),
        },
    }
}

#[test]
fn unsupported_backend_is_a_structured_diagnostic() {
    let planner = Planner::from_limits(PrinterLimits {
        kinematics: Kinematics::unsupported("delta", "backend is not modeled"),
        ..PrinterLimits::default()
    });
    assert_eq!(planner.diagnostics().len(), 1);
    assert_eq!(
        planner.diagnostics()[0].code,
        PlannerDiagnosticCode::UnsupportedKinematics
    );
    assert!(planner.diagnostics()[0].message.contains("delta"));
}

#[test]
fn vertical_moves_are_slowed_and_bounds_are_watched() {
    for kind in [
        CartesianKinematicsKind::Cartesian,
        CartesianKinematicsKind::Corexy,
        CartesianKinematicsKind::Corexz,
        CartesianKinematicsKind::HybridCorexy,
        CartesianKinematicsKind::HybridCorexz,
    ] {
        let limits = PrinterLimits {
            kinematics: cartesian(kind),
            ..PrinterLimits::default()
        };
        let (planner, moves) = run(limits, &["G1 Z10 F6000", "G1 X300 F6000"]);
        assert_close("z velocity", moves[0].max_cruise_v2, 144.0);
        assert_close("z acceleration", moves[0].acceleration, 100.0);
        let codes: Vec<_> = planner.diagnostics().iter().map(|x| x.code.clone()).collect();
        assert_eq!(codes, [PlannerDiagnosticCode::MoveOutsideKinematicBounds]);
    }
}

#[test]
fn round_machines_watch_their_reach() {
    let polar = Kinematics::Polar {
        config: PolarKinematics {
            max_velocity: d(300.0),
            max_accel: d(3000.0),
            max_z_velocity: d(25.0),
            max_z_accel: d(30.0),
            max_angular_velocity: d(5.0),
            maximum_radius: d(100.0),
            minimum_z: d(0.0),
            maximum_z: d(200.0),
        },
    };
    let delta = Kinematics::Delta {
        config: DeltaKinematics {
            max_velocity: d(300.0),
            max_accel: d(3000.0),
            max_z_velocity: d(150.0),
            max_z_accel: d(1000.0),
            minimum_z: d(0.0),
            radius: d(174.75),
            print_radius: d(100.0),
            arm_lengths: [d(333.0); 3],
            tower_angles: [d(210.0), d(330.0), d(90.0)],
            position_endstops: [d(297.05); 3],
            step_distances: [d(0.0125); 3],
        },
    };
    for kinematics in [polar, delta] {
        let limits = PrinterLimits {
            kinematics: kinematics.clone(),
            ..PrinterLimits::default()
        };
        let (planner, _) = run(limits, &["G1 X50 Z10 F6000"]);
        assert!(planner.diagnostics().is_empty());
        let limits = PrinterLimits {
            kinematics,
            ..PrinterLimits::default()
        };
        let (planner, _) = run(limits, &["G1 X150 Z10 F6000"]);
        assert_eq!(
            planner.diagnostics()[0].code,
            PlannerDiagnosticCode::MoveOutsideKinematicBounds
        );
    }
}

fn fast() -> PrinterLimits {
    let mut limits = PrinterLimits {
        max_velocity: d(200.0),
        max_acceleration: d(1000.0),
        ..PrinterLimits::default()
    };
    limits.set_minimum_cruise_ratio(d(0.0));
    limits.set_square_corner_velocity(d(5.0));
    limits
}

#[test]
fn a_single_move_starts_and_ends_at_rest() {
    let (_, moves) = run(fast(), &["G1 X100 F6000"]);
    assert_eq!(moves.len(), 1);
    assert_close("start", moves[0].start_v, 0.0);
    assert_close("cruise", moves[0].cruise_v, 100.0);
    assert_close("end", moves[0].end_v, 0.0);
    // 0.1 s to speed up, 0.1 s to slow down, 90 mm in between.
    assert_close("total", moves[0].total_time(), 1.1);
    assert_close("accel", moves[0].accel_time(), 0.1);
    assert_close("decel", moves[0].decel_time(), 0.1);
    assert_close("cruise time", moves[0].cruise_time(), 0.9);
}

#[test]
fn straight_moves_join_at_full_speed_and_corners_slow_down() {
    let (_, moves) = run(fast(), &["G1 X100 F6000", "G1 X200", "G1 Y100"]);
    assert_close("straight", moves[0].end_v, 100.0);
    assert_close("straight", moves[1].start_v, 100.0);
    assert_close("corner", moves[1].end_v, 5.0);
    assert_close("corner", moves[2].start_v, 5.0);
    let (_, moves) = run(fast(), &["G1 X100 F6000", "G1 X0"]);
    assert_close("reversal", moves[0].end_v, 0.0);
}

#[test]
fn every_command_reports_the_operations_it_made() {
    let mut planner = Planner::from_limits(PrinterLimits::default());
    let mut count = 0;
    for line in ["G1 X10 F600", "G4 P100", "; note", "M109 S200", "G1 X20", "M83"] {
        count += planner.process_cmd(&parse_gcode(line).unwrap());
    }
    planner.finalize();
    assert_eq!(planner.drain().len(), count);
    assert!(planner.next_operation().is_none());
}

#[test]
fn a_split_move_counts_with_all_its_pieces() {
    let mut planner = Planner::from_limits(configured_limits(true));
    let n = planner.process_cmd(&parse_gcode("G1 X90 Y80 Z0.2 F3600").unwrap());
    planner.finalize();
    assert!(n > 1);
    assert_eq!(planner.drain().len(), n);
    let mut count = 0;
    let mut planner = Planner::from_limits(configured_limits(true));
    for line in [
        "G1 X90 Y80 Z0.2 F3600",
        "SAVE_GCODE_STATE NAME=a",
        "SET_GCODE_OFFSET X=-60 MOVE=1",
        "M400",
        "RESTORE_GCODE_STATE NAME=a MOVE=1",
        "; note",
        "G1 X10",
    ] {
        let n = planner.process_cmd(&parse_gcode(line).unwrap());
        assert!(n >= 1);
        count += n;
    }
    planner.finalize();
    assert_eq!(planner.drain().len(), count);
}

#[test]
fn commands_and_operations_stay_in_step_on_a_mesh() {
    let mut runner = EstimateRunner::new(configured_limits(true));
    runner.process(parse_gcode("; start").unwrap());
    runner.process(parse_gcode("G1 X90 Y80 Z0.2 F3600").unwrap());
    runner.process(parse_gcode("G1 X10 Y20").unwrap());
    runner.process(parse_gcode("M400").unwrap());
    let counts: Vec<usize> = runner.buffer.iter().map(|(n, _)| *n).collect();
    assert_eq!(counts.len(), 3);
    assert!(counts[0] > 1 && counts[1] > 1);
    assert_eq!(counts[2], 1);
    runner.finish();
    assert!(runner.buffer.is_empty());
    assert!(runner.planner.drain().is_empty());
}

#[test]
fn paths_end_at_the_transformed_end_of_a_move() {
    let config = configured_limits(true).motion_transforms;
    let state = MotionTransformState::new(&config);
    let start = Vec4::new(d(0.0), d(0.0), d(0.2), d(0.0));
    let end = Vec4::new(d(90.0), d(80.0), d(0.2), d(1.0));
    let points = state.transform_move(&config, start, end);
    let goal = state.transform_position(&config, end);
    let last = points.last().unwrap();
    assert!(points.len() > 1);
    assert_eq!(
        [f(last.x), f(last.y), f(last.z), f(last.w)],
        [f(goal.x), f(goal.y), f(goal.z), f(goal.w)]
    );
}

#[test]
fn unreadable_lines_are_no_commands() {
    assert!(parse_gcode("?").is_none());
    assert!(parse_gcode("").is_some());
    assert!(parse_gcode("; a comment").unwrap().op.is_nop());
    assert_eq!(
        parse_gcode("G1 X1 ; rest").unwrap().comment.as_deref(),
        Some(" rest")
    );
}

#[test]
fn arcs_are_split_around_their_centre() {
    let mut limits = PrinterLimits::default();
    limits.mm_per_arc_segment = Some(d(5.0));
    let planner = Planner::from_limits(limits);
    let params = |text: &[(char, &str)]| -> Vec<(char, String)> {
        text.iter().map(|(letter, value)| (*letter, value.to_string())).collect()
    };
    // a counter-clockwise half circle of radius 10, rising by 4
    let given = params(&[('X', "20"), ('Z', "4"), ('I', "10"), ('E', "8")]);
    let arc = planner.arc_for(&given, false).unwrap();
    assert_eq!((f(arc.center().0), f(arc.center().1)), (10.0, 0.0));
    assert_eq!((f(arc.radius().0), f(arc.radius().1)), (-10.0, 0.0));
    let (opposite, adjacent) = arc.sides();
    let turn = arc.turn(d(f(opposite).atan2(f(adjacent))));
    assert_close("turn", turn, std::f64::consts::PI);
    assert_eq!(f(arc.rise()), 4.0);
    assert_eq!(f(arc.pieces(d(20.5))), 4.0);
    assert_eq!(f(arc.pieces(d(1.0))), 1.0);
    let pieces = d(2.0);
    let angles = arc.angles(turn, pieces);
    assert_eq!(angles.len(), 1);
    assert_close("angle", angles[0], std::f64::consts::PI / 2.0);
    let points = arc.points(pieces, &vec![Direction { sin: d(1.0), cos: d(0.0) }]);
    assert_eq!(points.len(), 2);
    let xyzw = |p: Vec4| [f(p.x), f(p.y), f(p.z), f(p.w)];
    assert_eq!(xyzw(points[0]), [10.0, -10.0, 2.0, 4.0]);
    assert_eq!(xyzw(points[1]), [20.0, 0.0, 4.0, 8.0]);
    // the other way round
    let arc = planner.arc_for(&given, true).unwrap();
    assert_close("turn", arc.turn(d(1.0)), 1.0 - 2.0 * std::f64::consts::PI);
    assert_close("turn", arc.turn(d(-1.0)), -1.0);
    // a full circle
    let arc = planner.arc_for(&params(&[('J', "3")]), false).unwrap();
    assert_close("turn", arc.turn(d(0.0)), 2.0 * std::f64::consts::PI);
    // no centre, or no arcs
    assert!(planner.arc_for(&params(&[('X', "3")]), false).is_none());
    let plain = Planner::from_limits(PrinterLimits::default());
    assert!(plain.arc_for(&given, false).is_none());
}

#[test]
fn arcs_follow_their_plane() {
    let mut limits = PrinterLimits::default();
    limits.mm_per_arc_segment = Some(d(1.0));
    let mut planner = Planner::from_limits(limits);
    let given = vec![('I', "1".to_string()), ('J', "2".to_string()), ('K', "3".to_string())];
    let centers = [("G17", (1.0, 2.0)), ("G18", (1.0, 3.0)), ("G19", (2.0, 3.0))];
    for (command, center) in centers {
        planner.process_cmd(&parse_gcode(command).unwrap());
        let arc = planner.arc_for(&given, true).unwrap();
        assert_eq!((f(arc.center().0), f(arc.center().1)), center, "{}", command);
    }
}

#[test]
fn planned_speeds_are_bounded_and_end_at_rest() {
    let (_, moves) = run(
        PrinterLimits::default(),
        &["G1 X20 F6000", "G1 X20 Y20", "G1 X40 Y20", "G1 X40.1", "G1 X0 Y0"],
    );
    assert_eq!(moves.len(), 5);
    for m in &moves {
        let (start, cruise, end) = (f(m.start_v), f(m.cruise_v), f(m.end_v));
        assert!(0.0 <= start && start <= cruise, "{} {}", start, cruise);
        assert!(0.0 <= end && end <= cruise, "{} {}", end, cruise);
        assert!(start <= f(m.max_start_v2).sqrt());
        assert!(cruise <= f(m.max_cruise_v2).sqrt());
        assert!(m.max_start_v2 <= m.max_cruise_v2);
    }
    assert_eq!(f(moves[0].start_v), 0.0);
    assert_eq!(f(moves[4].end_v), 0.0);
    assert!(f(moves[0].cruise_v) > 0.0);
}
