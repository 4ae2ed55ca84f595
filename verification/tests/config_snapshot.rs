use klipper_estimator::double::Double;
use klipper_estimator::errors::SnapshotError;
use klipper_estimator::fingerprint::{fingerprint_bytes, fingerprint_configuration};
use klipper_estimator::inclusion::{
    confine, glob_component_matches, has_magic, matching_entries, sort_paths,
};
use klipper_estimator::kinematics::{CartesianKinematicsKind, Kinematics};
use klipper_estimator::limits::PositionMode;
use klipper_estimator::machine::{kinematics_from_settings, minimum_angle};
use klipper_estimator::offline::Sections;
use klipper_estimator::moonraker::{plan_request, RequestMethod};
use klipper_estimator::printer_settings::{
    check_objects, limits_from_settings, parse_extruders, requested_objects,
};
use klipper_estimator::resolution::resolve_offline_settings;
use klipper_estimator::search::{search_step, SearchAction, SearchEvent, SearchState};
use klipper_estimator::settings::{Entry, Item, Object, Settings};
use klipper_estimator::snapshot::{
    check_cache, check_cache_selection, choose_fallback, choose_origin, offline_snapshot, snapshot_from_status,
    ConfigOrigin, ConfigSnapshot, Fallback, ReportedSettings, SnapshotAccuracy, SnapshotSelection,
    SnapshotSourceKind,
};
use klipper_estimator::table::Table;
use klipper_estimator::walk::{walk_step, WalkAction, WalkEvent, WalkState};

fn d(x: f64) -> Double {
    Double { bits: x.to_bits() }
}

fn f(x: Double) -> f64 {
    f64::from_bits(x.bits)
}

fn text(x: &str) -> Item {
    Item::Text(x.into())
}

fn number(x: f64) -> Item {
    Item::Number(d(x))
}

fn object(items: Vec<(&str, Item)>) -> Object {
    let mut all = Table::new();
    for (name, item) in items {
        all.insert(name, item);
    }
    all
}

fn settings_of(entries: Vec<(&str, Vec<(&str, Item)>)>) -> Settings {
    let mut all = Table::new();
    for (name, items) in entries {
        all.insert(name, Entry::Object(object(items)));
    }
    all
}

fn settings() -> Settings {
    settings_of(vec![
        (
            "printer",
            vec![
                ("kinematics", text("cartesian")),
                ("max_velocity", number(300.0)),
                ("max_accel", number(5000.0)),
                ("minimum_cruise_ratio", number(0.5)),
                ("square_corner_velocity", number(5.0)),
                ("max_z_velocity", number(20.0)),
                ("max_z_accel", number(100.0)),
            ],
        ),
        (
            "stepper_x",
            vec![("position_min", number(0.0)), ("position_max", number(250.0))],
        ),
        (
            "stepper_y",
            vec![("position_min", number(0.0)), ("position_max", number(240.0))],
        ),
        (
            "stepper_z",
            vec![("position_min", number(0.0)), ("position_max", number(220.0))],
        ),
        (
            "extruder",
            vec![
                ("nozzle_diameter", number(0.4)),
                ("filament_diameter", number(1.75)),
                ("max_extrude_only_velocity", number(25.0)),
                ("max_extrude_only_accel", number(1250.0)),
                ("max_extrude_only_distance", number(50.0)),
                ("instantaneous_corner_velocity", number(1.0)),
                ("max_extrude_cross_section", number(5.0)),
            ],
        ),
        (
            "extruder1",
            vec![
                ("nozzle_diameter", number(0.6)),
                ("filament_diameter", number(1.75)),
                ("max_extrude_only_velocity", number(30.0)),
                ("max_extrude_only_accel", number(1300.0)),
                ("max_extrude_only_distance", number(40.0)),
                ("instantaneous_corner_velocity", number(1.5)),
                ("max_extrude_cross_section", number(1.44)),
            ],
        ),
    ])
}

fn status() -> Settings {
    settings_of(vec![
        ("configfile", vec![("settings", Item::Other)]),
        (
            "toolhead",
            vec![
                ("max_velocity", number(180.0)),
                ("max_accel", number(2500.0)),
                ("minimum_cruise_ratio", number(0.25)),
                ("square_corner_velocity", number(4.0)),
                ("extruder", text("extruder1")),
            ],
        ),
        (
            "gcode_move",
            vec![
                ("absolute_coordinates", Item::Flag(false)),
                ("absolute_extrude", Item::Flag(true)),
                ("speed_factor", number(0.8)),
                ("extrude_factor", number(0.9)),
            ],
        ),
        ("extruder", vec![("pressure_advance", number(0.04))]),
        ("extruder1", vec![("pressure_advance", number(0.02))]),
    ])
}

/// Everything that a fingerprint covers.
fn encoded(snapshot: &ConfigSnapshot) -> Vec<u8> {
    format!("{:?}", snapshot.fingerprint_input()).into_bytes()
}

fn taken(
    selection: SnapshotSelection,
    version: Option<&str>,
    configured: Settings,
    status: Settings,
) -> Result<ConfigSnapshot, SnapshotError> {
    let cosine = cosine_of(&configured);
    let mut snapshot = snapshot_from_status(
        "http://printer.local".into(),
        selection,
        version.map(|v| v.into()),
        ReportedSettings::Found(configured),
        &status,
        cosine,
        1_700_000_000,
    )?;
    let bytes = encoded(&snapshot);
    snapshot.refresh_fingerprint(&bytes);
    Ok(snapshot)
}

fn cosine_of(settings: &Settings) -> Double {
    match settings.get("printer") {
        Some(Entry::Object(printer)) => d(f(minimum_angle(printer)).to_radians().cos()),
        _ => d(1.0),
    }
}

#[test]
fn configuration_default_and_runtime_modes_remain_distinct() {
    let defaults = taken(
        SnapshotSelection::ConfigurationDefault,
        Some("v0.13.0-test"),
        settings(),
        status(),
    )
    .unwrap();
    let runtime = taken(
        SnapshotSelection::RuntimeSnapshot,
        Some("v0.13.0-test"),
        settings(),
        status(),
    )
    .unwrap();

    assert_eq!(f(defaults.limits.max_velocity), 300.0);
    assert_eq!(f(runtime.limits.max_velocity), 180.0);
    assert_eq!(
        defaults.limits.initial_coordinate_mode,
        PositionMode::Absolute
    );
    assert_eq!(
        runtime.limits.initial_coordinate_mode,
        PositionMode::Relative
    );
    assert_eq!(
        runtime.limits.initial_extrusion_mode,
        PositionMode::Absolute
    );
    assert_eq!(defaults.extruders.len(), 2);
    assert_eq!(defaults.limits.initial_extruder, None);
    assert_eq!(
        runtime.limits.initial_extruder.as_deref(),
        Some("extruder1")
    );
    assert!(matches!(
        defaults.limits.kinematics,
        Kinematics::CartesianFamily { .. }
    ));
    assert_eq!(defaults.accuracy, SnapshotAccuracy::Complete);
    assert_ne!(defaults.fingerprint, runtime.fingerprint);
    defaults.validate(&encoded(&defaults)).unwrap();
    runtime.validate(&encoded(&runtime)).unwrap();
}

#[test]
fn unsupported_kinematics_degrades_snapshot_accuracy() {
    let mut unsupported = settings();
    match unsupported.entries.iter_mut().find(|(name, _)| name == "printer") {
        Some((_, Entry::Object(printer))) => printer.insert("kinematics", text("winch")),
        _ => panic!("no printer"),
    }
    let snapshot = taken(
        SnapshotSelection::ConfigurationDefault,
        Some("v0.13.0-test"),
        unsupported,
        status(),
    )
    .unwrap();

    assert_eq!(snapshot.accuracy, SnapshotAccuracy::Degraded);
    assert!(matches!(
        snapshot.limits.kinematics,
        Kinematics::Unsupported { .. }
    ));
    assert!(snapshot
        .warnings
        .iter()
        .any(|warning| warning.contains("winch")));

    let mut dual_carriage = settings();
    dual_carriage.insert("dual_carriage", Entry::Object(object(vec![("axis", text("x"))])));
    let extruders = parse_extruders(&dual_carriage).unwrap();
    let limits = limits_from_settings(&dual_carriage, &extruders, d(1.0)).unwrap();
    assert!(matches!(limits.kinematics, Kinematics::Unsupported { .. }));
}

fn delta_tower() -> Vec<(&'static str, Item)> {
    vec![
        ("arm_length", number(333.0)),
        ("position_endstop", number(297.05)),
        ("rotation_distance", number(40.0)),
        ("microsteps", number(16.0)),
    ]
}

fn deltesian_arm() -> Vec<(&'static str, Item)> {
    vec![
        ("arm_x_length", number(160.0)),
        ("arm_length", number(217.0)),
        ("position_endstop", number(268.0)),
    ]
}

fn rotary_arm() -> Vec<(&'static str, Item)> {
    vec![
        ("upper_arm_length", number(170.0)),
        ("lower_arm_length", number(320.0)),
        ("position_endstop", number(252.0)),
    ]
}

fn printer_with(kinematics: &str, z: &[(&'static str, f64)]) -> Vec<(&'static str, Item)> {
    let mut items = vec![
        ("kinematics", text(kinematics)),
        ("max_velocity", number(300.0)),
        ("max_accel", number(3000.0)),
        ("minimum_cruise_ratio", number(0.5)),
        ("square_corner_velocity", number(5.0)),
    ];
    for (name, value) in z {
        items.push((name, number(*value)));
    }
    items
}

#[test]
fn nonlinear_moonraker_settings_import_geometry() {
    let cases = vec![
        (
            "delta",
            settings_of(vec![
                (
                    "printer",
                    printer_with(
                        "delta",
                        &[
                            ("max_z_velocity", 150.0),
                            ("max_z_accel", 1000.0),
                            ("delta_radius", 174.75),
                            ("print_radius", 170.0),
                            ("minimum_z_position", 0.0),
                        ],
                    ),
                ),
                ("stepper_a", delta_tower()),
                ("stepper_b", delta_tower()),
                ("stepper_c", delta_tower()),
            ]),
        ),
        (
            "polar",
            settings_of(vec![
                (
                    "printer",
                    printer_with(
                        "polar",
                        &[
                            ("max_z_velocity", 25.0),
                            ("max_z_accel", 30.0),
                            ("max_angular_velocity", 5.0),
                        ],
                    ),
                ),
                ("stepper_arm", vec![("position_max", number(300.0))]),
                (
                    "stepper_z",
                    vec![("position_min", number(0.0)), ("position_max", number(200.0))],
                ),
            ]),
        ),
        (
            "deltesian",
            settings_of(vec![
                (
                    "printer",
                    printer_with(
                        "deltesian",
                        &[
                            ("max_z_velocity", 150.0),
                            ("max_z_accel", 1000.0),
                            ("minimum_z_position", 0.0),
                            ("min_angle", 5.0),
                            ("slow_ratio", 3.0),
                        ],
                    ),
                ),
                ("stepper_left", deltesian_arm()),
                ("stepper_right", deltesian_arm()),
                (
                    "stepper_y",
                    vec![("position_min", number(0.0)), ("position_max", number(200.0))],
                ),
            ]),
        ),
        (
            "rotary_delta",
            settings_of(vec![
                (
                    "printer",
                    printer_with(
                        "rotary_delta",
                        &[
                            ("max_z_velocity", 50.0),
                            ("shoulder_radius", 33.9),
                            ("shoulder_height", 412.9),
                            ("minimum_z_position", 0.0),
                        ],
                    ),
                ),
                ("stepper_a", rotary_arm()),
                ("stepper_b", rotary_arm()),
                ("stepper_c", rotary_arm()),
            ]),
        ),
    ];
    for (backend, settings) in cases {
        let printer = match settings.get("printer") {
            Some(Entry::Object(printer)) => printer,
            _ => panic!("no printer"),
        };
        let kinematics =
            kinematics_from_settings(&settings, printer, cosine_of(&settings)).unwrap();
        assert!(matches!(
            (backend, kinematics),
            ("delta", Kinematics::Delta { .. })
                | ("polar", Kinematics::Polar { .. })
                | ("deltesian", Kinematics::Deltesian { .. })
                | ("rotary_delta", Kinematics::RotaryDelta { .. })
        ));
    }
}

#[test]
fn invalid_nonlinear_geometry_fails_loading() {
    let tower = || {
        vec![
            ("arm_length", number(190.0)),
            ("position_endstop", number(250.0)),
            ("rotation_distance", number(40.0)),
            ("microsteps", number(16.0)),
        ]
    };
    let settings = settings_of(vec![
        (
            "printer",
            vec![
                ("kinematics", text("delta")),
                ("max_velocity", number(300.0)),
                ("max_accel", number(3000.0)),
                ("max_z_velocity", number(150.0)),
                ("max_z_accel", number(1000.0)),
                ("delta_radius", number(200.0)),
            ],
        ),
        ("stepper_a", tower()),
        ("stepper_b", tower()),
        ("stepper_c", tower()),
    ]);
    let printer = match settings.get("printer") {
        Some(Entry::Object(printer)) => printer,
        _ => panic!("no printer"),
    };
    let error = kinematics_from_settings(&settings, printer, d(1.0)).unwrap_err();
    assert!(matches!(
        error,
        SnapshotError::InvalidKinematicsGeometry { .. }
    ));
}

/// Files in memory. A path that is not full is one below `/root`.
struct Tree {
    links: Vec<(String, String)>,
    files: Vec<(String, String)>,
}

impl Tree {
    fn new(files: &[(&str, &str)]) -> Tree {
        Tree {
            files: files
                .iter()
                .map(|(path, contents)| {
                    let path = match path.strip_prefix('/') {
                        Some(_) => path.to_string(),
                        None => format!("/root/{path}"),
                    };
                    (path, contents.to_string())
                })
                .collect(),
            links: Vec::new(),
        }
    }

    fn contents(&self, path: &str) -> Option<&str> {
        self.files
            .iter()
            .find(|(name, _)| name == path)
            .map(|(_, contents)| contents.as_str())
    }

    fn entries(&self, directory: &str) -> Vec<String> {
        let prefix = format!("{directory}/");
        let mut names: Vec<String> = self
            .files
            .iter()
            .filter_map(|(name, _)| name.strip_prefix(&prefix))
            .map(|rest| rest.split('/').next().unwrap().to_string())
            .collect();
        names.sort();
        names.dedup();
        names
    }

    /// The full path that a path stands for, if there is such a file or directory.
    fn located(&self, path: &str) -> Option<String> {
        let mut parts: Vec<&str> = Vec::new();
        for part in path.split('/') {
            match part {
                "" | "." => {}
                ".." => {
                    parts.pop();
                }
                name => parts.push(name),
            }
        }
        let full = format!("/{}", parts.join("/"));
        let real = match self.links.iter().find(|(link, _)| *link == full) {
            Some((_, target)) => target.clone(),
            None => full,
        };
        let inside = format!("{real}/");
        self.files
            .iter()
            .any(|(name, _)| *name == real || name.starts_with(&inside))
            .then_some(real)
    }

    fn resolve(&self, source: &str, pattern: &str) -> Result<Vec<String>, SnapshotError> {
        let mut state = SearchState::new("/root", source, pattern)?;
        let mut event = SearchEvent::Start;
        loop {
            let (next, action) = search_step(state, event);
            state = next;
            event = match action {
                SearchAction::Locate { path } => match self.located(&path) {
                    Some(path) => SearchEvent::Located { path },
                    None => SearchEvent::Missing,
                },
                SearchAction::List { directory } => SearchEvent::Listed {
                    names: self.entries(&directory),
                },
                SearchAction::Done { paths } => return Ok(paths),
                SearchAction::Report => panic!("unreadable"),
                SearchAction::Fail(error) => return Err(error),
            };
        }
    }

    fn read(&self, path: &str) -> Result<Sections, SnapshotError> {
        let mut state = WalkState::new();
        let mut event = WalkEvent::Start { path: path.into() };
        loop {
            let (next, action) = walk_step(state, event);
            state = next;
            event = match action {
                WalkAction::Read { path } => WalkEvent::Text {
                    data: self.contents(&path).unwrap().into(),
                },
                WalkAction::Resolve {
                    pattern,
                    source_file,
                } => WalkEvent::Found {
                    files: self.resolve(&source_file, &pattern)?,
                },
                WalkAction::Done => return Ok(state.sections),
                WalkAction::Fail(error) => return Err(error),
            };
        }
    }

    fn load(&self, name: &str) -> Result<ConfigSnapshot, SnapshotError> {
        let sections = self.read(&format!("/root/{name}"))?;
        let settings = resolve_offline_settings(&sections)?;
        let cosine = cosine_of(&settings);
        let mut snapshot =
            offline_snapshot(format!("/root:{name}"), &sections, settings, cosine, 1_700_000_000)?;
        let bytes = encoded(&snapshot);
        snapshot.refresh_fingerprint(&bytes);
        Ok(snapshot)
    }
}

#[test]
fn nonlinear_offline_configurations_resolve_without_degradation() {
    const EXTRUDER: &str = r#"
[extruder]
nozzle_diameter: 0.4
filament_diameter: 1.75
"#;
    let cases = [
        (
            "delta",
            r#"[printer]
kinematics: delta
max_velocity: 300
max_accel: 3000
max_z_velocity: 150
max_z_accel: 1000
delta_radius: 174.75
[stepper_a]
microsteps: 16
rotation_distance: 40
position_endstop: 297.05
arm_length: 333
[stepper_b]
microsteps: 16
rotation_distance: 40
[stepper_c]
microsteps: 16
rotation_distance: 40
"#,
        ),
        (
            "polar",
            r#"[printer]
kinematics: polar
max_velocity: 300
max_accel: 3000
max_z_velocity: 25
max_z_accel: 30
max_angular_velocity: 5
[stepper_bed]
[stepper_arm]
position_max: 300
[stepper_z]
position_min: 0
position_max: 200
"#,
        ),
        (
            "deltesian",
            r#"[printer]
kinematics: deltesian
max_velocity: 300
max_accel: 3000
max_z_velocity: 150
max_z_accel: 1000
[stepper_left]
position_endstop: 268
arm_length: 217
arm_x_length: 160
[stepper_right]
[stepper_y]
position_min: 0
position_max: 200
"#,
        ),
        (
            "rotary_delta",
            r#"[printer]
kinematics: rotary_delta
max_velocity: 300
max_accel: 3000
max_z_velocity: 50
shoulder_radius: 33.9
shoulder_height: 412.9
[stepper_a]
position_endstop: 252
upper_arm_length: 170
lower_arm_length: 320
[stepper_b]
[stepper_c]
"#,
        ),
    ];
    for (backend, config) in cases {
        let contents = format!("{config}{EXTRUDER}");
        let snapshot = Tree::new(&[("printer.cfg", &contents)])
            .load("printer.cfg")
            .unwrap();
        assert_eq!(snapshot.accuracy, SnapshotAccuracy::Complete);
        assert!(matches!(
            (backend, snapshot.limits.kinematics),
            ("delta", Kinematics::Delta { .. })
                | ("polar", Kinematics::Polar { .. })
                | ("deltesian", Kinematics::Deltesian { .. })
                | ("rotary_delta", Kinematics::RotaryDelta { .. })
        ));
    }
}

#[test]
fn fingerprint_changes_with_effective_limits() {
    let mut first = ConfigSnapshot::built_in_defaults(0);
    let bytes = encoded(&first);
    first.refresh_fingerprint(&bytes);
    let mut second = first.clone();
    second
        .limits
        .set_max_velocity(d(f(first.limits.max_velocity) + 1.0));
    let bytes = encoded(&second);
    second.refresh_fingerprint(&bytes);

    assert_ne!(first.fingerprint, second.fingerprint);
    first.fingerprint.push('0');
    assert!(matches!(
        first.validate(&encoded(&first)),
        Err(SnapshotError::FingerprintMismatch { .. })
    ));
}

#[test]
fn legacy_snapshot_upgrades_to_per_extruder_limits_after_validation() {
    let mut legacy = taken(
        SnapshotSelection::ConfigurationDefault,
        Some("v0.13.0-test"),
        settings(),
        status(),
    )
    .unwrap();
    legacy.limits.extruders = Table::new();
    legacy.limits.initial_extruder = None;
    let bytes = encoded(&legacy);
    legacy.refresh_fingerprint(&bytes);

    let mut imported = legacy.clone();
    imported.validate(&encoded(&imported)).unwrap();
    if imported.upgrade_legacy_extruders().unwrap() {
        let bytes = encoded(&imported);
        imported.refresh_fingerprint(&bytes);
    }

    assert_eq!(imported.limits.extruders.len(), 2);
    assert_eq!(
        f(imported
            .limits
            .extruders
            .get("extruder1")
            .unwrap()
            .max_extrude_only_velocity),
        30.0
    );
    assert!(imported
        .warnings
        .iter()
        .any(|warning| warning.contains("migrated legacy snapshot")));
    imported.validate(&encoded(&imported)).unwrap();
    assert!(!imported.upgrade_legacy_extruders().unwrap());
}

#[test]
fn runtime_mode_rejects_cache_before_reading_it() {
    let error = check_cache_selection(SnapshotSelection::RuntimeSnapshot).unwrap_err();
    assert!(matches!(error, SnapshotError::StaleRuntimeCache));
    assert!(check_cache_selection(SnapshotSelection::ConfigurationDefault).is_ok());
}

#[test]
fn stored_runtime_state_is_no_cache() {
    let default = SnapshotSelection::ConfigurationDefault;
    let runtime = SnapshotSelection::RuntimeSnapshot;
    assert!(check_cache(default, default).is_ok());
    for (requested, stored) in [(default, runtime), (runtime, default), (runtime, runtime)] {
        assert!(matches!(
            check_cache(requested, stored),
            Err(SnapshotError::StaleRuntimeCache)
        ));
    }
}

#[test]
fn fingerprints_cover_what_limits_follow_from() {
    let snapshot = taken(
        SnapshotSelection::ConfigurationDefault,
        Some("v1"),
        settings(),
        status(),
    )
    .unwrap();
    let input = snapshot.fingerprint_input();
    assert_eq!(input.klipper_version.as_deref(), Some("v1"));
    assert!(input.runtime.is_none());
    let mut other = snapshot.clone();
    other.retrieved_at_unix_seconds += 1;
    other.source.kind = SnapshotSourceKind::Merged;
    other.source.location = None;
    other.accuracy = SnapshotAccuracy::Degraded;
    other.warnings.push("warning".into());
    other.extruders = Table::new();
    other.runtime = None;
    assert_eq!(encoded(&other), encoded(&snapshot));
    other.klipper_version = None;
    assert_ne!(encoded(&other), encoded(&snapshot));
    other.klipper_version = Some("v1".into());
    other.schema_version += 1;
    assert_ne!(encoded(&other), encoded(&snapshot));
    let runtime = taken(
        SnapshotSelection::RuntimeSnapshot,
        Some("v1"),
        settings(),
        status(),
    )
    .unwrap();
    assert!(runtime.fingerprint_input().runtime.is_some());
}

#[test]
fn files_are_confined_component_by_component() {
    assert!(confine("/a/b", "/a/b").is_ok());
    assert!(confine("/a/b", "/a/b/c/d.cfg").is_ok());
    assert!(confine("/", "/a").is_ok());
    for path in ["/a/bc", "/a", "/x/a/b", "a/b"] {
        match confine("/a/b", path) {
            Err(SnapshotError::OfflineOutsideRoot { path: found, root }) => {
                assert_eq!(found, path);
                assert_eq!(root, "/a/b");
            }
            _ => panic!("{} is outside", path),
        }
    }
}

#[test]
fn files_are_read_in_order_and_saved_values_come_last() {
    let tree = Tree::new(&[
        (
            "printer.cfg",
            "[a]\nx: 1\ny: 1\n[include sub/*.cfg]\n[a]\ny: 3\n#*# <---------------------- SAVE_CONFIG ---------------------->\n#*# DO NOT EDIT THIS BLOCK OR BELOW. The contents are auto-generated.\n#*#\n#*# [a]\n#*# x = 9\n#*# z = 9\n",
        ),
        ("sub/2.cfg", "[a]\nx: 22\n"),
        ("sub/1.cfg", "[a]\nx: 21\ny: 2\n#*# no block\n"),
    ]);
    let sections = tree.read("/root/printer.cfg").unwrap();
    let a = sections.get("a").unwrap();
    assert_eq!(a.get("x").unwrap(), "22");
    assert_eq!(a.get("y").unwrap(), "3");
    assert_eq!(a.get("z").unwrap(), "9");
}

#[test]
fn a_configured_cross_section_leaves_the_speed_limits_alone() {
    let with = |line: &str| {
        Tree::new(&[(
            "printer.cfg",
            format!("[printer]\nkinematics: none\nmax_velocity: 100\nmax_accel: 1000\n[extruder]\nnozzle_diameter: 0.4\nfilament_diameter: 1.75\n{line}").as_str(),
        )])
        .load("printer.cfg")
        .unwrap()
    };
    let plain = with("");
    let wide = with("max_extrude_cross_section: 5\n");
    let of = |s: &ConfigSnapshot| *s.limits.extruders.get("extruder").unwrap();
    assert_eq!(
        of(&plain).max_extrude_only_velocity,
        of(&wide).max_extrude_only_velocity
    );
    assert_eq!(
        of(&plain).max_extrude_only_accel,
        of(&wide).max_extrude_only_accel
    );
    let ratio = 4.0 * 0.4f64.powi(2) / (std::f64::consts::PI * (1.75f64 * 0.5).powi(2));
    assert_eq!(f(of(&wide).max_extrude_only_velocity), 100.0 * ratio);
    assert_eq!(f(of(&wide).max_extrude_cross_section), 5.0);
}

#[test]
fn patterns_match_part_by_part() {
    assert!(glob_component_matches("a*?.cfg", "ab.cfg"));
    assert!(glob_component_matches("a*", "a") && glob_component_matches("?.cfg", "b.cfg"));
    assert!(!glob_component_matches("a*?.cfg", "a.cfg"));
    assert!(glob_component_matches("*", ""));
    assert!(glob_component_matches("?", "x"));
    assert!(!glob_component_matches("?", "xy"));
    assert!(!glob_component_matches("?", ""));
}

#[test]
fn cache_fallback_is_machine_readable_and_keeps_original_retrieval_time() {
    let snapshot = taken(
        SnapshotSelection::ConfigurationDefault,
        Some("v0.13.0-test"),
        settings(),
        status(),
    )
    .unwrap();
    let mut cached = snapshot.clone();
    cached.mark_cached("cache.json");

    assert_eq!(cached.accuracy, SnapshotAccuracy::Degraded);
    assert_eq!(
        cached.retrieved_at_unix_seconds,
        snapshot.retrieved_at_unix_seconds
    );
    assert!(cached
        .warnings
        .iter()
        .any(|warning| warning.contains("cached configuration-default snapshot")));
    assert_eq!(cached.summary().accuracy, SnapshotAccuracy::Degraded);
    assert_eq!(cached.source.kind, SnapshotSourceKind::MoonrakerCache);
}

#[test]
fn discovery_builds_a_post_object_query() {
    let available: Vec<String> = [
        "configfile",
        "toolhead",
        "gcode_move",
        "extruder",
        "extruder1",
    ]
    .into_iter()
    .map(str::to_string)
    .collect();
    check_objects(&available).unwrap();
    let objects = requested_objects(&available);
    let query: Vec<String> = ["printer", "objects", "query"].map(str::to_string).to_vec();
    let request = plan_request(
        "http://printer.local/",
        RequestMethod::Post,
        &query,
        &Some("secret".to_string()),
    )
    .unwrap();
    assert_eq!(request.method, RequestMethod::Post);
    assert_eq!(request.address, "http://printer.local/printer/objects/query");
    let (name, key) = request.header.unwrap();
    assert_eq!((name.as_str(), key.as_str()), ("X-Api-Key", "secret"));
    assert!(matches!(objects.get("extruder1"), Some(None)));
    assert!(objects.get("firmware_retraction").is_none());
    assert!(matches!(
        check_objects(&vec!["toolhead".into()]),
        Err(SnapshotError::MissingObject(_))
    ));
}

#[test]
fn offline_include_save_config_and_defaults_match_moonraker_settings() {
    let tree = Tree::new(&[
        (
            "printer.cfg",
            r#"[printer]
kinematics: cartesian
max_velocity: 300
[include conf.d/*.cfg]
[printer]
max_accel: 5000
[stepper_x]
position_endstop: 0
position_max: 250
[stepper_y]
position_endstop: 0
position_max: 240
[stepper_z]
position_endstop: 0
position_max: 220
#*# <---------------------- SAVE_CONFIG ---------------------->
#*# DO NOT EDIT THIS BLOCK OR BELOW. The contents are auto-generated.
#*#
#*# [printer]
#*# max_accel = 900
"#,
        ),
        (
            "conf.d/10-extruder.cfg",
            r#"[extruder]
nozzle_diameter: 0.4
filament_diameter: 1.75
[firmware_retraction]
"#,
        ),
        (
            "conf.d/20-limits.cfg",
            r#"[printer]
max_velocity: 250
[gcode_arcs]
"#,
        ),
    ]);

    let offline = tree.load("printer.cfg").unwrap();
    assert_eq!(
        offline.source.kind,
        SnapshotSourceKind::OfflineConfiguration
    );
    assert_eq!(f(offline.limits.max_velocity), 250.0);
    assert_eq!(f(offline.limits.max_acceleration), 5000.0);
    assert_eq!(offline.limits.minimum_cruise_ratio.map(f), Some(0.5));
    match &offline.limits.kinematics {
        Kinematics::CartesianFamily { config } => {
            assert_eq!(config.kind, CartesianKinematicsKind::Cartesian);
            assert_eq!(f(config.axis_maximum.x), 250.0);
            assert_eq!(f(config.axis_maximum.y), 240.0);
            assert_eq!(f(config.axis_maximum.z), 220.0);
        }
        other => panic!("expected resolved Cartesian kinematics, got {:?}", other),
    }
    assert_eq!(offline.limits.mm_per_arc_segment.map(f), Some(1.0));
    assert_eq!(
        f(offline
            .limits
            .firmware_retraction
            .as_ref()
            .unwrap()
            .retract_speed),
        20.0
    );

    let comparison_status = settings_of(vec![
        ("toolhead", vec![]),
        ("gcode_move", vec![]),
        ("extruder", vec![]),
    ]);
    let moonraker = taken(
        SnapshotSelection::ConfigurationDefault,
        None,
        offline.configfile_settings.clone(),
        comparison_status,
    )
    .unwrap();
    assert_eq!(offline.fingerprint, moonraker.fingerprint);
    offline.validate(&encoded(&offline)).unwrap();
}

#[test]
fn offline_configuration_rejects_cycles_missing_and_outside_includes() {
    let tree = Tree::new(&[
        ("cycle.cfg", "[include nested/cycle.cfg]\n"),
        ("nested/cycle.cfg", "[include ../cycle.cfg]\n"),
        ("missing.cfg", "[include absent.cfg]\n"),
        ("absolute.cfg", "[include /etc/passwd]\n"),
        ("outside.cfg", "[include ../secret.cfg]\n"),
        ("/secret.cfg", "[printer]\n"),
        ("nameless.cfg", "[printer]\n[include]\n"),
        ("nothing.cfg", "[include other/*.cfg]\nstray\n"),
    ]);
    assert!(matches!(
        tree.load("cycle.cfg"),
        Err(SnapshotError::OfflineRecursiveInclude(_))
    ));
    assert!(matches!(
        tree.load("missing.cfg"),
        Err(SnapshotError::OfflineMissingInclude { .. })
    ));
    assert!(matches!(
        tree.load("absolute.cfg"),
        Err(SnapshotError::OfflineAbsolutePath(_))
    ));
    match tree.load("outside.cfg") {
        Err(SnapshotError::OfflineOutsideRoot { path, root }) => {
            assert_eq!(path, "/secret.cfg");
            assert_eq!(root, "/root");
        }
        other => panic!("unexpected outcome: {:?}", other.is_ok()),
    }
    assert!(matches!(
        tree.load("nameless.cfg"),
        Err(SnapshotError::OfflineParse { line: 2, .. })
    ));
    assert!(matches!(
        tree.load("nothing.cfg"),
        Err(SnapshotError::OfflineParse { line: 2, .. })
    ));

    let mut aliased = Tree::new(&[
        ("ambiguous.cfg", "[include aliases/*.cfg]\n"),
        ("shared.cfg", "[printer]\n"),
        ("aliases/first.cfg", ""),
        ("aliases/second.cfg", ""),
    ]);
    for name in ["first", "second"] {
        aliased.links.push((
            format!("/root/aliases/{name}.cfg"),
            "/root/shared.cfg".to_string(),
        ));
    }
    match aliased.load("ambiguous.cfg") {
        Err(SnapshotError::OfflineAmbiguousInclude { pattern, first, second, .. }) => {
            assert_eq!(pattern, "aliases/*.cfg");
            assert_eq!(first, "/root/aliases/first.cfg");
            assert_eq!(second, "/root/aliases/second.cfg");
        }
        other => panic!("unexpected outcome: {:?}", other.is_ok()),
    }
    aliased.links[1].1 = "/secret.cfg".to_string();
    aliased.files.push(("/secret.cfg".to_string(), String::new()));
    assert!(matches!(
        aliased.load("ambiguous.cfg"),
        Err(SnapshotError::OfflineOutsideRoot { .. })
    ));
}

#[test]
fn inclusions_are_searched_component_by_component() {
    let tree = Tree::new(&[
        ("main.cfg", ""),
        ("b/x.cfg", ""),
        ("a/y.cfg", ""),
        ("a/x.cfg", ""),
        ("a/.hidden.cfg", ""),
        ("a/deep/z.cfg", ""),
        ("/secret/x.cfg", ""),
    ]);
    let found = |source: &str, pattern: &str| tree.resolve(source, pattern).unwrap();
    assert_eq!(
        found("/root/main.cfg", "?/*.cfg"),
        ["/root/a/x.cfg", "/root/a/y.cfg", "/root/b/x.cfg"]
    );
    assert_eq!(found("/root/main.cfg", "./a//x.cfg"), ["/root/a/x.cfg"]);
    assert_eq!(found("/root/a/y.cfg", "../b/x.cfg"), ["/root/b/x.cfg"]);
    assert_eq!(found("/root/a/y.cfg", "../*/z*.cfg"), Vec::<String>::new());
    assert_eq!(found("/root/main.cfg", "none/*.cfg"), Vec::<String>::new());
    assert!(matches!(
        tree.resolve("/root/main.cfg", "../secret/*.cfg"),
        Err(SnapshotError::OfflineOutsideRoot { .. })
    ));
    assert!(matches!(
        tree.resolve("/root/main.cfg", "a/none.cfg"),
        Err(SnapshotError::OfflineMissingInclude { .. })
    ));
    // a wildcard before a name that does not exist
    let mut state = SearchState::new("/root", "/root/main.cfg", "*/x.cfg").unwrap();
    for event in [
        SearchEvent::Start,
        SearchEvent::Located { path: "/root".into() },
        SearchEvent::Listed { names: vec!["a".into()] },
    ] {
        state = search_step(state, event).0;
    }
    assert!(matches!(
        search_step(state, SearchEvent::Missing).1,
        SearchAction::Report
    ));
}

#[test]
fn offline_configuration_rejects_corrupt_save_config_and_invalid_values() {
    let tree = Tree::new(&[
        (
            "corrupt.cfg",
            "#*# <---------------------- SAVE_CONFIG ---------------------->\nmodified\n",
        ),
        (
            "value.cfg",
            "[printer]\nmax_velocity: fast\nmax_accel: 1000\n[extruder]\nnozzle_diameter: 0.4\nfilament_diameter: 1.75\n",
        ),
        (
            "extruder-gap.cfg",
            "[printer]\nmax_velocity: 100\nmax_accel: 1000\n[extruder]\nnozzle_diameter: 0.4\nfilament_diameter: 1.75\n[extruder2]\nnozzle_diameter: 0.4\nfilament_diameter: 1.75\n",
        ),
        (
            "no-speed.cfg",
            "[printer]\nkinematics: cartesian\nmax_accel: 1000\n",
        ),
    ]);
    assert!(matches!(
        tree.load("corrupt.cfg"),
        Err(SnapshotError::OfflineParse { .. })
    ));
    assert!(matches!(
        tree.load("value.cfg"),
        Err(SnapshotError::OfflineValue { .. })
    ));
    assert!(matches!(
        tree.load("extruder-gap.cfg"),
        Err(SnapshotError::OfflineExtruderSequence(_))
    ));
    assert!(matches!(
        tree.load("no-speed.cfg"),
        Err(SnapshotError::OfflineMissingOption { .. })
    ));
}

#[test]
fn defaults_that_are_not_finite_are_no_numbers() {
    let tree = Tree::new(&[(
        "printer.cfg",
        "[printer]\nkinematics: none\nmax_velocity: 100\nmax_accel: 1000\n[extruder]\nnozzle_diameter: 1e-200\nfilament_diameter: 1e-200\n",
    )]);
    match tree.load("printer.cfg") {
        Err(SnapshotError::MissingField(path)) => {
            assert_eq!(path, "configfile.settings.extruder.max_extrude_only_velocity");
        }
        other => panic!("unexpected outcome: {:?}", other.is_ok()),
    }
}

#[test]
fn sections_that_are_not_modelled_are_named() {
    let tree = Tree::new(&[(
        "printer.cfg",
        "[printer]\nkinematics: none\nmax_velocity: 100\nmax_accel: 1000\n[extruder]\nnozzle_diameter: 0.4\nfilament_diameter: 1.75\n[bed_mesh]\nspeed: 10\n",
    )]);
    let snapshot = tree.load("printer.cfg").unwrap();
    assert!(snapshot
        .warnings
        .iter()
        .any(|warning| warning.contains("bed_mesh")));
}

#[test]
fn a_status_must_hold_what_is_asked_of_it() {
    let asked = |found, status: Settings, selection| {
        snapshot_from_status("x".into(), selection, None, found, &status, d(1.0), 0)
    };
    let default = SnapshotSelection::ConfigurationDefault;
    assert!(matches!(
        asked(ReportedSettings::NoObject, status(), default),
        Err(SnapshotError::MissingObject(name)) if name == "configfile"
    ));
    assert!(matches!(
        asked(ReportedSettings::NoField, status(), default),
        Err(SnapshotError::MissingField(name)) if name == "settings"
    ));
    assert!(matches!(
        asked(ReportedSettings::NotAnObject, status(), default),
        Err(SnapshotError::MissingField(_))
    ));
    assert!(matches!(
        asked(ReportedSettings::Found(settings()), Table::new(), default),
        Err(SnapshotError::MissingObject(_))
    ));
    let mut odd = status();
    match odd.entries.iter_mut().find(|(name, _)| name == "toolhead") {
        Some((_, Entry::Object(toolhead))) => toolhead.insert("extruder", text("nothing")),
        _ => panic!("no toolhead"),
    }
    assert!(matches!(
        asked(
            ReportedSettings::Found(settings()),
            odd,
            SnapshotSelection::RuntimeSnapshot
        ),
        Err(SnapshotError::UnknownActiveExtruder(_))
    ));
}

#[test]
fn other_schemas_are_not_taken() {
    let mut snapshot = ConfigSnapshot::built_in_defaults(0);
    snapshot.schema_version = 77;
    assert!(matches!(
        snapshot.validate(&encoded(&snapshot)),
        Err(SnapshotError::UnsupportedSchema(77))
    ));
}

#[test]
fn the_origin_of_a_configuration_is_chosen_once() {
    let default = SnapshotSelection::ConfigurationDefault;
    assert_eq!(choose_origin(true, false, default), ConfigOrigin::Offline);
    assert_eq!(
        choose_origin(true, false, SnapshotSelection::RuntimeSnapshot),
        ConfigOrigin::OfflineConflict
    );
    assert_eq!(choose_origin(false, true, default), ConfigOrigin::Moonraker);
    assert_eq!(choose_origin(false, false, default), ConfigOrigin::BuiltIn);
    assert_eq!(choose_fallback(false, true), Fallback::Fail);
    assert_eq!(choose_fallback(true, false), Fallback::RefuseGeneric);
    assert_eq!(choose_fallback(true, true), Fallback::ReadCache);
}

#[test]
fn provenance_follows_what_was_merged() {
    let mut live = ConfigSnapshot::built_in_defaults(5);
    live.mark_overlaid("own.json", true);
    assert_eq!(live.source.kind, SnapshotSourceKind::Merged);
    let mut file = ConfigSnapshot::built_in_defaults(5);
    file.mark_overlaid("own.json", false);
    assert_eq!(file.source.kind, SnapshotSourceKind::ConfigurationFile);
    assert_eq!(file.accuracy, SnapshotAccuracy::Complete);
    let mut overridden = ConfigSnapshot::built_in_defaults(5);
    let limits = overridden.limits.clone();
    overridden.finish(limits, true);
    assert_eq!(overridden.source.kind, SnapshotSourceKind::Merged);
    let mut imported = ConfigSnapshot::built_in_defaults(5);
    imported.mark_imported("own.json", true);
    assert_eq!(imported.source.location.as_deref(), Some("own.json"));
    let old = ConfigSnapshot::from_cached_limits(
        imported.limits.clone(),
        "cache.json",
        SnapshotSelection::ConfigurationDefault,
        9,
    );
    assert_eq!(old.source.kind, SnapshotSourceKind::MoonrakerCache);
    assert_eq!(old.retrieved_at_unix_seconds, 9);
}

#[test]
fn fingerprints_are_digests_of_bytes() {
    assert_eq!(
        fingerprint_bytes(&Vec::new()),
        "e3b0c44298fc1c149afbf4c8996fb92427ae41e4649b934ca495991b7852b855"
    );
    assert_eq!(
        fingerprint_bytes(&b"abc".to_vec()),
        "ba7816bf8f01cfea414140de5dae2223b00361a396177a9cb410ff61f20015ad"
    );
    assert_ne!(
        fingerprint_configuration(&b"abc".to_vec()),
        fingerprint_configuration(&b"abd".to_vec())
    );
}

#[test]
fn patterns_fit_names() {
    for (pattern, value, fits) in [
        ("*.cfg", "a.cfg", true),
        ("*.cfg", "a.cf", false),
        ("a?c", "abc", true),
        ("a?c", "ac", false),
        ("[a-c]x", "bx", true),
        ("[a-c]x", "dx", false),
        ("[!a]x", "bx", true),
        ("[!a]x", "ax", false),
        ("[x", "[x", true),
        ("", "", true),
        ("*", "", true),
    ] {
        assert_eq!(glob_component_matches(pattern, value), fits, "{pattern} {value}");
    }
    assert!(has_magic("a*"));
    assert!(!has_magic("a.cfg"));
    assert_eq!(
        matching_entries("*", vec!["b".into(), ".hidden".into(), "a".into()]),
        ["a", "b"]
    );
    assert_eq!(
        sort_paths(vec!["/a-b/c".into(), "/a/c".into(), "/a".into()]),
        ["/a", "/a/c", "/a-b/c"]
    );
}

fn list(rows: &[&[f64]]) -> Item {
    Item::List(rows.iter().map(|row| row.iter().map(|x| d(*x)).collect()).collect())
}

fn saved_transforms() -> Settings {
    let mut all = settings();
    for (name, entry) in settings_of(vec![
        ("bed_mesh", vec![("fade_start", number(2.0)), ("fade_end", number(10.0))]),
        (
            "bed_mesh default",
            vec![
                ("min_x", number(0.0)),
                ("max_x", number(100.0)),
                ("min_y", number(10.0)),
                ("max_y", number(90.0)),
                ("mesh_x_pps", number(1.0)),
                ("mesh_y_pps", number(0.0)),
                ("algo", text("lagrange")),
                ("points", list(&[&[0.0, 1.0], &[2.0, 3.0]])),
            ],
        ),
        ("bed_mesh broken", vec![("min_x", number(0.0)), ("points", list(&[&[0.0]]))]),
        ("skew_correction", vec![]),
        (
            "skew_correction frame",
            vec![
                ("xy_skew", number(0.01)),
                ("xz_skew", number(0.0)),
                ("yz_skew", number(-0.02)),
            ],
        ),
    ])
    .entries
    {
        all.insert(&name, entry);
    }
    all
}

fn reported_status(extra: Vec<(&str, Vec<(&str, Item)>)>) -> Settings {
    let mut all = status();
    for (name, entry) in settings_of(extra).entries {
        all.insert(&name, entry);
    }
    all
}

fn transforms_of(selection: SnapshotSelection, status: &Settings) -> ConfigSnapshot {
    let found = ReportedSettings::Found(saved_transforms());
    snapshot_from_status("x".into(), selection, None, found, status, d(1.0), 0).unwrap()
}

#[test]
fn saved_profiles_are_imported_and_inactive() {
    let snapshot = transforms_of(SnapshotSelection::ConfigurationDefault, &status());
    let transforms = &snapshot.limits.motion_transforms;
    let mesh = transforms.bed_mesh.as_ref().unwrap();
    assert!(mesh.initial_profile.is_none());
    assert_eq!(f(mesh.fade_start), 2.0);
    assert_eq!(f(mesh.fade_end), 10.0);
    assert_eq!(f(mesh.move_check_distance), 5.0);
    assert_eq!(mesh.profiles.len(), 1);
    let profile = mesh.profiles.get("default").unwrap();
    assert_eq!(profile.min.map(f), [0.0, 10.0]);
    assert_eq!(profile.max.map(f), [100.0, 90.0]);
    let heights: Vec<Vec<f64>> = profile
        .matrix
        .iter()
        .map(|row| row.iter().map(|x| f(*x)).collect())
        .collect();
    assert_eq!(heights, vec![vec![0.0, 0.5, 1.0], vec![2.0, 2.5, 3.0]]);
    let skew = transforms.skew_correction.as_ref().unwrap();
    assert!(skew.initial_profile.is_none());
    let frame = skew.profiles.get("frame").unwrap();
    assert_eq!((f(frame.xy), f(frame.xz), f(frame.yz)), (0.01, 0.0, -0.02));
    assert!(transforms.unsupported_active.is_empty());
    assert_eq!(snapshot.accuracy, SnapshotAccuracy::Complete);
}

#[test]
fn runtime_snapshots_import_the_active_mesh() {
    let reported = || {
        reported_status(vec![(
            "bed_mesh",
            vec![
                ("profile_name", text("adaptive-1")),
                ("mesh_min", list(&[&[5.0], &[6.0]])),
                ("mesh_max", list(&[&[50.0], &[60.0]])),
                ("mesh_matrix", list(&[&[0.1, 0.2], &[0.3, 0.4]])),
            ],
        )])
    };
    let snapshot = transforms_of(SnapshotSelection::RuntimeSnapshot, &reported());
    let mesh = snapshot.limits.motion_transforms.bed_mesh.as_ref().unwrap();
    assert_eq!(mesh.initial_profile.as_deref(), Some("adaptive-1"));
    assert_eq!(mesh.profiles.len(), 2);
    let active = mesh.profiles.get("adaptive-1").unwrap();
    assert_eq!(active.max.map(f), [50.0, 60.0]);
    assert_eq!(f(active.matrix[1][0]), 0.3);
    assert_eq!(f(mesh.fade_start), 2.0);
    assert_eq!(snapshot.accuracy, SnapshotAccuracy::Complete);
    // defaults start without it
    let snapshot = transforms_of(SnapshotSelection::ConfigurationDefault, &reported());
    let mesh = snapshot.limits.motion_transforms.bed_mesh.as_ref().unwrap();
    assert!(mesh.initial_profile.is_none());
    assert_eq!(mesh.profiles.len(), 1);
    // a cleared mesh is none
    let cleared = reported_status(vec![(
        "bed_mesh",
        vec![
            ("profile_name", text("")),
            ("mesh_min", list(&[&[0.0], &[0.0]])),
            ("mesh_max", list(&[&[0.0], &[0.0]])),
            ("mesh_matrix", list(&[&[]])),
        ],
    )]);
    let snapshot = transforms_of(SnapshotSelection::RuntimeSnapshot, &cleared);
    let mesh = snapshot.limits.motion_transforms.bed_mesh.as_ref().unwrap();
    assert!(mesh.initial_profile.is_none());
}

#[test]
fn uncertain_transforms_degrade_runtime_snapshots() {
    let status = reported_status(vec![
        ("skew_correction", vec![("current_profile_name", text("frame"))]),
        ("bed_tilt", vec![]),
        ("z_thermal_adjust", vec![("enabled", Item::Flag(true))]),
        ("exclude_object", vec![("excluded_objects", list(&[&[]]))]),
    ]);
    let snapshot = transforms_of(SnapshotSelection::RuntimeSnapshot, &status);
    let transforms = &snapshot.limits.motion_transforms;
    let skew = transforms.skew_correction.as_ref().unwrap();
    assert_eq!(skew.initial_profile.as_deref(), Some("frame"));
    assert_eq!(
        transforms.unsupported_active,
        ["bed_tilt", "z_thermal_adjust", "exclude_object"]
    );
    assert_eq!(snapshot.accuracy, SnapshotAccuracy::Degraded);
    assert_eq!(snapshot.warnings.len(), 4);
    assert!(snapshot.warnings[0].contains("skew"));
    assert!(snapshot.warnings[1].contains("'bed_tilt'"));
    // what is not active is no matter
    let idle = reported_status(vec![
        ("z_thermal_adjust", vec![("enabled", Item::Flag(false))]),
        ("exclude_object", vec![("excluded_objects", list(&[]))]),
    ]);
    let snapshot = transforms_of(SnapshotSelection::RuntimeSnapshot, &idle);
    assert!(snapshot.limits.motion_transforms.unsupported_active.is_empty());
    assert_eq!(snapshot.accuracy, SnapshotAccuracy::Complete);
    // nor does the state of a printer matter to its defaults
    let snapshot = transforms_of(SnapshotSelection::ConfigurationDefault, &status);
    assert_eq!(snapshot.accuracy, SnapshotAccuracy::Complete);
    assert!(snapshot.warnings.is_empty());
}

#[test]
fn transforms_are_asked_for_where_a_printer_has_them() {
    let available: Vec<String> = ["configfile", "bed_mesh", "exclude_object"]
        .into_iter()
        .map(str::to_string)
        .collect();
    let objects = requested_objects(&available);
    assert!(matches!(objects.get("bed_mesh"), Some(None)));
    assert!(matches!(objects.get("exclude_object"), Some(None)));
    assert!(objects.get("skew_correction").is_none());
    assert!(objects.get("bed_tilt").is_none());
    assert!(objects.get("z_thermal_adjust").is_none());
}

#[test]
fn a_delta_has_its_minimum_below_its_endstops() {
    let delta = |minimum: &str| {
        format!(
            "[printer]\nkinematics: delta\nmax_velocity: 300\nmax_accel: 3000\n\
             max_z_velocity: 150\ndelta_radius: 174.75\nminimum_z_position: {minimum}\n\
             [stepper_a]\nmicrosteps: 16\nrotation_distance: 40\nposition_endstop: 297.05\n\
             arm_length: 333\n\
             [stepper_b]\nmicrosteps: 16\nrotation_distance: 40\n\
             [stepper_c]\nmicrosteps: 16\nrotation_distance: 40\n\
             [extruder]\nnozzle_diameter: 0.4\nfilament_diameter: 1.75\n"
        )
    };
    let (high, low) = (delta("3e2"), delta("-2.5"));
    let tree = Tree::new(&[("high.cfg", high.as_str()), ("low.cfg", low.as_str())]);
    match tree.load("high.cfg") {
        Err(SnapshotError::OfflineValue { section, option, value, message }) => {
            assert_eq!(section, "printer");
            assert_eq!(option, "minimum_z_position");
            assert_eq!(value, "300");
            assert_eq!(message, "value exceeds the delta maximum Z");
        }
        other => panic!("{:?}", other),
    }
    assert!(tree.load("low.cfg").is_ok());
}

#[test]
fn saved_profiles_are_imported_from_configuration_files() {
    let printer = "[printer]\nkinematics: none\nmax_velocity: 100\nmax_accel: 1000\n\
                   [extruder]\nnozzle_diameter: 0.4\nfilament_diameter: 1.75\n\
                   [bed_mesh]\nfade_start: 2\nspeed: 10\n\
                   [skew_correction]\n";
    let saved = "#*# <---------------------- SAVE_CONFIG ---------------------->\n\
                 #*# DO NOT EDIT THIS BLOCK OR BELOW. The contents are auto-generated.\n\
                 #*#\n\
                 #*# [bed_mesh default]\n\
                 #*# version = 1\n\
                 #*# points =\n\
                 #*# \t  0.0, 1.0\n\
                 #*# \t  2.0, 3.0\n\
                 #*# mesh_x_pps = 1\n\
                 #*# mesh_y_pps = 0\n\
                 #*# algo = lagrange\n\
                 #*# min_x = 0.0\n\
                 #*# max_x = 100.0\n\
                 #*# min_y = 10.0\n\
                 #*# max_y = 90.0\n\
                 #*#\n\
                 #*# [skew_correction frame]\n\
                 #*# xy_skew = 0.01\n\
                 #*# xz_skew = 0.0\n\
                 #*# yz_skew = -0.02\n";
    let whole = format!("{printer}{saved}");
    let broken = format!("{printer}[bed_mesh old]\npoints:\n  0.0, x\n");
    let faulty = format!("{printer}[skew_correction old]\nxy_skew: much\n");
    let tree = Tree::new(&[
        ("printer.cfg", whole.as_str()),
        ("broken.cfg", broken.as_str()),
        ("faulty.cfg", faulty.as_str()),
    ]);
    let snapshot = tree.load("printer.cfg").unwrap();
    let transforms = &snapshot.limits.motion_transforms;
    let mesh = transforms.bed_mesh.as_ref().unwrap();
    assert!(mesh.initial_profile.is_none());
    assert_eq!(f(mesh.fade_start), 2.0);
    let profile = mesh.profiles.get("default").unwrap();
    assert_eq!(profile.min.map(f), [0.0, 10.0]);
    assert_eq!(profile.max.map(f), [100.0, 90.0]);
    let heights: Vec<Vec<f64>> = profile
        .matrix
        .iter()
        .map(|row| row.iter().map(|x| f(*x)).collect())
        .collect();
    assert_eq!(heights, vec![vec![0.0, 0.5, 1.0], vec![2.0, 2.5, 3.0]]);
    let skew = transforms.skew_correction.as_ref().unwrap();
    assert!(skew.initial_profile.is_none());
    assert_eq!(f(skew.profiles.get("frame").unwrap().yz), -0.02);
    assert!(snapshot.warnings.iter().any(|warning| warning.contains("bed_mesh")));
    match tree.load("broken.cfg") {
        Err(SnapshotError::OfflineValue { section, option, message, .. }) => {
            assert_eq!(section, "bed_mesh old");
            assert_eq!(option, "points");
            assert_eq!(message, "expected rows of numbers");
        }
        other => panic!("unexpected outcome: {:?}", other.is_ok()),
    }
    assert!(matches!(
        tree.load("faulty.cfg"),
        Err(SnapshotError::OfflineValue { option, .. }) if option == "xy_skew"
    ));
}
