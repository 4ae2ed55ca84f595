//! Printer limits from settings and from the state of a running printer.

use vstd::prelude::*;

use crate::constants::FIFTY;
use crate::double::num;
use crate::double::Double;
use crate::double::ONE;
use crate::double::ZERO;
use crate::errors::outcome;
use crate::errors::Outcome;
use crate::errors::SnapshotError;
use crate::geometry::Vec3;
use crate::imports::settings_transforms;
use crate::imports::transforms_from_settings;
use crate::kinds::texts;
use crate::kinematics::Kinematics;
use crate::limits::CommandContract;
use crate::limits::pseudo_accel;
use crate::limits::scv_to_jd;
use crate::limits::ExtruderLimits;
use crate::limits::FirmwareRetractionOptions;
use crate::limits::MoveChecker;
use crate::limits::PositionMode;
use crate::limits::PrinterLimits;
use crate::machine::kinematics_from_settings;
use crate::machine::kinematics_of;
use crate::motion_transform::TransformsView;
use crate::offline::viewed;
use crate::settings::dot;
use crate::settings::dotted;
use crate::settings::is_extruder_object;
use crate::settings::names_extruder;
use crate::settings::needed;
use crate::settings::number;
use crate::settings::number_else;
use crate::settings::number_of;
use crate::settings::number_or_else;
use crate::settings::object_in;
use crate::settings::optional_number;
use crate::settings::optional_object;
use crate::settings::optional_text;
use crate::settings::settings_path;
use crate::settings::text_in;
use crate::settings::Entry;
use crate::settings::Item;
use crate::settings::Object;
use crate::settings::ObjectView;
use crate::settings::Settings;
use crate::settings::SettingsView;
use crate::table::has_key;
use crate::table::inserted;
use crate::table::lookup;
use crate::table::Table;
use crate::text::same;

verus! {

/// What is configured of an extruder.
#[derive(Clone, Copy, Debug)]
pub struct ExtruderSnapshot {
    pub nozzle_diameter: Double,
    pub filament_diameter: Double,
    pub max_extrude_only_velocity: Double,
    pub max_extrude_only_accel: Double,
    pub max_extrude_only_distance: Double,
    pub instantaneous_corner_velocity: Double,
    pub max_extrude_cross_section: Double,
}

impl ExtruderSnapshot {
    /// The limits of the extruder.
    #[verifier::allow_in_spec]
    pub fn limits(&self) -> ExtruderLimits
        returns
            (ExtruderLimits {
                nozzle_diameter: self.nozzle_diameter,
                filament_diameter: self.filament_diameter,
                max_extrude_only_velocity: self.max_extrude_only_velocity,
                max_extrude_only_accel: self.max_extrude_only_accel,
                max_extrude_only_distance: self.max_extrude_only_distance,
                instantaneous_corner_velocity: self.instantaneous_corner_velocity,
                max_extrude_cross_section: self.max_extrude_cross_section,
            }),
    {
        ExtruderLimits {
            nozzle_diameter: self.nozzle_diameter,
            filament_diameter: self.filament_diameter,
            max_extrude_only_velocity: self.max_extrude_only_velocity,
            max_extrude_only_accel: self.max_extrude_only_accel,
            max_extrude_only_distance: self.max_extrude_only_distance,
            instantaneous_corner_velocity: self.instantaneous_corner_velocity,
            max_extrude_cross_section: self.max_extrude_cross_section,
        }
    }
}

impl Default for ExtruderSnapshot {
    fn default() -> (r: ExtruderSnapshot)
        ensures
            r.limits() == ExtruderLimits::defaults(),
    {
        let defaults = ExtruderLimits::defaults();
        ExtruderSnapshot {
            nozzle_diameter: defaults.nozzle_diameter,
            filament_diameter: defaults.filament_diameter,
            max_extrude_only_velocity: defaults.max_extrude_only_velocity,
            max_extrude_only_accel: defaults.max_extrude_only_accel,
            max_extrude_only_distance: defaults.max_extrude_only_distance,
            instantaneous_corner_velocity: defaults.instantaneous_corner_velocity,
            max_extrude_cross_section: defaults.max_extrude_cross_section,
        }
    }
}

pub type ExtrudersView = Seq<(Seq<char>, ExtruderSnapshot)>;

/// An extruder as its object describes it.
pub open spec fn extruder_of(name: Seq<char>, o: ObjectView) -> Outcome<ExtruderSnapshot> {
    let path = settings_path(name);
    match (
        needed(o, path, "nozzle_diameter"@),
        needed(o, path, "filament_diameter"@),
        needed(o, path, "max_extrude_only_velocity"@),
        needed(o, path, "max_extrude_only_accel"@),
        needed(o, path, "max_extrude_only_distance"@),
        needed(o, path, "instantaneous_corner_velocity"@),
        needed(o, path, "max_extrude_cross_section"@),
    ) {
        (Err(e), _, _, _, _, _, _) => Err(e),
        (_, Err(e), _, _, _, _, _) => Err(e),
        (_, _, Err(e), _, _, _, _) => Err(e),
        (_, _, _, Err(e), _, _, _) => Err(e),
        (_, _, _, _, Err(e), _, _) => Err(e),
        (_, _, _, _, _, Err(e), _) => Err(e),
        (_, _, _, _, _, _, Err(e)) => Err(e),
        (
            Ok(nozzle_diameter),
            Ok(filament_diameter),
            Ok(max_extrude_only_velocity),
            Ok(max_extrude_only_accel),
            Ok(max_extrude_only_distance),
            Ok(instantaneous_corner_velocity),
            Ok(max_extrude_cross_section),
        ) => Ok(
            ExtruderSnapshot {
                nozzle_diameter,
                filament_diameter,
                max_extrude_only_velocity,
                max_extrude_only_accel,
                max_extrude_only_distance,
                instantaneous_corner_velocity,
                max_extrude_cross_section,
            },
        ),
    }
}

fn read_extruder(name: &str, o: &Object) -> (r: Result<ExtruderSnapshot, SnapshotError>)
    ensures
        outcome(r) == extruder_of(name@, o.deep_view()),
{
    let path: String = dot("configfile.settings", name);
    let path: &str = path.as_str();
    Ok(
        ExtruderSnapshot {
            nozzle_diameter: number(o, path, "nozzle_diameter")?,
            filament_diameter: number(o, path, "filament_diameter")?,
            max_extrude_only_velocity: number(o, path, "max_extrude_only_velocity")?,
            max_extrude_only_accel: number(o, path, "max_extrude_only_accel")?,
            max_extrude_only_distance: number(o, path, "max_extrude_only_distance")?,
            instantaneous_corner_velocity: number(o, path, "instantaneous_corner_velocity")?,
            max_extrude_cross_section: number(o, path, "max_extrude_cross_section")?,
        },
    )
}

/// The extruders among the first `i` settings.
pub open spec fn extruders_of(s: SettingsView, i: int) -> Outcome<ExtrudersView>
    decreases i,
{
    if i <= 0 {
        Ok(Seq::empty())
    } else {
        match extruders_of(s, i - 1) {
            Err(e) => Err(e),
            Ok(found) => {
                let (name, entry) = s[i - 1];
                if !names_extruder(name) {
                    Ok(found)
                } else {
                    match entry {
                        Entry::Other => Err(SnapshotError::MissingField(settings_path(name))),
                        Entry::Object(o) => match extruder_of(name, o) {
                            Err(e) => Err(e),
                            Ok(x) => Ok(inserted(found, name, x)),
                        },
                    }
                }
            },
        }
    }
}

proof fn lemma_extruders_fail(s: SettingsView, i: int, j: int)
    requires
        0 <= i <= j,
        extruders_of(s, i) is Err,
    ensures
        extruders_of(s, j) == extruders_of(s, i),
    decreases j,
{
    if i < j {
        lemma_extruders_fail(s, i, j - 1);
    }
}

pub open spec fn table_outcome<V>(r: Result<Table<V>, SnapshotError>) -> Outcome<
    Seq<(Seq<char>, V)>,
> {
    match r {
        Ok(t) => Ok(t@),
        Err(e) => Err(e@),
    }
}

/// The extruders that settings describe.
pub fn parse_extruders(s: &Settings) -> (r: Result<Table<ExtruderSnapshot>, SnapshotError>)
    ensures
        table_outcome(r) == extruders_of(s.deep_view(), s.deep_view().len() as int),
        r matches Ok(t) ==> t.well_formed(),
{
    let ghost v = s.deep_view();
    let mut found: Table<ExtruderSnapshot> = Table::new();
    let mut i: usize = 0;
    while i < s.len()
        invariant
            i <= s@.len(),
            v == s.deep_view(),
            found.well_formed(),
            extruders_of(v, i as int) == Ok::<ExtrudersView, SnapshotError<Seq<char>>>(found@),
        decreases s@.len() - i,
    {
        let name: &str = s.key_at(i);
        let entry: &Entry = s.value_at(i);
        assert(v[i as int] == (name@, entry.deep_view()));
        if is_extruder_object(name) {
            let step: Result<ExtruderSnapshot, SnapshotError> = match entry {
                Entry::Object(o) => read_extruder(name, o),
                Entry::Other => Err(
                    SnapshotError::MissingField(dot("configfile.settings", name)),
                ),
            };
            match step {
                Ok(x) => found.insert(name, x),
                Err(e) => {
                    proof {
                        assert(extruders_of(v, i + 1) == Err::<
                            ExtrudersView,
                            SnapshotError<Seq<char>>,
                        >(e@));
                        lemma_extruders_fail(v, i + 1, v.len() as int);
                    }
                    return Err(e);
                },
            }
        }
        i = i + 1;
    }
    Ok(found)
}

/// Printer limits with views of their parts.
#[verifier::ext_equal]
pub struct LimitsView {
    pub max_velocity: Double,
    pub max_acceleration: Double,
    pub max_accel_to_decel: Option<Double>,
    pub minimum_cruise_ratio: Option<Double>,
    pub square_corner_velocity: Double,
    pub junction_deviation: Double,
    pub mcr_pseudo_accel: Double,
    pub instant_corner_velocity: Double,
    pub extruders: Seq<(Seq<char>, ExtruderLimits)>,
    pub initial_extruder: Option<Seq<char>>,
    pub firmware_retraction: Option<FirmwareRetractionOptions>,
    pub mm_per_arc_segment: Option<Double>,
    pub move_checkers: Seq<MoveChecker>,
    pub kinematics: Kinematics<Seq<char>>,
    pub motion_transforms: TransformsView,
    pub initial_coordinate_mode: PositionMode,
    pub initial_extrusion_mode: PositionMode,
    pub command_contracts: Seq<(Seq<char>, CommandContract)>,
}

impl View for PrinterLimits {
    type V = LimitsView;

    open spec fn view(&self) -> LimitsView {
        LimitsView {
            max_velocity: self.max_velocity,
            max_acceleration: self.max_acceleration,
            max_accel_to_decel: self.max_accel_to_decel,
            minimum_cruise_ratio: self.minimum_cruise_ratio,
            square_corner_velocity: self.square_corner_velocity,
            junction_deviation: self.junction_deviation,
            mcr_pseudo_accel: self.mcr_pseudo_accel,
            instant_corner_velocity: self.instant_corner_velocity,
            extruders: self.extruders@,
            initial_extruder: viewed(self.initial_extruder),
            firmware_retraction: self.firmware_retraction,
            mm_per_arc_segment: self.mm_per_arc_segment,
            move_checkers: self.move_checkers@,
            kinematics: self.kinematics@,
            motion_transforms: self.motion_transforms@,
            initial_coordinate_mode: self.initial_coordinate_mode,
            initial_extrusion_mode: self.initial_extrusion_mode,
            command_contracts: self.command_contracts@,
        }
    }
}

/// The extruder limits by name.
pub open spec fn extruder_limits(x: ExtrudersView) -> Seq<(Seq<char>, ExtruderLimits)> {
    Seq::new(x.len(), |i: int| (x[i].0, x[i].1.limits()))
}

/// Takes over the limits of extruders.
pub fn apply_extruder_limits(limits: &mut PrinterLimits, extruders: &Table<ExtruderSnapshot>)
    ensures
        final(limits).extruders@ == extruder_limits(extruders@),
        *final(limits) == (PrinterLimits { extruders: final(limits).extruders, ..*old(limits) }),
{
    let mut table: Table<ExtruderLimits> = Table::new();
    let mut i: usize = 0;
    while i < extruders.len()
        invariant
            i <= extruders@.len(),
            table@ == extruder_limits(extruders@).take(i as int),
        decreases extruders@.len() - i,
    {
        let name: String = extruders.key_at(i).to_owned();
        let ghost before = table@;
        let ghost n = name@;
        let x: ExtruderLimits = extruders.value_at(i).limits();
        table.entries.push((name, x));
        assert(table@ == before.push((n, x)));
        assert(extruder_limits(extruders@).take(i + 1) == extruder_limits(extruders@).take(
            i as int,
        ).push((n, x)));
        i = i + 1;
    }
    assert(extruder_limits(extruders@).take(i as int) == extruder_limits(extruders@));
    limits.extruders = table;
}

/// Firmware retraction as its object describes it.
pub open spec fn retraction_of(o: ObjectView) -> Outcome<FirmwareRetractionOptions> {
    let path = "firmware_retraction"@;
    match (
        needed(o, path, "retract_length"@),
        needed(o, path, "unretract_extra_length"@),
        needed(o, path, "unretract_speed"@),
        needed(o, path, "retract_speed"@),
    ) {
        (Err(e), _, _, _) => Err(e),
        (_, Err(e), _, _) => Err(e),
        (_, _, Err(e), _) => Err(e),
        (_, _, _, Err(e)) => Err(e),
        (
            Ok(retract_length),
            Ok(unretract_extra_length),
            Ok(unretract_speed),
            Ok(retract_speed),
        ) => Ok(
            FirmwareRetractionOptions {
                retract_length,
                unretract_extra_length,
                unretract_speed,
                retract_speed,
                lift_z: number_else(o, "lift_z"@, num(ZERO)),
            },
        ),
    }
}

fn read_retraction(o: &Object) -> (r: Result<FirmwareRetractionOptions, SnapshotError>)
    ensures
        outcome(r) == retraction_of(o.deep_view()),
{
    Ok(
        FirmwareRetractionOptions {
            retract_length: number(o, "firmware_retraction", "retract_length")?,
            unretract_extra_length: number(o, "firmware_retraction", "unretract_extra_length")?,
            unretract_speed: number(o, "firmware_retraction", "unretract_speed")?,
            retract_speed: number(o, "firmware_retraction", "retract_speed")?,
            lift_z: number_or_else(o, "lift_z", num(ZERO)),
        },
    )
}

/// Firmware retraction of the settings.
pub open spec fn settings_retraction(s: SettingsView) -> Outcome<
    Option<FirmwareRetractionOptions>,
> {
    match object_in(s, "firmware_retraction"@) {
        None => Ok(None),
        Some(o) => match retraction_of(o) {
            Ok(options) => Ok(Some(options)),
            Err(e) => Err(e),
        },
    }
}

fn read_settings_retraction(s: &Settings) -> (r: Result<
    Option<FirmwareRetractionOptions>,
    SnapshotError,
>)
    ensures
        outcome(r) == settings_retraction(s.deep_view()),
{
    match optional_object(s, "firmware_retraction") {
        Some(o) => Ok(Some(read_retraction(o)?)),
        None => Ok(None),
    }
}

/// The limiter of an axis, if both of its limits are set.
pub open spec fn axis_limiter(
    p: ObjectView,
    axis: Vec3,
    velocity: Seq<char>,
    accel: Seq<char>,
) -> Seq<MoveChecker> {
    match (number_of(p, velocity), number_of(p, accel)) {
        (Some(max_velocity), Some(max_accel)) => seq![
            MoveChecker::AxisLimiter { axis, max_velocity, max_accel },
        ],
        _ => Seq::empty(),
    }
}

#[verifier::allow_in_spec]
pub fn unit(x: u64, y: u64, z: u64) -> Vec3
    returns
        (Vec3 { x: num(x), y: num(y), z: num(z) }),
{
    Vec3 { x: num(x), y: num(y), z: num(z) }
}

/// The limiters of all axes.
pub open spec fn axis_limiters(p: ObjectView) -> Seq<MoveChecker> {
    axis_limiter(p, unit(ONE, ZERO, ZERO), "max_x_velocity"@, "max_x_accel"@) + axis_limiter(
        p,
        unit(ZERO, ONE, ZERO),
        "max_y_velocity"@,
        "max_y_accel"@,
    ) + axis_limiter(p, unit(ZERO, ZERO, ONE), "max_z_velocity"@, "max_z_accel"@)
}

fn add_axis_limiter(
    checkers: &mut Vec<MoveChecker>,
    p: &Object,
    axis: Vec3,
    velocity: &str,
    accel: &str,
)
    ensures
        final(checkers)@ == old(checkers)@ + axis_limiter(
            p.deep_view(),
            axis,
            velocity@,
            accel@,
        ),
{
    let ghost before = checkers@;
    if let (Some(max_velocity), Some(max_accel)) = (
        optional_number(p, velocity),
        optional_number(p, accel),
    ) {
        checkers.push(MoveChecker::AxisLimiter { axis, max_velocity, max_accel });
        assert(checkers@ == before + seq![
            MoveChecker::AxisLimiter { axis, max_velocity, max_accel },
        ]);
    } else {
        assert(before + Seq::<MoveChecker>::empty() == before);
    }
}

/// The cruise ratio and the deceleration limit that a printer is set to.
pub open spec fn cruise_of(p: ObjectView) -> (Option<Double>, Option<Double>) {
    match (number_of(p, "minimum_cruise_ratio"@), number_of(p, "max_accel_to_decel"@)) {
        (Some(v), _) => (Some(v.clamp(num(ZERO), num(ONE))), None),
        (None, Some(v)) => (None, Some(v)),
        (None, None) => (None, Some(num(FIFTY))),
    }
}

/// The limits that settings decide.
pub open spec fn limits_of(s: SettingsView, x: ExtrudersView, cosine: Double) -> Outcome<
    LimitsView,
> {
    let path = "configfile.settings.printer"@;
    match (object_in(s, "printer"@), lookup(x, "extruder"@)) {
        (None, _) => Err(SnapshotError::MissingField(path)),
        (_, None) => Err(SnapshotError::MissingField("configfile.settings.extruder"@)),
        (Some(p), Some(primary)) => match (
            needed(p, path, "max_velocity"@),
            needed(p, path, "max_accel"@),
            needed(p, path, "square_corner_velocity"@),
            kinematics_of(s, p, cosine),
            settings_retraction(s),
        ) {
            (Err(e), _, _, _, _) => Err(e),
            (_, Err(e), _, _, _) => Err(e),
            (_, _, Err(e), _, _) => Err(e),
            (_, _, _, Err(e), _) => Err(e),
            (_, _, _, _, Err(e)) => Err(e),
            (Ok(max_velocity), Ok(a), Ok(scv), Ok(kinematics), Ok(firmware_retraction)) => {
                let (ratio, decel) = cruise_of(p);
                Ok(
                    LimitsView {
                        max_velocity,
                        max_acceleration: a,
                        max_accel_to_decel: decel,
                        minimum_cruise_ratio: ratio,
                        square_corner_velocity: scv,
                        junction_deviation: scv_to_jd(scv, a),
                        mcr_pseudo_accel: pseudo_accel(ratio, decel, a),
                        instant_corner_velocity: primary.instantaneous_corner_velocity,
                        extruders: extruder_limits(x),
                        initial_extruder: None,
                        firmware_retraction,
                        mm_per_arc_segment: match object_in(s, "gcode_arcs"@) {
                            Some(o) => number_of(o, "resolution"@),
                            None => None,
                        },
                        move_checkers: axis_limiters(p),
                        kinematics,
                        motion_transforms: settings_transforms(s),
                        initial_coordinate_mode: PositionMode::Absolute,
                        initial_extrusion_mode: PositionMode::Relative,
                        command_contracts: Seq::empty(),
                    },
                )
            },
        },
    }
}

/// The limits that settings decide; everything else is as in generic limits.
pub fn limits_from_settings(s: &Settings, extruders: &Table<ExtruderSnapshot>, cosine: Double) -> (r:
    Result<PrinterLimits, SnapshotError>)
    ensures
        limits_of(s.deep_view(), extruders@, cosine) == match r {
            Ok(l) => Ok(l@),
            Err(e) => Err(e@),
        },
{
    let path: &str = "configfile.settings.printer";
    let printer: &Object = match optional_object(s, "printer") {
        Some(o) => o,
        None => {
            return Err(SnapshotError::MissingField("configfile.settings.printer".to_owned()));
        },
    };
    let primary: &ExtruderSnapshot = match extruders.get("extruder") {
        Some(x) => x,
        None => {
            return Err(SnapshotError::MissingField("configfile.settings.extruder".to_owned()));
        },
    };
    let mut limits: PrinterLimits = PrinterLimits::default();
    proof {
        assert(limits.command_contracts@ == Seq::<(Seq<char>, CommandContract)>::empty());
    }
    limits.set_max_velocity(number(printer, path, "max_velocity")?);
    limits.set_max_acceleration(number(printer, path, "max_accel")?);
    if let Some(value) = optional_number(printer, "minimum_cruise_ratio") {
        limits.set_minimum_cruise_ratio(value);
    } else if let Some(value) = optional_number(printer, "max_accel_to_decel") {
        limits.set_max_accel_to_decel(value);
    }
    limits.set_square_corner_velocity(number(printer, path, "square_corner_velocity")?);
    limits.set_instant_corner_velocity(primary.instantaneous_corner_velocity);
    apply_extruder_limits(&mut limits, extruders);
    limits.kinematics = kinematics_from_settings(s, printer, cosine)?;
    let mut checkers: Vec<MoveChecker> = Vec::new();
    add_axis_limiter(
        &mut checkers,
        printer,
        unit(ONE, ZERO, ZERO),
        "max_x_velocity",
        "max_x_accel",
    );
    add_axis_limiter(
        &mut checkers,
        printer,
        unit(ZERO, ONE, ZERO),
        "max_y_velocity",
        "max_y_accel",
    );
    add_axis_limiter(
        &mut checkers,
        printer,
        unit(ZERO, ZERO, ONE),
        "max_z_velocity",
        "max_z_accel",
    );
    assert(checkers@ == axis_limiters(printer.deep_view()));
    limits.move_checkers = checkers;
    limits.firmware_retraction = read_settings_retraction(s)?;
    limits.mm_per_arc_segment = match optional_object(s, "gcode_arcs") {
        Some(o) => optional_number(o, "resolution"),
        None => None,
    };
    limits.motion_transforms = transforms_from_settings(s);
    Ok(limits)
}

/// The coordinate mode that a flag stands for.
pub open spec fn mode_of(o: ObjectView, field: Seq<char>) -> Outcome<PositionMode> {
    match lookup(o, field) {
        Some(Item::Flag(true)) => Ok(PositionMode::Absolute),
        Some(Item::Flag(false)) => Ok(PositionMode::Relative),
        _ => Err(SnapshotError::MissingField(dotted("gcode_move"@, field))),
    }
}

pub fn bool_mode(o: &Object, field: &str) -> (r: Result<PositionMode, SnapshotError>)
    ensures
        outcome(r) == mode_of(o.deep_view(), field@),
{
    match o.find(field) {
        Some(Item::Flag(absolute)) => if *absolute {
            Ok(PositionMode::Absolute)
        } else {
            Ok(PositionMode::Relative)
        },
        _ => Err(SnapshotError::MissingField(dot("gcode_move", field))),
    }
}

/// The limits with the state of a running printer.
pub open spec fn at_runtime(l: LimitsView, toolhead: ObjectView, gcode_move: ObjectView) -> Outcome<
    LimitsView,
> {
    match (
        needed(toolhead, "toolhead"@, "max_velocity"@),
        needed(toolhead, "toolhead"@, "max_accel"@),
        needed(toolhead, "toolhead"@, "square_corner_velocity"@),
        needed(toolhead, "toolhead"@, "minimum_cruise_ratio"@),
        text_in(toolhead, "extruder"@),
    ) {
        (Err(e), _, _, _, _) => Err(e),
        (_, Err(e), _, _, _) => Err(e),
        (_, _, Err(e), _, _) => Err(e),
        (_, _, _, Err(e), _) => Err(e),
        (_, _, _, _, None) => Err(SnapshotError::MissingField("toolhead.extruder"@)),
        (Ok(max_velocity), Ok(a), Ok(scv), Ok(r), Some(active)) => {
            let ratio = Some(r.clamp(num(ZERO), num(ONE)));
            if !has_key(l.extruders, active) {
                Err(SnapshotError::UnknownActiveExtruder(active))
            } else {
                match (
                    mode_of(gcode_move, "absolute_coordinates"@),
                    mode_of(gcode_move, "absolute_extrude"@),
                ) {
                    (Err(e), _) => Err(e),
                    (_, Err(e)) => Err(e),
                    (Ok(initial_coordinate_mode), Ok(initial_extrusion_mode)) => Ok(
                        LimitsView {
                            max_velocity,
                            max_acceleration: a,
                            max_accel_to_decel: None,
                            minimum_cruise_ratio: ratio,
                            square_corner_velocity: scv,
                            junction_deviation: scv_to_jd(scv, a),
                            mcr_pseudo_accel: pseudo_accel(ratio, None, a),
                            initial_extruder: Some(active),
                            initial_coordinate_mode,
                            initial_extrusion_mode,
                            ..l
                        },
                    ),
                }
            }
        },
    }
}

/// Applies the state of a running printer.
pub fn apply_runtime_limits(limits: &mut PrinterLimits, toolhead: &Object, gcode_move: &Object) -> (r:
    Result<(), SnapshotError>)
    ensures
        match (r, at_runtime(old(limits)@, toolhead.deep_view(), gcode_move.deep_view())) {
            (Ok(()), Ok(l)) => final(limits)@ == l,
            (Err(e), Err(f)) => e@ == f,
            _ => false,
        },
        final(limits).motion_transforms == old(limits).motion_transforms,
        final(limits).command_contracts == old(limits).command_contracts,
{
    limits.set_max_velocity(number(toolhead, "toolhead", "max_velocity")?);
    limits.set_max_acceleration(number(toolhead, "toolhead", "max_accel")?);
    limits.set_square_corner_velocity(number(toolhead, "toolhead", "square_corner_velocity")?);
    limits.set_minimum_cruise_ratio(number(toolhead, "toolhead", "minimum_cruise_ratio")?);
    let active: &str = match optional_text(toolhead, "extruder") {
        Some(t) => t,
        None => {
            return Err(SnapshotError::MissingField("toolhead.extruder".to_owned()));
        },
    };
    if !limits.extruders.contains_key(active) {
        return Err(SnapshotError::UnknownActiveExtruder(active.to_owned()));
    }
    limits.initial_extruder = Some(active.to_owned());
    limits.initial_coordinate_mode = bool_mode(gcode_move, "absolute_coordinates")?;
    limits.initial_extrusion_mode = bool_mode(gcode_move, "absolute_extrude")?;
    Ok(())
}

/// The first of the required objects that a printer does not have.
pub open spec fn missing_object(available: Seq<Seq<char>>) -> Option<Seq<char>> {
    if !available.contains("configfile"@) {
        Some("configfile"@)
    } else if !available.contains("toolhead"@) {
        Some("toolhead"@)
    } else if !available.contains("gcode_move"@) {
        Some("gcode_move"@)
    } else if !available.contains("extruder"@) {
        Some("extruder"@)
    } else {
        None
    }
}

fn offers(available: &Vec<String>, name: &str) -> (r: bool)
    ensures
        r == texts(available@).contains(name@),
{
    let mut i: usize = 0;
    while i < available.len()
        invariant
            i <= available@.len(),
            forall|k: int| 0 <= k < i ==> texts(available@)[k] != name@,
        decreases available.len() - i,
    {
        assert(texts(available@)[i as int] == available@[i as int]@);
        if same(available[i].as_str(), name) {
            return true;
        }
        i = i + 1;
    }
    false
}

/// Checks that a printer has the required objects.
pub fn check_objects(available: &Vec<String>) -> (r: Result<(), SnapshotError>)
    ensures
        match (r, missing_object(texts(available@))) {
            (Ok(()), None) => true,
            (Err(e), Some(name)) => e@ == SnapshotError::MissingObject(name),
            _ => false,
        },
{
    if !offers(available, "configfile") {
        return Err(SnapshotError::MissingObject("configfile".to_owned()));
    }
    if !offers(available, "toolhead") {
        return Err(SnapshotError::MissingObject("toolhead".to_owned()));
    }
    if !offers(available, "gcode_move") {
        return Err(SnapshotError::MissingObject("gcode_move".to_owned()));
    }
    if !offers(available, "extruder") {
        return Err(SnapshotError::MissingObject("extruder".to_owned()));
    }
    Ok(())
}

/// Objects to ask for, each with the fields that are wanted of it, or all.
pub type Requests = Table<Option<Vec<String>>>;

pub type RequestsView = Seq<(Seq<char>, Option<Seq<Seq<char>>>)>;

/// What is asked of every printer.
pub open spec fn base_requests() -> RequestsView {
    let none = RequestsView::empty();
    let a = inserted(none, "configfile"@, Some(seq!["settings"@]));
    let b = inserted(a, "toolhead"@, None);
    inserted(b, "gcode_move"@, None)
}

/// The objects that are asked for where a printer has them.
pub open spec fn optional_requests(available: Seq<Seq<char>>) -> RequestsView {
    let a = extruder_requests(available, available.len() as int);
    let b = optional_request(a, available, "firmware_retraction"@);
    let c = optional_request(b, available, "gcode_arcs"@);
    let d = optional_request(c, available, "bed_mesh"@);
    let e = optional_request(d, available, "skew_correction"@);
    let f = optional_request(e, available, "bed_tilt"@);
    let g = optional_request(f, available, "z_thermal_adjust"@);
    optional_request(g, available, "exclude_object"@)
}

/// The requests with those for the extruders among the first `i` objects.
pub open spec fn extruder_requests(available: Seq<Seq<char>>, i: int) -> RequestsView
    decreases i,
{
    if i <= 0 {
        base_requests()
    } else if names_extruder(available[i - 1]) {
        inserted(extruder_requests(available, i - 1), available[i - 1], None)
    } else {
        extruder_requests(available, i - 1)
    }
}

/// The requests with one for an object that a printer may have.
pub open spec fn optional_request(r: RequestsView, available: Seq<Seq<char>>, name: Seq<char>) -> RequestsView {
    if available.contains(name) {
        inserted(r, name, None)
    } else {
        r
    }
}

/// The objects to ask a printer for.
pub fn requested_objects(available: &Vec<String>) -> (r: Requests)
    ensures
        r.deep_view() == optional_requests(texts(available@)),
{
    let ghost v = texts(available@);
    let mut objects: Requests = Table::new();
    assert(objects.deep_view() == RequestsView::empty());
    let mut fields: Vec<String> = Vec::new();
    fields.push("settings".to_owned());
    assert(fields.deep_view() == seq!["settings"@]);
    objects.put("configfile", Some(fields));
    objects.put("toolhead", None);
    objects.put("gcode_move", None);
    let mut i: usize = 0;
    while i < available.len()
        invariant
            i <= available@.len(),
            v == texts(available@),
            objects.deep_view() == extruder_requests(v, i as int),
        decreases available.len() - i,
    {
        let name: &str = available[i].as_str();
        assert(v[i as int] == name@);
        if is_extruder_object(name) {
            objects.put(name, None);
        }
        i = i + 1;
    }
    if offers(available, "firmware_retraction") {
        objects.put("firmware_retraction", None);
    }
    if offers(available, "gcode_arcs") {
        objects.put("gcode_arcs", None);
    }
    if offers(available, "bed_mesh") {
        objects.put("bed_mesh", None);
    }
    if offers(available, "skew_correction") {
        objects.put("skew_correction", None);
    }
    if offers(available, "bed_tilt") {
        objects.put("bed_tilt", None);
    }
    if offers(available, "z_thermal_adjust") {
        objects.put("z_thermal_adjust", None);
    }
    if offers(available, "exclude_object") {
        objects.put("exclude_object", None);
    }
    objects
}

} // verus!
