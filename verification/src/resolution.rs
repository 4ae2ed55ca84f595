//! Settings from the sections of configuration files.

use vstd::prelude::*;

use crate::constants::FIFTY;
use crate::constants::FIVE;
use crate::constants::FOUR;
use crate::constants::HALF;
use crate::constants::HUNDRED_FIFTY;
use crate::constants::NINETY;
use crate::constants::PI;
use crate::constants::TEN;
use crate::constants::THIRTY;
use crate::constants::THREE;
use crate::constants::THREE_HUNDRED_THIRTY;
use crate::constants::TWENTY;
use crate::constants::TWO_HUNDRED;
use crate::constants::TWO_HUNDRED_SEVENTY;
use crate::constants::TWO_HUNDRED_TEN;
use crate::decimal::all_digits;
use crate::decimal::digits_value;
use crate::decimal::is_digit;
use crate::decimal::lemma_digits_push;
use crate::decimal::parse_double;
use crate::decimal::parsed;
use crate::double::num;
use crate::double::Double;
use crate::double::ONE;
use crate::double::ZERO;
use crate::errors::deep_outcome;
use crate::errors::outcome;
use crate::errors::Outcome;
use crate::errors::SnapshotError;
use crate::kinematics::least3;
use crate::machine::cartesian_kind;
use crate::machine::find_cartesian_kind;
use crate::offline::Options;
use crate::offline::OptionsView;
use crate::offline::Sections;
use crate::offline::SectionsView;
use crate::saved_transforms::add_transforms;
use crate::saved_transforms::transform_section;
use crate::saved_transforms::transforms_leave_the_rest_alone;
use crate::saved_transforms::with_transforms;
use crate::settings::is_extruder_object;
use crate::settings::names_extruder;
use crate::settings::object_in;
use crate::settings::Entry;
use crate::settings::Item;
use crate::settings::ItemView;
use crate::settings::Object;
use crate::settings::ObjectView;
use crate::settings::Settings;
use crate::settings::SettingsView;
use crate::shortest::format_shortest;
use crate::shortest::shortest;
use crate::table::has_key;
use crate::table::in_order;
use crate::table::lemma_before_irreflexive;
use crate::table::lemma_lookup_inserted;
use crate::table::lemma_position;
use crate::table::inserted;
use crate::table::lookup;
use crate::table::position;
use crate::table::Table;
use crate::text::after_prefix;
use crate::text::chars_of;
use crate::text::has_prefix;
use crate::text::same;
use crate::text::split;
use crate::text::split_char;
use crate::text::strip_prefix;
use crate::text::trim;
use crate::text::trimmed;
use crate::text::views;

verus! {

/// The numbers that an option accepts.
#[derive(Clone, Copy, Debug)]
pub enum Range {
    Finite,
    Above(Double),
    AtLeast(Double),
    AboveUpTo(Double, Double),
    Within(Double, Double),
    AtLeastBelow(Double, Double),
    /// At least one, and a multiple of four.
    Steps,
}

impl Range {
    pub open spec fn spec_admits(self, x: Double) -> bool {
        match self {
            Range::Finite => true,
            Range::Above(a) => x > a,
            Range::AtLeast(a) => x >= a,
            Range::AboveUpTo(a, b) => x > a && x <= b,
            Range::Within(a, b) => x >= a && x <= b,
            Range::AtLeastBelow(a, b) => x >= a && x < b,
            Range::Steps => x >= num(ONE) && x.rem(num(FOUR)).equals(num(ZERO)),
        }
    }

    pub fn admits(&self, x: Double) -> (r: bool)
        ensures
            r == self.spec_admits(x),
    {
        match *self {
            Range::Finite => true,
            Range::Above(a) => x > a,
            Range::AtLeast(a) => x >= a,
            Range::AboveUpTo(a, b) => x > a && x <= b,
            Range::Within(a, b) => x >= a && x <= b,
            Range::AtLeastBelow(a, b) => x >= a && x < b,
            Range::Steps => x >= num(ONE) && x.rem(num(FOUR)) == num(ZERO),
        }
    }
}

/// The number that the text of an option stands for.
pub open spec fn float_of(section: Seq<char>, option: Seq<char>, value: Seq<char>, range: Range) -> Outcome<
    Double,
> {
    let fault: SnapshotError<Seq<char>> = SnapshotError::OfflineValue {
        section,
        option,
        value,
        message: "value is outside the range accepted by Klipper"@,
    };
    match parsed(value) {
        Some(x) => if x.is_finite() && range.spec_admits(x) {
            Ok(x)
        } else {
            Err(fault)
        },
        None => Err(fault),
    }
}

pub fn parse_float(section: &str, option: &str, value: &str, range: Range) -> (r: Result<
    Double,
    SnapshotError,
>)
    ensures
        outcome(r) == float_of(section@, option@, value@, range),
{
    if let Some(x) = parse_double(value) {
        if x.is_finite() && range.admits(x) {
            return Ok(x);
        }
    }
    Err(
        SnapshotError::OfflineValue {
            section: section.to_owned(),
            option: option.to_owned(),
            value: value.to_owned(),
            message: "value is outside the range accepted by Klipper".to_owned(),
        },
    )
}

pub open spec fn no_option(section: Seq<char>, option: Seq<char>) -> SnapshotError<Seq<char>> {
    SnapshotError::OfflineMissingOption { section, option }
}

fn missing_option(section: &str, option: &str) -> (r: SnapshotError)
    ensures
        r@ == no_option(section@, option@),
{
    SnapshotError::OfflineMissingOption { section: section.to_owned(), option: option.to_owned() }
}

/// The number of an option that must be set.
pub open spec fn required(o: OptionsView, section: Seq<char>, option: Seq<char>, range: Range) -> Outcome<
    Double,
> {
    match lookup(o, option) {
        Some(value) => float_of(section, option, value, range),
        None => Err(no_option(section, option)),
    }
}

pub fn required_float(options: &Options, section: &str, option: &str, range: Range) -> (r: Result<
    Double,
    SnapshotError,
>)
    ensures
        outcome(r) == required(options.deep_view(), section@, option@, range),
{
    match options.find(option) {
        Some(value) => parse_float(section, option, value.as_str(), range),
        None => Err(missing_option(section, option)),
    }
}

/// The number of an option, or its default.
pub open spec fn optional(
    o: OptionsView,
    section: Seq<char>,
    option: Seq<char>,
    default: Double,
    range: Range,
) -> Outcome<Double> {
    match lookup(o, option) {
        Some(value) => float_of(section, option, value, range),
        None => Ok(default),
    }
}

pub fn optional_float(
    options: &Options,
    section: &str,
    option: &str,
    default: Double,
    range: Range,
) -> (r: Result<Double, SnapshotError>)
    ensures
        outcome(r) == optional(options.deep_view(), section@, option@, default, range),
{
    match options.find(option) {
        Some(value) => parse_float(section, option, value.as_str(), range),
        None => Ok(default),
    }
}

/// The ratio of a gear stage, such as `80:16`.
pub open spec fn stage_of(stage: Seq<char>) -> Option<(Double, Double)> {
    let parts = split(stage, ':');
    if parts.len() != 2 {
        None
    } else {
        match (parsed(trim(parts[0])), parsed(trim(parts[1]))) {
            (Some(a), Some(b)) => if a > num(ZERO) && b > num(ZERO) {
                Some((a, b))
            } else {
                None
            },
            _ => None,
        }
    }
}

fn parse_stage(stage: &str) -> (r: Option<(Double, Double)>)
    ensures
        r == stage_of(stage@),
{
    let parts: Vec<&str> = split_char(stage, ':');
    assert(views(parts@).len() == parts@.len());
    if parts.len() != 2 {
        return None;
    }
    assert(views(parts@)[0] == parts@[0]@ && views(parts@)[1] == parts@[1]@);
    match (parse_double(trimmed(parts[0])), parse_double(trimmed(parts[1]))) {
        (Some(a), Some(b)) => if a > num(ZERO) && b > num(ZERO) {
            Some((a, b))
        } else {
            None
        },
        _ => None,
    }
}

/// The product of the first `i` gear stages.
pub open spec fn stages_product(stages: Seq<Seq<char>>, i: int) -> Option<Double>
    decreases i,
{
    if i <= 0 {
        Some(num(ONE))
    } else {
        match (stages_product(stages, i - 1), stage_of(stages[i - 1])) {
            (Some(ratio), Some((a, b))) => Some(ratio * a / b),
            _ => None,
        }
    }
}

proof fn lemma_stage_fails(stages: Seq<Seq<char>>, i: int, j: int)
    requires
        0 <= i < j <= stages.len(),
        stage_of(stages[i]) is None,
    ensures
        stages_product(stages, j) is None,
    decreases j,
{
    if i < j - 1 {
        lemma_stage_fails(stages, i, j - 1);
    }
}

fn multiply_stages(value: &str) -> (r: Option<Double>)
    ensures
        r == stages_product(split(value@, ','), split(value@, ',').len() as int),
{
    let stages: Vec<&str> = split_char(value, ',');
    let ghost v = split(value@, ',');
    let mut ratio: Double = num(ONE);
    let mut i: usize = 0;
    while i < stages.len()
        invariant
            i <= stages@.len(),
            v == views(stages@),
            v == split(value@, ','),
            stages_product(v, i as int) == Some(ratio),
        decreases stages.len() - i,
    {
        assert(v[i as int] == stages@[i as int]@);
        match parse_stage(stages[i]) {
            Some((a, b)) => {
                ratio = ratio * a / b;
            },
            None => {
                proof {
                    lemma_stage_fails(v, i as int, v.len() as int);
                }
                return None;
            },
        }
        i = i + 1;
    }
    Some(ratio)
}

/// The gear ratio of a stepper section.
pub open spec fn section_gearing(o: OptionsView, section: Seq<char>) -> Outcome<Double> {
    match lookup(o, "gear_ratio"@) {
        None => Ok(num(ONE)),
        Some(value) => match stages_product(split(value, ','), split(value, ',').len() as int) {
            Some(ratio) => Ok(ratio),
            None => Err(
                SnapshotError::OfflineValue {
                    section,
                    option: "gear_ratio"@,
                    value,
                    message: "expected one or more positive numerator:denominator pairs"@,
                },
            ),
        },
    }
}

fn read_gearing(options: &Options, section: &str) -> (r: Result<Double, SnapshotError>)
    ensures
        outcome(r) == section_gearing(options.deep_view(), section@),
{
    match options.find("gear_ratio") {
        None => Ok(num(ONE)),
        Some(value) => match multiply_stages(value.as_str()) {
            Some(ratio) => Ok(ratio),
            None => Err(
                SnapshotError::OfflineValue {
                    section: section.to_owned(),
                    option: "gear_ratio".to_owned(),
                    value: value.clone(),
                    message: "expected one or more positive numerator:denominator pairs".to_owned(),
                },
            ),
        },
    }
}

/// The step distance of a stepper section.
pub open spec fn section_step_distance(o: OptionsView, section: Seq<char>) -> Outcome<Double> {
    match (
        required(o, section, "rotation_distance"@, Range::Above(num(ZERO))),
        required(o, section, "microsteps"@, Range::AtLeast(num(ONE))),
        optional(o, section, "full_steps_per_rotation"@, num(TWO_HUNDRED), Range::Steps),
        section_gearing(o, section),
    ) {
        (Err(e), _, _, _) => Err(e),
        (_, Err(e), _, _) => Err(e),
        (_, _, Err(e), _) => Err(e),
        (_, _, _, Err(e)) => Err(e),
        (Ok(rotation), Ok(microsteps), Ok(full), Ok(gearing)) => Ok(
            rotation / (microsteps * full * gearing),
        ),
    }
}

pub fn offline_step_distance(options: &Options, section: &str) -> (r: Result<
    Double,
    SnapshotError,
>)
    ensures
        outcome(r) == section_step_distance(options.deep_view(), section@),
{
    let rotation: Double = required_float(
        options,
        section,
        "rotation_distance",
        Range::Above(num(ZERO)),
    )?;
    let microsteps: Double = required_float(
        options,
        section,
        "microsteps",
        Range::AtLeast(num(ONE)),
    )?;
    let full: Double = optional_float(
        options,
        section,
        "full_steps_per_rotation",
        num(TWO_HUNDRED),
        Range::Steps,
    )?;
    let gearing: Double = read_gearing(options, section)?;
    Ok(rotation / (microsteps * full * gearing))
}

/// An object with a number set. What is not finite is no number there.
pub open spec fn with_number(o: ObjectView, field: Seq<char>, x: Double) -> ObjectView {
    inserted(
        o,
        field,
        if x.is_finite() {
            Item::Number(x)
        } else {
            Item::Other
        },
    )
}

pub open spec fn empty_object() -> ObjectView {
    Seq::empty()
}

pub fn new_object() -> (r: Object)
    ensures
        r.deep_view() == empty_object(),
{
    let r: Object = Table::new();
    assert(r.deep_view() == empty_object());
    r
}

pub fn set_number(o: &mut Object, field: &str, x: Double)
    ensures
        final(o).deep_view() == with_number(old(o).deep_view(), field@, x),
{
    let item: Item = if x.is_finite() {
        Item::Number(x)
    } else {
        Item::Other
    };
    o.put(field, item);
}

/// The options of a section that must exist.
pub open spec fn section_of(s: SectionsView, section: Seq<char>, option: Seq<char>) -> Outcome<
    OptionsView,
> {
    match lookup(s, section) {
        Some(o) => Ok(o),
        None => Err(no_option(section, option)),
    }
}

fn find_section<'a>(s: &'a Sections, section: &str, option: &str) -> (r: Result<
    &'a Options,
    SnapshotError,
>)
    ensures
        section_of(s.deep_view(), section@, option@) == match r {
            Ok(o) => Ok(o.deep_view()),
            Err(e) => Err(e@),
        },
{
    match s.find(section) {
        Some(o) => Ok(o),
        None => Err(missing_option(section, option)),
    }
}

/// A number along Z: as set, no faster than in general, or the general limit for a backend
/// that has one.
pub open spec fn z_limit(
    printer: OptionsView,
    option: Seq<char>,
    general: Double,
    defaulted: bool,
) -> Outcome<Option<Double>> {
    match lookup(printer, option) {
        Some(value) => match float_of(
            "printer"@,
            option,
            value,
            Range::AboveUpTo(num(ZERO), general),
        ) {
            Ok(x) => Ok(Some(x)),
            Err(e) => Err(e),
        },
        None => if defaulted {
            Ok(Some(general))
        } else {
            Ok(None)
        },
    }
}

fn read_z_limit(printer: &Options, option: &str, general: Double, defaulted: bool) -> (r: Result<
    Option<Double>,
    SnapshotError,
>)
    ensures
        outcome(r) == z_limit(printer.deep_view(), option@, general, defaulted),
{
    match printer.find(option) {
        Some(value) => {
            let x: Double = parse_float(
                "printer",
                option,
                value.as_str(),
                Range::AboveUpTo(num(ZERO), general),
            )?;
            Ok(Some(x))
        },
        None => if defaulted {
            Ok(Some(general))
        } else {
            Ok(None)
        },
    }
}

/// Whether a backend has limits along Z.
pub open spec fn limits_z(kinematics: Option<Seq<char>>) -> bool {
    match kinematics {
        Some(k) => cartesian_kind(k) is Some || k == "generic_cartesian"@ || k == "delta"@ || k
            == "polar"@ || k == "deltesian"@ || k == "rotary_delta"@,
        None => false,
    }
}

fn has_z_limits(kinematics: Option<&str>) -> (r: bool)
    ensures
        r == limits_z(
            match kinematics {
                Some(k) => Some(k@),
                None => None,
            },
        ),
{
    match kinematics {
        Some(k) => find_cartesian_kind(k).is_some() || same(k, "generic_cartesian") || same(
            k,
            "delta",
        ) || same(k, "polar") || same(k, "deltesian") || same(k, "rotary_delta"),
        None => false,
    }
}

/// The part of the printer's settings that every backend has.
pub open spec fn printer_settings(
    printer: OptionsView,
    max_velocity: Double,
    max_accel: Double,
) -> Outcome<ObjectView> {
    let kinematics = lookup(printer, "kinematics"@);
    match (
        optional(
            printer,
            "printer"@,
            "minimum_cruise_ratio"@,
            num(HALF),
            Range::AtLeastBelow(num(ZERO), num(ONE)),
        ),
        optional(
            printer,
            "printer"@,
            "square_corner_velocity"@,
            num(FIVE),
            Range::AtLeast(num(ZERO)),
        ),
        z_limit(printer, "max_accel_to_decel"@, max_accel, false),
        z_limit(printer, "max_z_velocity"@, max_velocity, limits_z(kinematics)),
        z_limit(
            printer,
            "max_z_accel"@,
            max_accel,
            limits_z(kinematics) && kinematics != Some("rotary_delta"@),
        ),
    ) {
        (Err(e), _, _, _, _) => Err(e),
        (_, Err(e), _, _, _) => Err(e),
        (_, _, Err(e), _, _) => Err(e),
        (_, _, _, Err(e), _) => Err(e),
        (_, _, _, _, Err(e)) => Err(e),
        (Ok(ratio), Ok(corner), Ok(decel), Ok(z_velocity), Ok(z_accel)) => {
            let a = with_number(empty_object(), "max_velocity"@, max_velocity);
            let b = with_number(a, "max_accel"@, max_accel);
            let c = with_number(b, "minimum_cruise_ratio"@, ratio);
            let d = with_number(c, "square_corner_velocity"@, corner);
            let e = match kinematics {
                Some(k) => inserted(d, "kinematics"@, Item::Text(k)),
                None => d,
            };
            let f = with_optional(e, "max_accel_to_decel"@, decel);
            let g = with_optional(f, "max_z_velocity"@, z_velocity);
            Ok(with_optional(g, "max_z_accel"@, z_accel))
        },
    }
}

/// An object with a number set that there may be.
pub open spec fn with_optional(o: ObjectView, field: Seq<char>, x: Option<Double>) -> ObjectView {
    match x {
        Some(v) => with_number(o, field, v),
        None => o,
    }
}

fn set_optional(o: &mut Object, field: &str, x: Option<Double>)
    ensures
        final(o).deep_view() == with_optional(old(o).deep_view(), field@, x),
{
    if let Some(v) = x {
        set_number(o, field, v);
    }
}

fn read_printer_settings(printer: &Options, max_velocity: Double, max_accel: Double) -> (r: Result<
    Object,
    SnapshotError,
>)
    ensures
        deep_outcome(r) == printer_settings(printer.deep_view(), max_velocity, max_accel),
{
    let kinematics: Option<&str> = match printer.find("kinematics") {
        Some(k) => Some(k.as_str()),
        None => None,
    };
    let ratio: Double = optional_float(
        printer,
        "printer",
        "minimum_cruise_ratio",
        num(HALF),
        Range::AtLeastBelow(num(ZERO), num(ONE)),
    )?;
    let corner: Double = optional_float(
        printer,
        "printer",
        "square_corner_velocity",
        num(FIVE),
        Range::AtLeast(num(ZERO)),
    )?;
    let decel: Option<Double> = read_z_limit(printer, "max_accel_to_decel", max_accel, false)?;
    let limited: bool = has_z_limits(kinematics);
    let z_velocity: Option<Double> = read_z_limit(
        printer,
        "max_z_velocity",
        max_velocity,
        limited,
    )?;
    let rotary: bool = match kinematics {
        Some(k) => same(k, "rotary_delta"),
        None => false,
    };
    let z_accel: Option<Double> = read_z_limit(
        printer,
        "max_z_accel",
        max_accel,
        limited && !rotary,
    )?;
    let mut o: Object = new_object();
    set_number(&mut o, "max_velocity", max_velocity);
    set_number(&mut o, "max_accel", max_accel);
    set_number(&mut o, "minimum_cruise_ratio", ratio);
    set_number(&mut o, "square_corner_velocity", corner);
    if let Some(k) = kinematics {
        o.put("kinematics", Item::Text(k.to_owned()));
    }
    set_optional(&mut o, "max_accel_to_decel", decel);
    set_optional(&mut o, "max_z_velocity", z_velocity);
    set_optional(&mut o, "max_z_accel", z_accel);
    Ok(o)
}

/// The settings of a linear axis.
pub open spec fn axis_settings(s: SectionsView, name: Seq<char>) -> Outcome<ObjectView> {
    match section_of(s, name, "position_max"@) {
        Err(e) => Err(e),
        Ok(o) => match optional(o, name, "position_min"@, num(ZERO), Range::Finite) {
            Err(e) => Err(e),
            Ok(lo) => match required(o, name, "position_max"@, Range::Above(lo)) {
                Err(e) => Err(e),
                Ok(hi) => match required(o, name, "position_endstop"@, Range::Within(lo, hi)) {
                    Err(e) => Err(e),
                    Ok(endstop) => {
                        let a = with_number(empty_object(), "position_min"@, lo);
                        let b = with_number(a, "position_max"@, hi);
                        Ok(with_number(b, "position_endstop"@, endstop))
                    },
                },
            },
        },
    }
}

fn read_axis_settings(s: &Sections, name: &str) -> (r: Result<Object, SnapshotError>)
    ensures
        deep_outcome(r) == axis_settings(s.deep_view(), name@),
{
    let options: &Options = find_section(s, name, "position_max")?;
    let lo: Double = optional_float(options, name, "position_min", num(ZERO), Range::Finite)?;
    let hi: Double = required_float(options, name, "position_max", Range::Above(lo))?;
    let endstop: Double = required_float(
        options,
        name,
        "position_endstop",
        Range::Within(lo, hi),
    )?;
    let mut o: Object = new_object();
    set_number(&mut o, "position_min", lo);
    set_number(&mut o, "position_max", hi);
    set_number(&mut o, "position_endstop", endstop);
    Ok(o)
}

/// Settings with an object set.
pub open spec fn with_object(r: SettingsView, name: Seq<char>, o: ObjectView) -> SettingsView {
    inserted(r, name, Entry::Object(o))
}

pub open spec fn no_settings() -> SettingsView {
    Seq::empty()
}

fn new_settings() -> (r: Settings)
    ensures
        r.deep_view() == no_settings(),
{
    let r: Settings = Table::new();
    assert(r.deep_view() == no_settings());
    r
}

pub fn set_object(r: &mut Settings, name: &str, o: Object)
    ensures
        final(r).deep_view() == with_object(old(r).deep_view(), name@, o.deep_view()),
{
    r.put(name, Entry::Object(o));
}

/// What a backend adds: the settings of its steppers, and further settings of the printer.
pub type Parts = (Settings, Object);

pub type PartsView = (SettingsView, ObjectView);

pub open spec fn parts_outcome(r: Result<Parts, SnapshotError>) -> Outcome<PartsView> {
    match r {
        Ok(p) => Ok((p.0.deep_view(), p.1.deep_view())),
        Err(e) => Err(e@),
    }
}

pub open spec fn cartesian_parts(s: SectionsView, p: ObjectView) -> Outcome<PartsView> {
    match (
        axis_settings(s, "stepper_x"@),
        axis_settings(s, "stepper_y"@),
        axis_settings(s, "stepper_z"@),
    ) {
        (Err(e), _, _) => Err(e),
        (_, Err(e), _) => Err(e),
        (_, _, Err(e)) => Err(e),
        (Ok(x), Ok(y), Ok(z)) => {
            let a = with_object(no_settings(), "stepper_x"@, x);
            let b = with_object(a, "stepper_y"@, y);
            Ok((with_object(b, "stepper_z"@, z), p))
        },
    }
}

fn read_cartesian(s: &Sections, p: Object) -> (r: Result<Parts, SnapshotError>)
    ensures
        parts_outcome(r) == cartesian_parts(s.deep_view(), p.deep_view()),
{
    let x: Object = read_axis_settings(s, "stepper_x")?;
    let y: Object = read_axis_settings(s, "stepper_y")?;
    let z: Object = read_axis_settings(s, "stepper_z")?;
    let mut settings: Settings = new_settings();
    set_object(&mut settings, "stepper_x", x);
    set_object(&mut settings, "stepper_y", y);
    set_object(&mut settings, "stepper_z", z);
    Ok((settings, p))
}

/// The settings of a delta tower, and its endstop. The arm and the endstop are those of the
/// first tower where a tower sets none.
pub open spec fn delta_tower(
    s: SectionsView,
    name: Seq<char>,
    radius: Double,
    arm: Double,
    endstop: Double,
    angle: Double,
) -> Outcome<(ObjectView, Double)> {
    match section_of(s, name, "microsteps"@) {
        Err(e) => Err(e),
        Ok(o) => match (
            optional(o, name, "arm_length"@, arm, Range::Above(radius)),
            optional(o, name, "position_endstop"@, endstop, Range::Finite),
            optional(o, name, "angle"@, angle, Range::Finite),
            section_step_distance(o, name),
        ) {
            (Err(e), _, _, _) => Err(e),
            (_, Err(e), _, _) => Err(e),
            (_, _, Err(e), _) => Err(e),
            (_, _, _, Err(e)) => Err(e),
            (Ok(arm_length), Ok(position_endstop), Ok(tower_angle), Ok(step)) => {
                let a = with_number(empty_object(), "arm_length"@, arm_length);
                let b = with_number(a, "position_endstop"@, position_endstop);
                let c = with_number(b, "angle"@, tower_angle);
                Ok((with_number(c, "step_distance"@, step), position_endstop))
            },
        },
    }
}

fn read_delta_tower(
    s: &Sections,
    name: &str,
    radius: Double,
    arm: Double,
    endstop: Double,
    angle: Double,
) -> (r: Result<(Object, Double), SnapshotError>)
    ensures
        delta_tower(s.deep_view(), name@, radius, arm, endstop, angle) == match r {
            Ok(t) => Ok((t.0.deep_view(), t.1)),
            Err(e) => Err(e@),
        },
{
    let options: &Options = find_section(s, name, "microsteps")?;
    let arm_length: Double = optional_float(
        options,
        name,
        "arm_length",
        arm,
        Range::Above(radius),
    )?;
    let position_endstop: Double = optional_float(
        options,
        name,
        "position_endstop",
        endstop,
        Range::Finite,
    )?;
    let tower_angle: Double = optional_float(options, name, "angle", angle, Range::Finite)?;
    let step: Double = offline_step_distance(options, name)?;
    let mut o: Object = new_object();
    set_number(&mut o, "arm_length", arm_length);
    set_number(&mut o, "position_endstop", position_endstop);
    set_number(&mut o, "angle", tower_angle);
    set_number(&mut o, "step_distance", step);
    Ok((o, position_endstop))
}

/// The numbers that a delta has in common.
pub struct DeltaCommon {
    pub radius: Double,
    pub print_radius: Double,
    pub minimum_z: Double,
    pub arm: Double,
    pub endstop: Double,
}

pub open spec fn delta_common(s: SectionsView, printer: OptionsView) -> Outcome<DeltaCommon> {
    match required(printer, "printer"@, "delta_radius"@, Range::Above(num(ZERO))) {
        Err(e) => Err(e),
        Ok(radius) => match (
            optional(printer, "printer"@, "print_radius"@, radius, Range::Above(num(ZERO))),
            optional(printer, "printer"@, "minimum_z_position"@, num(ZERO), Range::Finite),
            section_of(s, "stepper_a"@, "arm_length"@),
        ) {
            (Err(e), _, _) => Err(e),
            (_, Err(e), _) => Err(e),
            (_, _, Err(e)) => Err(e),
            (Ok(print_radius), Ok(minimum_z), Ok(first)) => match (
                required(first, "stepper_a"@, "arm_length"@, Range::Above(radius)),
                required(first, "stepper_a"@, "position_endstop"@, Range::Finite),
            ) {
                (Err(e), _) => Err(e),
                (_, Err(e)) => Err(e),
                (Ok(arm), Ok(endstop)) => Ok(
                    DeltaCommon { radius, print_radius, minimum_z, arm, endstop },
                ),
            },
        },
    }
}

fn read_delta_common(s: &Sections, printer: &Options) -> (r: Result<DeltaCommon, SnapshotError>)
    ensures
        outcome(r) == delta_common(s.deep_view(), printer.deep_view()),
{
    let radius: Double = required_float(
        printer,
        "printer",
        "delta_radius",
        Range::Above(num(ZERO)),
    )?;
    let print_radius: Double = optional_float(
        printer,
        "printer",
        "print_radius",
        radius,
        Range::Above(num(ZERO)),
    )?;
    let minimum_z: Double = optional_float(
        printer,
        "printer",
        "minimum_z_position",
        num(ZERO),
        Range::Finite,
    )?;
    let first: &Options = find_section(s, "stepper_a", "arm_length")?;
    let arm: Double = required_float(first, "stepper_a", "arm_length", Range::Above(radius))?;
    let endstop: Double = required_float(first, "stepper_a", "position_endstop", Range::Finite)?;
    Ok(DeltaCommon { radius, print_radius, minimum_z, arm, endstop })
}

/// The settings of a delta. Its lowest point must not lie above its lowest endstop.
pub open spec fn delta_parts(s: SectionsView, printer: OptionsView, p: ObjectView) -> Outcome<
    PartsView,
> {
    match delta_common(s, printer) {
        Err(e) => Err(e),
        Ok(c) => match (
            delta_tower(s, "stepper_a"@, c.radius, c.arm, c.endstop, num(TWO_HUNDRED_TEN)),
            delta_tower(s, "stepper_b"@, c.radius, c.arm, c.endstop, num(THREE_HUNDRED_THIRTY)),
            delta_tower(s, "stepper_c"@, c.radius, c.arm, c.endstop, num(NINETY)),
        ) {
            (Err(e), _, _) => Err(e),
            (_, Err(e), _) => Err(e),
            (_, _, Err(e)) => Err(e),
            (Ok(x), Ok(y), Ok(z)) => if c.minimum_z > least3(x.1, y.1, z.1) {
                Err(
                    SnapshotError::OfflineValue {
                        section: "printer"@,
                        option: "minimum_z_position"@,
                        value: shortest(c.minimum_z),
                        message: "value exceeds the delta maximum Z"@,
                    },
                )
            } else {
                let a = with_object(no_settings(), "stepper_a"@, x.0);
                let b = with_object(a, "stepper_b"@, y.0);
                let q = with_number(p, "delta_radius"@, c.radius);
                let t = with_number(q, "print_radius"@, c.print_radius);
                Ok(
                    (
                        with_object(b, "stepper_c"@, z.0),
                        with_number(t, "minimum_z_position"@, c.minimum_z),
                    ),
                )
            },
        },
    }
}

fn read_delta(s: &Sections, printer: &Options, p: Object) -> (r: Result<Parts, SnapshotError>)
    ensures
        parts_outcome(r) == delta_parts(s.deep_view(), printer.deep_view(), p.deep_view()),
{
    let c: DeltaCommon = read_delta_common(s, printer)?;
    let x: (Object, Double) = read_delta_tower(
        s,
        "stepper_a",
        c.radius,
        c.arm,
        c.endstop,
        num(TWO_HUNDRED_TEN),
    )?;
    let y: (Object, Double) = read_delta_tower(
        s,
        "stepper_b",
        c.radius,
        c.arm,
        c.endstop,
        num(THREE_HUNDRED_THIRTY),
    )?;
    let z: (Object, Double) = read_delta_tower(
        s,
        "stepper_c",
        c.radius,
        c.arm,
        c.endstop,
        num(NINETY),
    )?;
    if c.minimum_z > least3(x.1, y.1, z.1) {
        return Err(
            SnapshotError::OfflineValue {
                section: "printer".to_owned(),
                option: "minimum_z_position".to_owned(),
                value: format_shortest(c.minimum_z),
                message: "value exceeds the delta maximum Z".to_owned(),
            },
        );
    }
    let mut settings: Settings = new_settings();
    set_object(&mut settings, "stepper_a", x.0);
    set_object(&mut settings, "stepper_b", y.0);
    set_object(&mut settings, "stepper_c", z.0);
    let mut p: Object = p;
    set_number(&mut p, "delta_radius", c.radius);
    set_number(&mut p, "print_radius", c.print_radius);
    set_number(&mut p, "minimum_z_position", c.minimum_z);
    Ok((settings, p))
}

pub open spec fn polar_parts(s: SectionsView, printer: OptionsView, p: ObjectView) -> Outcome<
    PartsView,
> {
    match (
        section_of(s, "stepper_arm"@, "position_max"@),
        section_of(s, "stepper_z"@, "position_max"@),
    ) {
        (Err(e), _) => Err(e),
        (_, Err(e)) => Err(e),
        (Ok(arm), Ok(z)) => match (
            required(arm, "stepper_arm"@, "position_max"@, Range::Above(num(ZERO))),
            optional(z, "stepper_z"@, "position_min"@, num(ZERO), Range::Finite),
        ) {
            (Err(e), _) => Err(e),
            (_, Err(e)) => Err(e),
            (Ok(radius), Ok(lo)) => match (
                required(z, "stepper_z"@, "position_max"@, Range::Above(lo)),
                optional(
                    printer,
                    "printer"@,
                    "max_angular_velocity"@,
                    num(ZERO),
                    Range::AtLeast(num(ZERO)),
                ),
            ) {
                (Err(e), _) => Err(e),
                (_, Err(e)) => Err(e),
                (Ok(hi), Ok(angular)) => {
                    let a = with_object(
                        no_settings(),
                        "stepper_arm"@,
                        with_number(empty_object(), "position_max"@, radius),
                    );
                    let b = with_number(empty_object(), "position_min"@, lo);
                    Ok(
                        (
                            with_object(a, "stepper_z"@, with_number(b, "position_max"@, hi)),
                            with_number(p, "max_angular_velocity"@, angular),
                        ),
                    )
                },
            },
        },
    }
}

fn read_polar(s: &Sections, printer: &Options, p: Object) -> (r: Result<Parts, SnapshotError>)
    ensures
        parts_outcome(r) == polar_parts(s.deep_view(), printer.deep_view(), p.deep_view()),
{
    let arm: &Options = find_section(s, "stepper_arm", "position_max")?;
    let z: &Options = find_section(s, "stepper_z", "position_max")?;
    let radius: Double = required_float(
        arm,
        "stepper_arm",
        "position_max",
        Range::Above(num(ZERO)),
    )?;
    let lo: Double = optional_float(z, "stepper_z", "position_min", num(ZERO), Range::Finite)?;
    let hi: Double = required_float(z, "stepper_z", "position_max", Range::Above(lo))?;
    let angular: Double = optional_float(
        printer,
        "printer",
        "max_angular_velocity",
        num(ZERO),
        Range::AtLeast(num(ZERO)),
    )?;
    let mut a: Object = new_object();
    set_number(&mut a, "position_max", radius);
    let mut b: Object = new_object();
    set_number(&mut b, "position_min", lo);
    set_number(&mut b, "position_max", hi);
    let mut settings: Settings = new_settings();
    set_object(&mut settings, "stepper_arm", a);
    set_object(&mut settings, "stepper_z", b);
    let mut p: Object = p;
    set_number(&mut p, "max_angular_velocity", angular);
    Ok((settings, p))
}

/// The settings of one side of a deltesian.
pub open spec fn side_settings(
    s: SectionsView,
    name: Seq<char>,
    arm_x: Double,
    arm: Double,
    endstop: Double,
) -> Outcome<ObjectView> {
    match section_of(s, name, "arm_length"@) {
        Err(e) => Err(e),
        Ok(o) => match optional(o, name, "arm_x_length"@, arm_x, Range::Above(num(ZERO))) {
            Err(e) => Err(e),
            Ok(x) => match (
                optional(o, name, "arm_length"@, arm, Range::Above(x)),
                optional(o, name, "position_endstop"@, endstop, Range::Finite),
            ) {
                (Err(e), _) => Err(e),
                (_, Err(e)) => Err(e),
                (Ok(length), Ok(stop)) => {
                    let a = with_number(empty_object(), "arm_x_length"@, x);
                    let b = with_number(a, "arm_length"@, length);
                    Ok(with_number(b, "position_endstop"@, stop))
                },
            },
        },
    }
}

fn read_side(s: &Sections, name: &str, arm_x: Double, arm: Double, endstop: Double) -> (r: Result<
    Object,
    SnapshotError,
>)
    ensures
        deep_outcome(r) == side_settings(s.deep_view(), name@, arm_x, arm, endstop),
{
    let options: &Options = find_section(s, name, "arm_length")?;
    let x: Double = optional_float(options, name, "arm_x_length", arm_x, Range::Above(num(ZERO)))?;
    let length: Double = optional_float(options, name, "arm_length", arm, Range::Above(x))?;
    let stop: Double = optional_float(options, name, "position_endstop", endstop, Range::Finite)?;
    let mut o: Object = new_object();
    set_number(&mut o, "arm_x_length", x);
    set_number(&mut o, "arm_length", length);
    set_number(&mut o, "position_endstop", stop);
    Ok(o)
}

/// The settings of the steppers of a deltesian.
pub open spec fn deltesian_steppers(s: SectionsView) -> Outcome<SettingsView> {
    match section_of(s, "stepper_left"@, "arm_length"@) {
        Err(e) => Err(e),
        Ok(left) => match required(
            left,
            "stepper_left"@,
            "arm_x_length"@,
            Range::Above(num(ZERO)),
        ) {
            Err(e) => Err(e),
            Ok(arm_x) => match (
                required(left, "stepper_left"@, "arm_length"@, Range::Above(arm_x)),
                required(left, "stepper_left"@, "position_endstop"@, Range::Finite),
            ) {
                (Err(e), _) => Err(e),
                (_, Err(e)) => Err(e),
                (Ok(arm), Ok(endstop)) => match (
                    side_settings(s, "stepper_left"@, arm_x, arm, endstop),
                    side_settings(s, "stepper_right"@, arm_x, arm, endstop),
                    section_of(s, "stepper_y"@, "position_max"@),
                ) {
                    (Err(e), _, _) => Err(e),
                    (_, Err(e), _) => Err(e),
                    (_, _, Err(e)) => Err(e),
                    (Ok(l), Ok(r), Ok(y)) => match optional(
                        y,
                        "stepper_y"@,
                        "position_min"@,
                        num(ZERO),
                        Range::Finite,
                    ) {
                        Err(e) => Err(e),
                        Ok(lo) => match required(
                            y,
                            "stepper_y"@,
                            "position_max"@,
                            Range::Above(lo),
                        ) {
                            Err(e) => Err(e),
                            Ok(hi) => {
                                let a = with_object(no_settings(), "stepper_left"@, l);
                                let b = with_object(a, "stepper_right"@, r);
                                let c = with_number(empty_object(), "position_min"@, lo);
                                Ok(
                                    with_object(
                                        b,
                                        "stepper_y"@,
                                        with_number(c, "position_max"@, hi),
                                    ),
                                )
                            },
                        },
                    },
                },
            },
        },
    }
}

fn read_deltesian_steppers(s: &Sections) -> (r: Result<Settings, SnapshotError>)
    ensures
        deep_outcome(r) == deltesian_steppers(s.deep_view()),
{
    let left: &Options = find_section(s, "stepper_left", "arm_length")?;
    let arm_x: Double = required_float(
        left,
        "stepper_left",
        "arm_x_length",
        Range::Above(num(ZERO)),
    )?;
    let arm: Double = required_float(left, "stepper_left", "arm_length", Range::Above(arm_x))?;
    let endstop: Double = required_float(left, "stepper_left", "position_endstop", Range::Finite)?;
    let l: Object = read_side(s, "stepper_left", arm_x, arm, endstop)?;
    let r: Object = read_side(s, "stepper_right", arm_x, arm, endstop)?;
    let y: &Options = find_section(s, "stepper_y", "position_max")?;
    let lo: Double = optional_float(y, "stepper_y", "position_min", num(ZERO), Range::Finite)?;
    let hi: Double = required_float(y, "stepper_y", "position_max", Range::Above(lo))?;
    let mut c: Object = new_object();
    set_number(&mut c, "position_min", lo);
    set_number(&mut c, "position_max", hi);
    let mut settings: Settings = new_settings();
    set_object(&mut settings, "stepper_left", l);
    set_object(&mut settings, "stepper_right", r);
    set_object(&mut settings, "stepper_y", c);
    Ok(settings)
}

pub open spec fn deltesian_parts(s: SectionsView, printer: OptionsView, p: ObjectView) -> Outcome<
    PartsView,
> {
    let width: Outcome<Option<Double>> = match lookup(printer, "print_width"@) {
        None => Ok(None),
        Some(value) => match float_of(
            "printer"@,
            "print_width"@,
            value,
            Range::AtLeast(num(ZERO)),
        ) {
            Ok(x) => Ok(Some(x)),
            Err(e) => Err(e),
        },
    };
    match (
        deltesian_steppers(s),
        optional(printer, "printer"@, "minimum_z_position"@, num(ZERO), Range::Finite),
        optional(
            printer,
            "printer"@,
            "min_angle"@,
            num(FIVE),
            Range::Within(num(ZERO), num(NINETY)),
        ),
        optional(printer, "printer"@, "slow_ratio"@, num(THREE), Range::AtLeast(num(ZERO))),
        width,
    ) {
        (Err(e), _, _, _, _) => Err(e),
        (_, Err(e), _, _, _) => Err(e),
        (_, _, Err(e), _, _) => Err(e),
        (_, _, _, Err(e), _) => Err(e),
        (_, _, _, _, Err(e)) => Err(e),
        (Ok(steppers), Ok(minimum_z), Ok(angle), Ok(ratio), Ok(w)) => {
            let a = with_number(p, "minimum_z_position"@, minimum_z);
            let b = with_number(a, "min_angle"@, angle);
            let c = with_number(b, "slow_ratio"@, ratio);
            Ok((steppers, with_optional(c, "print_width"@, w)))
        },
    }
}

fn read_deltesian(s: &Sections, printer: &Options, p: Object) -> (r: Result<Parts, SnapshotError>)
    ensures
        parts_outcome(r) == deltesian_parts(s.deep_view(), printer.deep_view(), p.deep_view()),
{
    let steppers: Settings = read_deltesian_steppers(s)?;
    let minimum_z: Double = optional_float(
        printer,
        "printer",
        "minimum_z_position",
        num(ZERO),
        Range::Finite,
    )?;
    let angle: Double = optional_float(
        printer,
        "printer",
        "min_angle",
        num(FIVE),
        Range::Within(num(ZERO), num(NINETY)),
    )?;
    let ratio: Double = optional_float(
        printer,
        "printer",
        "slow_ratio",
        num(THREE),
        Range::AtLeast(num(ZERO)),
    )?;
    let mut p: Object = p;
    set_number(&mut p, "minimum_z_position", minimum_z);
    set_number(&mut p, "min_angle", angle);
    set_number(&mut p, "slow_ratio", ratio);
    if let Some(value) = printer.find("print_width") {
        let width: Double = parse_float(
            "printer",
            "print_width",
            value.as_str(),
            Range::AtLeast(num(ZERO)),
        )?;
        set_number(&mut p, "print_width", width);
    }
    Ok((steppers, p))
}

/// The settings of a tower of a rotary delta.
pub open spec fn rotary_tower_settings(
    s: SectionsView,
    name: Seq<char>,
    upper: Double,
    lower: Double,
    endstop: Double,
    angle: Double,
) -> Outcome<ObjectView> {
    match section_of(s, name, "upper_arm_length"@) {
        Err(e) => Err(e),
        Ok(o) => match (
            optional(o, name, "upper_arm_length"@, upper, Range::Above(num(ZERO))),
            optional(o, name, "lower_arm_length"@, lower, Range::Above(num(ZERO))),
            optional(o, name, "position_endstop"@, endstop, Range::Finite),
            optional(o, name, "angle"@, angle, Range::Finite),
        ) {
            (Err(e), _, _, _) => Err(e),
            (_, Err(e), _, _) => Err(e),
            (_, _, Err(e), _) => Err(e),
            (_, _, _, Err(e)) => Err(e),
            (Ok(u), Ok(l), Ok(stop), Ok(at)) => {
                let a = with_number(empty_object(), "upper_arm_length"@, u);
                let b = with_number(a, "lower_arm_length"@, l);
                let c = with_number(b, "position_endstop"@, stop);
                Ok(with_number(c, "angle"@, at))
            },
        },
    }
}

fn read_rotary_tower(
    s: &Sections,
    name: &str,
    upper: Double,
    lower: Double,
    endstop: Double,
    angle: Double,
) -> (r: Result<Object, SnapshotError>)
    ensures
        deep_outcome(r) == rotary_tower_settings(
            s.deep_view(),
            name@,
            upper,
            lower,
            endstop,
            angle,
        ),
{
    let options: &Options = find_section(s, name, "upper_arm_length")?;
    let u: Double = optional_float(
        options,
        name,
        "upper_arm_length",
        upper,
        Range::Above(num(ZERO)),
    )?;
    let l: Double = optional_float(
        options,
        name,
        "lower_arm_length",
        lower,
        Range::Above(num(ZERO)),
    )?;
    let stop: Double = optional_float(options, name, "position_endstop", endstop, Range::Finite)?;
    let at: Double = optional_float(options, name, "angle", angle, Range::Finite)?;
    let mut o: Object = new_object();
    set_number(&mut o, "upper_arm_length", u);
    set_number(&mut o, "lower_arm_length", l);
    set_number(&mut o, "position_endstop", stop);
    set_number(&mut o, "angle", at);
    Ok(o)
}

/// The settings of the towers of a rotary delta.
pub open spec fn rotary_towers(s: SectionsView) -> Outcome<SettingsView> {
    match section_of(s, "stepper_a"@, "upper_arm_length"@) {
        Err(e) => Err(e),
        Ok(first) => match (
            required(first, "stepper_a"@, "upper_arm_length"@, Range::Above(num(ZERO))),
            required(first, "stepper_a"@, "lower_arm_length"@, Range::Above(num(ZERO))),
            required(first, "stepper_a"@, "position_endstop"@, Range::Finite),
        ) {
            (Err(e), _, _) => Err(e),
            (_, Err(e), _) => Err(e),
            (_, _, Err(e)) => Err(e),
            (Ok(upper), Ok(lower), Ok(endstop)) => match (
                rotary_tower_settings(s, "stepper_a"@, upper, lower, endstop, num(THIRTY)),
                rotary_tower_settings(s, "stepper_b"@, upper, lower, endstop, num(HUNDRED_FIFTY)),
                rotary_tower_settings(
                    s,
                    "stepper_c"@,
                    upper,
                    lower,
                    endstop,
                    num(TWO_HUNDRED_SEVENTY),
                ),
            ) {
                (Err(e), _, _) => Err(e),
                (_, Err(e), _) => Err(e),
                (_, _, Err(e)) => Err(e),
                (Ok(x), Ok(y), Ok(z)) => {
                    let a = with_object(no_settings(), "stepper_a"@, x);
                    let b = with_object(a, "stepper_b"@, y);
                    Ok(with_object(b, "stepper_c"@, z))
                },
            },
        },
    }
}

fn read_rotary_towers(s: &Sections) -> (r: Result<Settings, SnapshotError>)
    ensures
        deep_outcome(r) == rotary_towers(s.deep_view()),
{
    let first: &Options = find_section(s, "stepper_a", "upper_arm_length")?;
    let upper: Double = required_float(
        first,
        "stepper_a",
        "upper_arm_length",
        Range::Above(num(ZERO)),
    )?;
    let lower: Double = required_float(
        first,
        "stepper_a",
        "lower_arm_length",
        Range::Above(num(ZERO)),
    )?;
    let endstop: Double = required_float(first, "stepper_a", "position_endstop", Range::Finite)?;
    let x: Object = read_rotary_tower(s, "stepper_a", upper, lower, endstop, num(THIRTY))?;
    let y: Object = read_rotary_tower(s, "stepper_b", upper, lower, endstop, num(HUNDRED_FIFTY))?;
    let z: Object = read_rotary_tower(
        s,
        "stepper_c",
        upper,
        lower,
        endstop,
        num(TWO_HUNDRED_SEVENTY),
    )?;
    let mut settings: Settings = new_settings();
    set_object(&mut settings, "stepper_a", x);
    set_object(&mut settings, "stepper_b", y);
    set_object(&mut settings, "stepper_c", z);
    Ok(settings)
}

pub open spec fn rotary_parts(s: SectionsView, printer: OptionsView, p: ObjectView) -> Outcome<
    PartsView,
> {
    match (
        required(printer, "printer"@, "shoulder_radius"@, Range::Above(num(ZERO))),
        required(printer, "printer"@, "shoulder_height"@, Range::Above(num(ZERO))),
        rotary_towers(s),
        optional(printer, "printer"@, "minimum_z_position"@, num(ZERO), Range::Finite),
    ) {
        (Err(e), _, _, _) => Err(e),
        (_, Err(e), _, _) => Err(e),
        (_, _, Err(e), _) => Err(e),
        (_, _, _, Err(e)) => Err(e),
        (Ok(radius), Ok(height), Ok(towers), Ok(minimum_z)) => {
            let a = with_number(p, "minimum_z_position"@, minimum_z);
            let b = with_number(a, "shoulder_radius"@, radius);
            Ok((towers, with_number(b, "shoulder_height"@, height)))
        },
    }
}

fn read_rotary(s: &Sections, printer: &Options, p: Object) -> (r: Result<Parts, SnapshotError>)
    ensures
        parts_outcome(r) == rotary_parts(s.deep_view(), printer.deep_view(), p.deep_view()),
{
    let radius: Double = required_float(
        printer,
        "printer",
        "shoulder_radius",
        Range::Above(num(ZERO)),
    )?;
    let height: Double = required_float(
        printer,
        "printer",
        "shoulder_height",
        Range::Above(num(ZERO)),
    )?;
    let towers: Settings = read_rotary_towers(s)?;
    let minimum_z: Double = optional_float(
        printer,
        "printer",
        "minimum_z_position",
        num(ZERO),
        Range::Finite,
    )?;
    let mut p: Object = p;
    set_number(&mut p, "minimum_z_position", minimum_z);
    set_number(&mut p, "shoulder_radius", radius);
    set_number(&mut p, "shoulder_height", height);
    Ok((towers, p))
}

/// What a backend adds.
pub open spec fn backend_parts(s: SectionsView, printer: OptionsView, p: ObjectView) -> Outcome<
    PartsView,
> {
    match lookup(printer, "kinematics"@) {
        None => Ok((no_settings(), p)),
        Some(k) => if cartesian_kind(k) is Some {
            cartesian_parts(s, p)
        } else if k == "delta"@ {
            delta_parts(s, printer, p)
        } else if k == "polar"@ {
            polar_parts(s, printer, p)
        } else if k == "deltesian"@ {
            deltesian_parts(s, printer, p)
        } else if k == "rotary_delta"@ {
            rotary_parts(s, printer, p)
        } else {
            Ok((no_settings(), p))
        },
    }
}

fn read_backend(s: &Sections, printer: &Options, p: Object) -> (r: Result<Parts, SnapshotError>)
    ensures
        parts_outcome(r) == backend_parts(s.deep_view(), printer.deep_view(), p.deep_view()),
{
    let k: &str = match printer.find("kinematics") {
        Some(k) => k.as_str(),
        None => {
            return Ok((new_settings(), p));
        },
    };
    if find_cartesian_kind(k).is_some() {
        read_cartesian(s, p)
    } else if same(k, "delta") {
        read_delta(s, printer, p)
    } else if same(k, "polar") {
        read_polar(s, printer, p)
    } else if same(k, "deltesian") {
        read_deltesian(s, printer, p)
    } else if same(k, "rotary_delta") {
        read_rotary(s, printer, p)
    } else {
        Ok((new_settings(), p))
    }
}

/// The number of an extruder: none is zero, and what does not fit counts as the largest.
pub open spec fn tool_number(name: Seq<char>) -> nat {
    match after_prefix(name, "extruder"@) {
        Some(suffix) => if digits_value(suffix) < u64::MAX {
            digits_value(suffix)
        } else {
            u64::MAX as nat
        },
        None => 0,
    }
}

fn number_of_tool(name: &str) -> (r: u64)
    requires
        names_extruder(name@),
    ensures
        r == tool_number(name@),
{
    match strip_prefix(name, "extruder") {
        Some(suffix) => {
            let v: Vec<char> = chars_of(suffix);
            let mut value: u64 = 0;
            let mut i: usize = 0;
            while i < v.len()
                invariant
                    i <= v@.len(),
                    v@ == suffix@,
                    all_digits(suffix@),
                    value == (if digits_value(suffix@.take(i as int)) < u64::MAX {
                        digits_value(suffix@.take(i as int))
                    } else {
                        u64::MAX as nat
                    }),
                decreases v.len() - i,
            {
                let ghost head = suffix@.take(i as int);
                proof {
                    assert(is_digit(suffix@[i as int]));
                    assert(suffix@.take(i + 1) == head.push(suffix@[i as int]));
                    lemma_digits_push(head, suffix@[i as int]);
                }
                let d: u64 = (v[i] as u32 - '0' as u32) as u64;
                let next: u128 = value as u128 * 10 + d as u128;
                value = if next < u64::MAX as u128 {
                    next as u64
                } else {
                    u64::MAX
                };
                i = i + 1;
            }
            assert(suffix@.take(i as int) == suffix@);
            value
        },
        None => 0,
    }
}

/// The number of leading extruders whose numbers are not above `n`.
pub open spec fn tool_slot(list: SectionsView, n: nat) -> int
    decreases list.len(),
{
    if list.len() == 0 || tool_number(list[0].0) > n {
        0
    } else {
        1 + tool_slot(list.skip(1), n)
    }
}

/// The extruders among the first `i` sections, by number.
pub open spec fn tools_in_order(s: SectionsView, i: int) -> SectionsView
    decreases i,
{
    if i <= 0 {
        Seq::empty()
    } else {
        let prior = tools_in_order(s, i - 1);
        if names_extruder(s[i - 1].0) {
            prior.insert(tool_slot(prior, tool_number(s[i - 1].0)), s[i - 1])
        } else {
            prior
        }
    }
}

/// The sections at the given indices.
pub open spec fn picked(s: SectionsView, v: Seq<usize>) -> SectionsView {
    Seq::new(v.len(), |i: int| s[v[i] as int])
}

fn find_tool_slot(s: &Sections, tools: &Vec<usize>, n: u64) -> (r: usize)
    requires
        forall|k: int|
            0 <= k < tools@.len() ==> #[trigger] tools@[k] < s@.len() && names_extruder(
                s@[tools@[k] as int].0,
            ),
    ensures
        r == tool_slot(picked(s.deep_view(), tools@), n as nat),
        r <= tools@.len(),
{
    let ghost list = picked(s.deep_view(), tools@);
    let mut i: usize = 0;
    assert(list.skip(0) == list);
    while i < tools.len()
        invariant
            i <= tools@.len(),
            list == picked(s.deep_view(), tools@),
            forall|k: int|
                0 <= k < tools@.len() ==> #[trigger] tools@[k] < s@.len() && names_extruder(
                    s@[tools@[k] as int].0,
                ),
            tool_slot(list, n as nat) == i + tool_slot(list.skip(i as int), n as nat),
        decreases tools.len() - i,
    {
        assert(list.skip(i as int)[0] == list[i as int]);
        let at: usize = tools[i];
        if number_of_tool(s.key_at(at)) > n {
            return i;
        }
        assert(list.skip(i as int).skip(1) == list.skip(i + 1));
        i = i + 1;
    }
    i
}

fn sort_tools(s: &Sections) -> (r: Vec<usize>)
    ensures
        picked(s.deep_view(), r@) == tools_in_order(s.deep_view(), s@.len() as int),
        forall|k: int|
            0 <= k < r@.len() ==> #[trigger] r@[k] < s@.len() && names_extruder(
                s@[r@[k] as int].0,
            ),
{
    let ghost v = s.deep_view();
    let mut tools: Vec<usize> = Vec::new();
    let mut i: usize = 0;
    assert(picked(v, tools@) == SectionsView::empty());
    while i < s.len()
        invariant
            i <= s@.len(),
            v == s.deep_view(),
            picked(v, tools@) == tools_in_order(v, i as int),
            forall|k: int|
                0 <= k < tools@.len() ==> #[trigger] tools@[k] < s@.len() && names_extruder(
                    s@[tools@[k] as int].0,
                ),
        decreases s@.len() - i,
    {
        let name: &str = s.key_at(i);
        assert(v[i as int].0 == name@);
        if is_extruder_object(name) {
            let n: u64 = number_of_tool(name);
            let at: usize = find_tool_slot(s, &tools, n);
            let ghost before = tools@;
            tools.insert(at, i);
            assert(picked(v, tools@) == picked(v, before).insert(at as int, v[i as int]));
        }
        i = i + 1;
    }
    tools
}

/// The first extruder that breaks the sequence of numbers.
pub open spec fn sequence_break(list: SectionsView, i: int) -> Option<Seq<char>>
    decreases list.len() - i,
{
    if i < 0 || i >= list.len() {
        None
    } else if tool_number(list[i].0) != i || i >= 99 {
        Some(list[i].0)
    } else {
        sequence_break(list, i + 1)
    }
}

fn check_sequence(s: &Sections, tools: &Vec<usize>) -> (r: Result<(), SnapshotError>)
    requires
        forall|k: int|
            0 <= k < tools@.len() ==> #[trigger] tools@[k] < s@.len() && names_extruder(
                s@[tools@[k] as int].0,
            ),
    ensures
        match (r, sequence_break(picked(s.deep_view(), tools@), 0)) {
            (Ok(()), None) => true,
            (Err(e), Some(name)) => e@ == SnapshotError::OfflineExtruderSequence(name),
            _ => false,
        },
{
    let ghost list = picked(s.deep_view(), tools@);
    let mut i: usize = 0;
    while i < tools.len()
        invariant
            i <= tools@.len(),
            list == picked(s.deep_view(), tools@),
            forall|k: int|
                0 <= k < tools@.len() ==> #[trigger] tools@[k] < s@.len() && names_extruder(
                    s@[tools@[k] as int].0,
                ),
            sequence_break(list, 0) == sequence_break(list, i as int),
        decreases tools.len() - i,
    {
        let at: usize = tools[i];
        let name: &str = s.key_at(at);
        assert(list[i as int].0 == name@);
        if i >= 99 || number_of_tool(name) != i as u64 {
            return Err(SnapshotError::OfflineExtruderSequence(name.to_owned()));
        }
        i = i + 1;
    }
    Ok(())
}

/// The settings of an extruder. What it may extrude follows from its nozzle by default.
pub open spec fn extruder_settings(
    name: Seq<char>,
    o: OptionsView,
    max_velocity: Double,
    max_accel: Double,
) -> Outcome<ObjectView> {
    let positive = Range::Above(num(ZERO));
    let natural = Range::AtLeast(num(ZERO));
    match required(o, name, "nozzle_diameter"@, positive) {
        Err(e) => Err(e),
        Ok(nozzle) => match required(o, name, "filament_diameter"@, Range::AtLeast(nozzle)) {
            Err(e) => Err(e),
            Ok(filament) => {
                let cross = num(FOUR) * nozzle.squared();
                let ratio = cross / (num(PI) * (filament * num(HALF)).squared());
                match (
                    optional(o, name, "max_extrude_cross_section"@, cross, positive),
                    optional(
                        o,
                        name,
                        "max_extrude_only_velocity"@,
                        max_velocity * ratio,
                        positive,
                    ),
                    optional(o, name, "max_extrude_only_accel"@, max_accel * ratio, positive),
                    optional(o, name, "max_extrude_only_distance"@, num(FIFTY), natural),
                    optional(o, name, "instantaneous_corner_velocity"@, num(ONE), natural),
                ) {
                    (Err(e), _, _, _, _) => Err(e),
                    (_, Err(e), _, _, _) => Err(e),
                    (_, _, Err(e), _, _) => Err(e),
                    (_, _, _, Err(e), _) => Err(e),
                    (_, _, _, _, Err(e)) => Err(e),
                    (Ok(section), Ok(velocity), Ok(accel), Ok(distance), Ok(corner)) => {
                        let a = with_number(empty_object(), "nozzle_diameter"@, nozzle);
                        let b = with_number(a, "filament_diameter"@, filament);
                        let c = with_number(b, "max_extrude_cross_section"@, section);
                        let d = with_number(c, "max_extrude_only_velocity"@, velocity);
                        let e = with_number(d, "max_extrude_only_accel"@, accel);
                        let f = with_number(e, "max_extrude_only_distance"@, distance);
                        Ok(with_number(f, "instantaneous_corner_velocity"@, corner))
                    },
                }
            },
        },
    }
}

fn read_extruder(name: &str, options: &Options, max_velocity: Double, max_accel: Double) -> (r:
    Result<Object, SnapshotError>)
    ensures
        deep_outcome(r) == extruder_settings(
            name@,
            options.deep_view(),
            max_velocity,
            max_accel,
        ),
{
    let positive: Range = Range::Above(num(ZERO));
    let natural: Range = Range::AtLeast(num(ZERO));
    let nozzle: Double = required_float(options, name, "nozzle_diameter", positive)?;
    let filament: Double = required_float(
        options,
        name,
        "filament_diameter",
        Range::AtLeast(nozzle),
    )?;
    let cross: Double = num(FOUR) * nozzle.squared();
    let ratio: Double = cross / (num(PI) * (filament * num(HALF)).squared());
    let section: Double = optional_float(
        options,
        name,
        "max_extrude_cross_section",
        cross,
        positive,
    )?;
    let velocity: Double = optional_float(
        options,
        name,
        "max_extrude_only_velocity",
        max_velocity * ratio,
        positive,
    )?;
    let accel: Double = optional_float(
        options,
        name,
        "max_extrude_only_accel",
        max_accel * ratio,
        positive,
    )?;
    let distance: Double = optional_float(
        options,
        name,
        "max_extrude_only_distance",
        num(FIFTY),
        natural,
    )?;
    let corner: Double = optional_float(
        options,
        name,
        "instantaneous_corner_velocity",
        num(ONE),
        natural,
    )?;
    let mut o: Object = new_object();
    set_number(&mut o, "nozzle_diameter", nozzle);
    set_number(&mut o, "filament_diameter", filament);
    set_number(&mut o, "max_extrude_cross_section", section);
    set_number(&mut o, "max_extrude_only_velocity", velocity);
    set_number(&mut o, "max_extrude_only_accel", accel);
    set_number(&mut o, "max_extrude_only_distance", distance);
    set_number(&mut o, "instantaneous_corner_velocity", corner);
    Ok(o)
}

/// Settings with those of the first `i` extruders.
pub open spec fn with_extruders(
    r: SettingsView,
    list: SectionsView,
    max_velocity: Double,
    max_accel: Double,
    i: int,
) -> Outcome<SettingsView>
    decreases i,
{
    if i <= 0 {
        Ok(r)
    } else {
        match with_extruders(r, list, max_velocity, max_accel, i - 1) {
            Err(e) => Err(e),
            Ok(prior) => match extruder_settings(
                list[i - 1].0,
                list[i - 1].1,
                max_velocity,
                max_accel,
            ) {
                Err(e) => Err(e),
                Ok(o) => Ok(with_object(prior, list[i - 1].0, o)),
            },
        }
    }
}

proof fn lemma_extruders_fail(
    r: SettingsView,
    list: SectionsView,
    max_velocity: Double,
    max_accel: Double,
    i: int,
    j: int,
)
    requires
        0 <= i <= j,
        with_extruders(r, list, max_velocity, max_accel, i) is Err,
    ensures
        with_extruders(r, list, max_velocity, max_accel, j) == with_extruders(
            r,
            list,
            max_velocity,
            max_accel,
            i,
        ),
    decreases j,
{
    if i < j {
        lemma_extruders_fail(r, list, max_velocity, max_accel, i, j - 1);
    }
}

fn add_extruders(
    initial: Settings,
    s: &Sections,
    tools: &Vec<usize>,
    max_velocity: Double,
    max_accel: Double,
) -> (r: Result<Settings, SnapshotError>)
    requires
        forall|k: int| 0 <= k < tools@.len() ==> #[trigger] tools@[k] < s@.len(),
    ensures
        deep_outcome(r) == with_extruders(
            initial.deep_view(),
            picked(s.deep_view(), tools@),
            max_velocity,
            max_accel,
            tools@.len() as int,
        ),
{
    let ghost start = initial.deep_view();
    let ghost list = picked(s.deep_view(), tools@);
    let mut settings: Settings = initial;
    let mut i: usize = 0;
    while i < tools.len()
        invariant
            i <= tools@.len(),
            start == initial.deep_view(),
            list == picked(s.deep_view(), tools@),
            forall|k: int| 0 <= k < tools@.len() ==> #[trigger] tools@[k] < s@.len(),
            with_extruders(start, list, max_velocity, max_accel, i as int) == Ok::<
                SettingsView,
                SnapshotError<Seq<char>>,
            >(settings.deep_view()),
        decreases tools.len() - i,
    {
        let at: usize = tools[i];
        let name: &str = s.key_at(at);
        let options: &Options = s.value_at(at);
        assert(list[i as int] == (name@, options.deep_view()));
        match read_extruder(name, options, max_velocity, max_accel) {
            Ok(o) => set_object(&mut settings, name, o),
            Err(e) => {
                proof {
                    lemma_extruders_fail(
                        start,
                        list,
                        max_velocity,
                        max_accel,
                        i + 1,
                        tools@.len() as int,
                    );
                }
                return Err(e);
            },
        }
        i = i + 1;
    }
    Ok(settings)
}

/// The settings of firmware retraction.
pub open spec fn retraction_settings(o: OptionsView) -> Outcome<ObjectView> {
    let section = "firmware_retraction"@;
    match (
        optional(o, section, "retract_length"@, num(ZERO), Range::AtLeast(num(ZERO))),
        optional(o, section, "retract_speed"@, num(TWENTY), Range::AtLeast(num(ONE))),
        optional(o, section, "unretract_extra_length"@, num(ZERO), Range::AtLeast(num(ZERO))),
        optional(o, section, "unretract_speed"@, num(TEN), Range::AtLeast(num(ONE))),
    ) {
        (Err(e), _, _, _) => Err(e),
        (_, Err(e), _, _) => Err(e),
        (_, _, Err(e), _) => Err(e),
        (_, _, _, Err(e)) => Err(e),
        (Ok(length), Ok(speed), Ok(extra), Ok(back)) => {
            let a = with_number(empty_object(), "retract_length"@, length);
            let b = with_number(a, "retract_speed"@, speed);
            let c = with_number(b, "unretract_extra_length"@, extra);
            Ok(with_number(c, "unretract_speed"@, back))
        },
    }
}

fn read_retraction(options: &Options) -> (r: Result<Object, SnapshotError>)
    ensures
        deep_outcome(r) == retraction_settings(options.deep_view()),
{
    let section: &str = "firmware_retraction";
    let length: Double = optional_float(
        options,
        section,
        "retract_length",
        num(ZERO),
        Range::AtLeast(num(ZERO)),
    )?;
    let speed: Double = optional_float(
        options,
        section,
        "retract_speed",
        num(TWENTY),
        Range::AtLeast(num(ONE)),
    )?;
    let extra: Double = optional_float(
        options,
        section,
        "unretract_extra_length",
        num(ZERO),
        Range::AtLeast(num(ZERO)),
    )?;
    let back: Double = optional_float(
        options,
        section,
        "unretract_speed",
        num(TEN),
        Range::AtLeast(num(ONE)),
    )?;
    let mut o: Object = new_object();
    set_number(&mut o, "retract_length", length);
    set_number(&mut o, "retract_speed", speed);
    set_number(&mut o, "unretract_extra_length", extra);
    set_number(&mut o, "unretract_speed", back);
    Ok(o)
}

/// Settings with those of the sections that a printer may have.
pub open spec fn with_extras(r: SettingsView, s: SectionsView) -> Outcome<SettingsView> {
    let retracting = match lookup(s, "firmware_retraction"@) {
        None => Ok(r),
        Some(o) => match retraction_settings(o) {
            Err(e) => Err(e),
            Ok(object) => Ok(with_object(r, "firmware_retraction"@, object)),
        },
    };
    match retracting {
        Err(e) => Err(e),
        Ok(t) => match lookup(s, "gcode_arcs"@) {
            None => Ok(t),
            Some(o) => match optional(
                o,
                "gcode_arcs"@,
                "resolution"@,
                num(ONE),
                Range::Above(num(ZERO)),
            ) {
                Err(e) => Err(e),
                Ok(x) => Ok(
                    with_object(
                        t,
                        "gcode_arcs"@,
                        with_number(empty_object(), "resolution"@, x),
                    ),
                ),
            },
        },
    }
}

fn add_extras(settings: Settings, s: &Sections) -> (r: Result<Settings, SnapshotError>)
    ensures
        deep_outcome(r) == with_extras(settings.deep_view(), s.deep_view()),
{
    let mut settings: Settings = settings;
    if let Some(options) = s.find("firmware_retraction") {
        let o: Object = read_retraction(options)?;
        set_object(&mut settings, "firmware_retraction", o);
    }
    if let Some(options) = s.find("gcode_arcs") {
        let x: Double = optional_float(
            options,
            "gcode_arcs",
            "resolution",
            num(ONE),
            Range::Above(num(ZERO)),
        )?;
        let mut o: Object = new_object();
        set_number(&mut o, "resolution", x);
        set_object(&mut settings, "gcode_arcs", o);
    }
    Ok(settings)
}

/// The settings of the printer and its backend.
pub open spec fn printer_parts(
    s: SectionsView,
    printer: OptionsView,
    max_velocity: Double,
    max_accel: Double,
) -> Outcome<SettingsView> {
    match printer_settings(printer, max_velocity, max_accel) {
        Err(e) => Err(e),
        Ok(p) => match backend_parts(s, printer, p) {
            Err(e) => Err(e),
            Ok((steppers, q)) => {
                let a = with_object(steppers, "printer"@, q);
                Ok(
                    if has_key(s, "dual_carriage"@) {
                        with_object(a, "dual_carriage"@, empty_object())
                    } else {
                        a
                    },
                )
            },
        },
    }
}

fn read_printer_parts(
    s: &Sections,
    printer: &Options,
    max_velocity: Double,
    max_accel: Double,
) -> (r: Result<Settings, SnapshotError>)
    ensures
        deep_outcome(r) == printer_parts(
            s.deep_view(),
            printer.deep_view(),
            max_velocity,
            max_accel,
        ),
{
    let p: Object = read_printer_settings(printer, max_velocity, max_accel)?;
    let parts: Parts = read_backend(s, printer, p)?;
    let (mut settings, q): Parts = parts;
    set_object(&mut settings, "printer", q);
    if s.has("dual_carriage") {
        set_object(&mut settings, "dual_carriage", new_object());
    }
    Ok(settings)
}

/// The settings that the sections of configuration files resolve to.
pub open spec fn resolved(s: SectionsView) -> Outcome<SettingsView> {
    let positive = Range::Above(num(ZERO));
    let tools = tools_in_order(s, s.len() as int);
    match section_of(s, "printer"@, "max_velocity"@) {
        Err(e) => Err(e),
        Ok(printer) => match (
            required(printer, "printer"@, "max_velocity"@, positive),
            required(printer, "printer"@, "max_accel"@, positive),
        ) {
            (Err(e), _) => Err(e),
            (_, Err(e)) => Err(e),
            (Ok(max_velocity), Ok(max_accel)) => match printer_parts(
                s,
                printer,
                max_velocity,
                max_accel,
            ) {
                Err(e) => Err(e),
                Ok(r) => match sequence_break(tools, 0) {
                    Some(name) => Err(SnapshotError::OfflineExtruderSequence(name)),
                    None => match with_extruders(
                        r,
                        tools,
                        max_velocity,
                        max_accel,
                        tools.len() as int,
                    ) {
                        Err(e) => Err(e),
                        Ok(t) => if !has_key(t, "extruder"@) {
                            Err(no_option("extruder"@, "nozzle_diameter"@))
                        } else {
                            match with_extras(t, s) {
                                Err(e) => Err(e),
                                Ok(u) => with_transforms(u, s, s.len() as int),
                            }
                        },
                    },
                },
            },
        },
    }
}

/// The settings that the sections of configuration files resolve to.
pub fn resolve_offline_settings(s: &Sections) -> (r: Result<Settings, SnapshotError>)
    ensures
        deep_outcome(r) == resolved(s.deep_view()),
{
    let positive: Range = Range::Above(num(ZERO));
    let printer: &Options = find_section(s, "printer", "max_velocity")?;
    let max_velocity: Double = required_float(printer, "printer", "max_velocity", positive)?;
    let max_accel: Double = required_float(printer, "printer", "max_accel", positive)?;
    let settings: Settings = read_printer_parts(s, printer, max_velocity, max_accel)?;
    let tools: Vec<usize> = sort_tools(s);
    assert(s.deep_view().len() == s@.len());
    assert(picked(s.deep_view(), tools@).len() == tools@.len());
    check_sequence(s, &tools)?;
    let settings: Settings = add_extruders(settings, s, &tools, max_velocity, max_accel)?;
    if !settings.has("extruder") {
        return Err(missing_option("extruder", "nozzle_diameter"));
    }
    let settings: Settings = add_extras(settings, s)?;
    add_transforms(settings, s)
}

/// A section that the settings do not take into account.
pub open spec fn ignored(name: Seq<char>) -> bool {
    !(name == "printer"@ || name == "stepper_x"@ || name == "stepper_y"@ || name == "stepper_z"@
        || name == "stepper_a"@ || name == "stepper_b"@ || name == "stepper_c"@ || name
        == "stepper_bed"@ || name == "stepper_arm"@ || name == "stepper_left"@ || name
        == "stepper_right"@ || name == "firmware_retraction"@ || name == "gcode_arcs"@)
        && !names_extruder(name)
}

fn is_ignored(name: &str) -> (r: bool)
    ensures
        r == ignored(name@),
{
    !(same(name, "printer") || same(name, "stepper_x") || same(name, "stepper_y") || same(
        name,
        "stepper_z",
    ) || same(name, "stepper_a") || same(name, "stepper_b") || same(name, "stepper_c") || same(
        name,
        "stepper_bed",
    ) || same(name, "stepper_arm") || same(name, "stepper_left") || same(name, "stepper_right")
        || same(name, "firmware_retraction") || same(name, "gcode_arcs")) && !is_extruder_object(
        name,
    )
}

/// The ignored ones of the first `i` sections, with commas between them.
pub open spec fn ignored_names(s: SectionsView, i: int) -> Seq<char>
    decreases i,
{
    if i <= 0 {
        Seq::empty()
    } else {
        let prior = ignored_names(s, i - 1);
        if !ignored(s[i - 1].0) {
            prior
        } else if prior.len() == 0 {
            s[i - 1].0
        } else {
            prior + ", "@ + s[i - 1].0
        }
    }
}

/// The warning about sections that are not taken into account.
pub fn ignored_warning(s: &Sections) -> (r: Option<String>)
    ensures
        match r {
            Some(text) => ignored_names(s.deep_view(), s@.len() as int).len() > 0 && text@
                == "offline configuration sections not modeled by the estimator: "@
                + ignored_names(s.deep_view(), s@.len() as int),
            None => ignored_names(s.deep_view(), s@.len() as int).len() == 0,
        },
{
    let ghost v = s.deep_view();
    let mut names: String = String::new();
    let mut i: usize = 0;
    assert(names@ == Seq::<char>::empty());
    while i < s.len()
        invariant
            i <= s@.len(),
            v == s.deep_view(),
            names@ == ignored_names(v, i as int),
        decreases s@.len() - i,
    {
        let name: &str = s.key_at(i);
        assert(v[i as int].0 == name@);
        if is_ignored(name) {
            if names.as_str().unicode_len() == 0 {
                names = name.to_owned();
            } else {
                names.append(", ");
                names.append(name);
            }
        }
        i = i + 1;
    }
    if names.as_str().unicode_len() == 0 {
        return None;
    }
    let mut text: String = "offline configuration sections not modeled by the estimator: ".to_owned();
    text.append(names.as_str());
    Some(text)
}

/// A number as a setting.
pub open spec fn number_item(x: Double) -> ItemView {
    if x.is_finite() {
        Item::Number(x)
    } else {
        Item::Other
    }
}

/// How far a nozzle and a filament speed up extrusion by default.
pub open spec fn default_ratio(nozzle: Double, filament: Double) -> Double {
    (num(FOUR) * nozzle.squared()) / (num(PI) * (filament * num(HALF)).squared())
}

/// An object with a number set, looked up.
pub proof fn lemma_number(o: ObjectView, field: Seq<char>, x: Double, other: Seq<char>)
    ensures
        lookup(with_number(o, field, x), other) == if other == field {
            Some(number_item(x))
        } else {
            lookup(o, other)
        },
{
    lemma_lookup_inserted(o, field, number_item(x), other);
}

/// The names of the settings of an extruder differ.
proof fn lemma_extruder_names()
    ensures
        "max_extrude_only_velocity"@ != "max_extrude_only_accel"@,
        "max_extrude_only_velocity"@ != "max_extrude_only_distance"@,
        "max_extrude_only_velocity"@ != "instantaneous_corner_velocity"@,
        "max_extrude_only_accel"@ != "max_extrude_only_distance"@,
        "max_extrude_only_accel"@ != "instantaneous_corner_velocity"@,
        "max_extrude_cross_section"@ != "nozzle_diameter"@,
        "max_extrude_cross_section"@ != "filament_diameter"@,
        "max_extrude_cross_section"@ != "max_extrude_only_velocity"@,
        "max_extrude_cross_section"@ != "max_extrude_only_accel"@,
{
    reveal_strlit("max_extrude_only_velocity");
    reveal_strlit("max_extrude_only_accel");
    reveal_strlit("max_extrude_only_distance");
    reveal_strlit("instantaneous_corner_velocity");
    reveal_strlit("max_extrude_cross_section");
    reveal_strlit("nozzle_diameter");
    reveal_strlit("filament_diameter");
    assert("max_extrude_only_accel"@.len() == 22);
    assert("instantaneous_corner_velocity"@.len() == 29);
    assert("max_extrude_only_velocity"@[17] == 'v');
    assert("max_extrude_cross_section"@[12] == 'c');
    assert("max_extrude_only_distance"@[17] == 'd');
}

/// The extrude-only limits that an extruder has by default follow from its nozzle and its filament
/// alone; the cross section that it is configured with leaves them alone.
pub proof fn cross_section_leaves_extrusion_limits_alone(
    name: Seq<char>,
    o: OptionsView,
    max_velocity: Double,
    max_accel: Double,
    x: ObjectView,
)
    requires
        extruder_settings(name, o, max_velocity, max_accel) == Ok::<
            ObjectView,
            SnapshotError<Seq<char>>,
        >(x),
        lookup(o, "max_extrude_only_velocity"@) is None,
        lookup(o, "max_extrude_only_accel"@) is None,
    ensures
        ({
            let nozzle = required(o, name, "nozzle_diameter"@, Range::Above(num(ZERO)))->Ok_0;
            let filament = required(o, name, "filament_diameter"@, Range::AtLeast(nozzle))->Ok_0;
            let ratio = default_ratio(nozzle, filament);
            &&& lookup(x, "max_extrude_only_velocity"@) == Some(number_item(max_velocity * ratio))
            &&& lookup(x, "max_extrude_only_accel"@) == Some(number_item(max_accel * ratio))
        }),
{
    let positive = Range::Above(num(ZERO));
    let natural = Range::AtLeast(num(ZERO));
    let nozzle = required(o, name, "nozzle_diameter"@, positive)->Ok_0;
    let filament = required(o, name, "filament_diameter"@, Range::AtLeast(nozzle))->Ok_0;
    let cross = num(FOUR) * nozzle.squared();
    let ratio = default_ratio(nozzle, filament);
    let section = optional(o, name, "max_extrude_cross_section"@, cross, positive)->Ok_0;
    let distance = optional(o, name, "max_extrude_only_distance"@, num(FIFTY), natural)->Ok_0;
    let corner = optional(o, name, "instantaneous_corner_velocity"@, num(ONE), natural)->Ok_0;
    let velocity = max_velocity * ratio;
    let accel = max_accel * ratio;
    let a = with_number(empty_object(), "nozzle_diameter"@, nozzle);
    let b = with_number(a, "filament_diameter"@, filament);
    let c = with_number(b, "max_extrude_cross_section"@, section);
    let d = with_number(c, "max_extrude_only_velocity"@, velocity);
    let e = with_number(d, "max_extrude_only_accel"@, accel);
    let f = with_number(e, "max_extrude_only_distance"@, distance);
    assert(x == with_number(f, "instantaneous_corner_velocity"@, corner));
    lemma_extruder_names();
    let v = "max_extrude_only_velocity"@;
    let w = "max_extrude_only_accel"@;
    lemma_number(c, v, velocity, v);
    lemma_number(d, w, accel, v);
    lemma_number(d, w, accel, w);
    lemma_number(e, "max_extrude_only_distance"@, distance, v);
    lemma_number(e, "max_extrude_only_distance"@, distance, w);
    lemma_number(f, "instantaneous_corner_velocity"@, corner, v);
    lemma_number(f, "instantaneous_corner_velocity"@, corner, w);
}

/// Whether the options of an extruder are the same but for its cross section.
pub open spec fn same_but_cross_section(a: OptionsView, b: OptionsView) -> bool {
    forall|option: Seq<char>|
        option != "max_extrude_cross_section"@ ==> #[trigger] lookup(a, option) == lookup(
            b,
            option,
        )
}

/// The extruders in order are sections of the configuration.
pub proof fn lemma_tools(s: SectionsView, i: int)
    requires
        0 <= i <= s.len(),
    ensures
        forall|k: int|
            0 <= k < tools_in_order(s, i).len() ==> exists|j: int|
                0 <= j < i && s[j] == #[trigger] tools_in_order(s, i)[k],
    decreases i,
{
    if i > 0 {
        lemma_tools(s, i - 1);
        let prior = tools_in_order(s, i - 1);
        let all = tools_in_order(s, i);
        if names_extruder(s[i - 1].0) {
            let at = tool_slot(prior, tool_number(s[i - 1].0));
            lemma_tool_slot(prior, tool_number(s[i - 1].0));
            assert forall|k: int| 0 <= k < all.len() implies exists|j: int|
                0 <= j < i && s[j] == #[trigger] all[k] by {
                if k < at {
                    assert(all[k] == prior[k]);
                } else if k == at {
                    assert(s[i - 1] == all[k]);
                } else {
                    assert(all[k] == prior[k - 1]);
                }
            }
        }
    }
}

/// A slot among extruders lies within them.
pub proof fn lemma_tool_slot(list: SectionsView, n: nat)
    ensures
        0 <= tool_slot(list, n) <= list.len(),
    decreases list.len(),
{
    if list.len() > 0 && tool_number(list[0].0) <= n {
        lemma_tool_slot(list.skip(1), n);
    }
}

/// An object of the result is that of a section with its name, or was there before.
pub proof fn lemma_with_extruders(
    r: SettingsView,
    list: SectionsView,
    max_velocity: Double,
    max_accel: Double,
    i: int,
    t: SettingsView,
    name: Seq<char>,
)
    requires
        0 <= i <= list.len(),
        with_extruders(r, list, max_velocity, max_accel, i) == Ok::<
            SettingsView,
            SnapshotError<Seq<char>>,
        >(t),
    ensures
        lookup(t, name) == lookup(r, name) || exists|k: int|
            0 <= k < i && (#[trigger] list[k]).0 == name && extruder_settings(
                name,
                list[k].1,
                max_velocity,
                max_accel,
            ) is Ok && lookup(t, name) == Some(
                Entry::Object(
                    extruder_settings(name, list[k].1, max_velocity, max_accel)->Ok_0,
                ),
            ),
    decreases i,
{
    if i > 0 {
        let prior = with_extruders(r, list, max_velocity, max_accel, i - 1)->Ok_0;
        lemma_with_extruders(r, list, max_velocity, max_accel, i - 1, prior, name);
        let x = extruder_settings(list[i - 1].0, list[i - 1].1, max_velocity, max_accel)->Ok_0;
        lemma_lookup_inserted(prior, list[i - 1].0, Entry::Object(x), name);
    }
}

/// No other object has the name of the first extruder.
proof fn lemma_first_extruder_name()
    ensures
        "extruder"@ != "printer"@,
        "extruder"@ != "dual_carriage"@,
        "extruder"@ != "stepper_x"@,
        "extruder"@ != "stepper_y"@,
        "extruder"@ != "stepper_z"@,
        "extruder"@ != "stepper_a"@,
        "extruder"@ != "stepper_b"@,
        "extruder"@ != "stepper_c"@,
        "extruder"@ != "stepper_arm"@,
        "extruder"@ != "stepper_left"@,
        "extruder"@ != "stepper_right"@,
        "extruder"@ != "firmware_retraction"@,
        "extruder"@ != "gcode_arcs"@,
{
    reveal_strlit("extruder");
    reveal_strlit("printer");
    reveal_strlit("dual_carriage");
    reveal_strlit("stepper_x");
    reveal_strlit("stepper_y");
    reveal_strlit("stepper_z");
    reveal_strlit("stepper_a");
    reveal_strlit("stepper_b");
    reveal_strlit("stepper_c");
    reveal_strlit("stepper_arm");
    reveal_strlit("stepper_left");
    reveal_strlit("stepper_right");
    reveal_strlit("firmware_retraction");
    reveal_strlit("gcode_arcs");
    assert("extruder"@.len() == 8);
}

/// Three objects under names other than `name` do not add one under it.
proof fn lemma_objects(
    r: SettingsView,
    a: Seq<char>,
    b: Seq<char>,
    c: Seq<char>,
    x: ObjectView,
    y: ObjectView,
    z: ObjectView,
    name: Seq<char>,
)
    requires
        a != name,
        b != name,
        c != name,
    ensures
        lookup(with_object(r, a, x), name) == lookup(r, name),
        lookup(with_object(with_object(r, a, x), b, y), name) == lookup(r, name),
        lookup(with_object(with_object(with_object(r, a, x), b, y), c, z), name) == lookup(r, name),
{
    lemma_lookup_inserted(r, a, Entry::Object(x), name);
    let s = with_object(r, a, x);
    lemma_lookup_inserted(s, b, Entry::Object(y), name);
    lemma_lookup_inserted(with_object(s, b, y), c, Entry::Object(z), name);
}

proof fn lemma_backend_has_no_extruder(
    s: SectionsView,
    printer: OptionsView,
    p: ObjectView,
    steppers: SettingsView,
    q: ObjectView,
)
    requires
        backend_parts(s, printer, p) == Ok::<PartsView, SnapshotError<Seq<char>>>((steppers, q)),
    ensures
        lookup(steppers, "extruder"@) is None,
{
    let e = "extruder"@;
    let none = no_settings();
    lemma_first_extruder_name();
    assert(lookup(none, e) is None);
    if let Some(k) = lookup(printer, "kinematics"@) {
        if cartesian_kind(k) is Some {
            let x = axis_settings(s, "stepper_x"@)->Ok_0;
            let y = axis_settings(s, "stepper_y"@)->Ok_0;
            let z = axis_settings(s, "stepper_z"@)->Ok_0;
            lemma_objects(none, "stepper_x"@, "stepper_y"@, "stepper_z"@, x, y, z, e);
        } else if k == "delta"@ {
            let c = delta_common(s, printer)->Ok_0;
            let (r, arm, end) = (c.radius, c.arm, c.endstop);
            let x = delta_tower(s, "stepper_a"@, r, arm, end, num(TWO_HUNDRED_TEN))->Ok_0.0;
            let y = delta_tower(s, "stepper_b"@, r, arm, end, num(THREE_HUNDRED_THIRTY))->Ok_0.0;
            let z = delta_tower(s, "stepper_c"@, r, arm, end, num(NINETY))->Ok_0.0;
            lemma_objects(none, "stepper_a"@, "stepper_b"@, "stepper_c"@, x, y, z, e);
        } else if k == "polar"@ {
            lemma_polar_has_no_extruder(s, printer, p, steppers, q);
        } else if k == "deltesian"@ {
            lemma_deltesian_has_no_extruder(s, printer, p, steppers, q);
        } else if k == "rotary_delta"@ {
            lemma_rotary_has_no_extruder(s, printer, p, steppers, q);
        }
    }
}

proof fn lemma_polar_has_no_extruder(
    s: SectionsView,
    printer: OptionsView,
    p: ObjectView,
    steppers: SettingsView,
    q: ObjectView,
)
    requires
        polar_parts(s, printer, p) == Ok::<PartsView, SnapshotError<Seq<char>>>((steppers, q)),
    ensures
        lookup(steppers, "extruder"@) is None,
{
    let e = "extruder"@;
    lemma_first_extruder_name();
    assert(lookup(no_settings(), e) is None);
    let arm = section_of(s, "stepper_arm"@, "position_max"@)->Ok_0;
    let z = section_of(s, "stepper_z"@, "position_max"@)->Ok_0;
    let radius = required(arm, "stepper_arm"@, "position_max"@, Range::Above(num(ZERO)))->Ok_0;
    let lo = optional(z, "stepper_z"@, "position_min"@, num(ZERO), Range::Finite)->Ok_0;
    let hi = required(z, "stepper_z"@, "position_max"@, Range::Above(lo))->Ok_0;
    let x = with_number(empty_object(), "position_max"@, radius);
    let y = with_number(
        with_number(empty_object(), "position_min"@, lo),
        "position_max"@,
        hi,
    );
    lemma_objects(no_settings(), "stepper_arm"@, "stepper_z"@, "stepper_z"@, x, y, y, e);
}

proof fn lemma_deltesian_has_no_extruder(
    s: SectionsView,
    printer: OptionsView,
    p: ObjectView,
    steppers: SettingsView,
    q: ObjectView,
)
    requires
        deltesian_parts(s, printer, p) == Ok::<PartsView, SnapshotError<Seq<char>>>((steppers, q)),
    ensures
        lookup(steppers, "extruder"@) is None,
{
    let e = "extruder"@;
    lemma_first_extruder_name();
    assert(lookup(no_settings(), e) is None);
    let left = section_of(s, "stepper_left"@, "arm_length"@)->Ok_0;
    let arm_x = required(left, "stepper_left"@, "arm_x_length"@, Range::Above(num(ZERO)))->Ok_0;
    let arm = required(left, "stepper_left"@, "arm_length"@, Range::Above(arm_x))->Ok_0;
    let end = required(left, "stepper_left"@, "position_endstop"@, Range::Finite)->Ok_0;
    let x = side_settings(s, "stepper_left"@, arm_x, arm, end)->Ok_0;
    let y = side_settings(s, "stepper_right"@, arm_x, arm, end)->Ok_0;
    let o = section_of(s, "stepper_y"@, "position_max"@)->Ok_0;
    let lo = optional(o, "stepper_y"@, "position_min"@, num(ZERO), Range::Finite)->Ok_0;
    let hi = required(o, "stepper_y"@, "position_max"@, Range::Above(lo))->Ok_0;
    let z = with_number(
        with_number(empty_object(), "position_min"@, lo),
        "position_max"@,
        hi,
    );
    lemma_objects(no_settings(), "stepper_left"@, "stepper_right"@, "stepper_y"@, x, y, z, e);
}

proof fn lemma_rotary_has_no_extruder(
    s: SectionsView,
    printer: OptionsView,
    p: ObjectView,
    steppers: SettingsView,
    q: ObjectView,
)
    requires
        rotary_parts(s, printer, p) == Ok::<PartsView, SnapshotError<Seq<char>>>((steppers, q)),
    ensures
        lookup(steppers, "extruder"@) is None,
{
    let e = "extruder"@;
    lemma_first_extruder_name();
    assert(lookup(no_settings(), e) is None);
    let first = section_of(s, "stepper_a"@, "upper_arm_length"@)->Ok_0;
    let positive = Range::Above(num(ZERO));
    let u = required(first, "stepper_a"@, "upper_arm_length"@, positive)->Ok_0;
    let l = required(first, "stepper_a"@, "lower_arm_length"@, positive)->Ok_0;
    let t = required(first, "stepper_a"@, "position_endstop"@, Range::Finite)->Ok_0;
    let x = rotary_tower_settings(s, "stepper_a"@, u, l, t, num(THIRTY))->Ok_0;
    let y = rotary_tower_settings(s, "stepper_b"@, u, l, t, num(HUNDRED_FIFTY))->Ok_0;
    let z = rotary_tower_settings(s, "stepper_c"@, u, l, t, num(TWO_HUNDRED_SEVENTY))->Ok_0;
    lemma_objects(no_settings(), "stepper_a"@, "stepper_b"@, "stepper_c"@, x, y, z, e);
}

/// The general speed limit of a printer.
pub open spec fn printer_limit(s: SectionsView, option: Seq<char>) -> Double {
    required(
        lookup(s, "printer"@)->0,
        "printer"@,
        option,
        Range::Above(num(ZERO)),
    )->Ok_0
}

/// The first extruder of resolved settings is resolved from its own section.
pub proof fn first_extruder_is_resolved_from_its_section(s: SectionsView, r: SettingsView)
    requires
        in_order(s),
        resolved(s) == Ok::<SettingsView, SnapshotError<Seq<char>>>(r),
    ensures
        lookup(s, "extruder"@) matches Some(o) && extruder_settings(
            "extruder"@,
            o,
            printer_limit(s, "max_velocity"@),
            printer_limit(s, "max_accel"@),
        ) matches Ok(x) && lookup(r, "extruder"@) == Some(Entry::Object(x)),
{
    let e = "extruder"@;
    let positive = Range::Above(num(ZERO));
    let tools = tools_in_order(s, s.len() as int);
    let n = tools.len() as int;
    let printer = section_of(s, "printer"@, "max_velocity"@)->Ok_0;
    let v = printer_limit(s, "max_velocity"@);
    let a = printer_limit(s, "max_accel"@);
    let base = printer_parts(s, printer, v, a)->Ok_0;
    let t = with_extruders(base, tools, v, a, n)->Ok_0;
    lemma_first_extruder_name();
    // The parts of the printer and its backend.
    let p = printer_settings(printer, v, a)->Ok_0;
    let (steppers, q) = backend_parts(s, printer, p)->Ok_0;
    lemma_backend_has_no_extruder(s, printer, p, steppers, q);
    lemma_objects(
        steppers,
        "printer"@,
        "dual_carriage"@,
        "dual_carriage"@,
        q,
        empty_object(),
        empty_object(),
        e,
    );
    assert(lookup(base, e) is None);
    lemma_with_extruders(base, tools, v, a, n, t, e);
    assert(lookup(t, e) is Some);
    let k = choose|k: int|
        0 <= k < n && (#[trigger] tools[k]).0 == e && extruder_settings(e, tools[k].1, v, a) is Ok
            && lookup(t, e) == Some(Entry::Object(extruder_settings(e, tools[k].1, v, a)->Ok_0));
    lemma_tools(s, s.len() as int);
    let j = choose|j: int| 0 <= j < s.len() && s[j] == tools[k];
    lemma_position(s, e);
    if position(s, e) != j {
        lemma_before_irreflexive(e);
    }
    assert(lookup(s, e) == Some(tools[k].1));
    // The extras.
    let o = match lookup(s, "firmware_retraction"@) {
        Some(f) => retraction_settings(f)->Ok_0,
        None => empty_object(),
    };
    let arcs = match lookup(s, "gcode_arcs"@) {
        Some(g) => with_number(
            empty_object(),
            "resolution"@,
            optional(g, "gcode_arcs"@, "resolution"@, num(ONE), positive)->Ok_0,
        ),
        None => empty_object(),
    };
    lemma_objects(
        t,
        "firmware_retraction"@,
        "gcode_arcs"@,
        "gcode_arcs"@,
        o,
        arcs,
        arcs,
        e,
    );
    lemma_objects(t, "gcode_arcs"@, "gcode_arcs"@, "gcode_arcs"@, arcs, arcs, arcs, e);
    // The transforms.
    let u = with_extras(t, s)->Ok_0;
    lemma_extruder_is_no_transform();
    transforms_leave_the_rest_alone(u, s, s.len() as int, e);
}

proof fn lemma_extruder_is_no_transform()
    ensures
        forall|o: OptionsView| transform_section("extruder"@, o) is None,
{
    let e = "extruder"@;
    reveal_strlit("extruder");
    reveal_strlit("bed_mesh");
    reveal_strlit("bed_mesh ");
    reveal_strlit("skew_correction");
    reveal_strlit("skew_correction ");
    assert(e[0] == 'e' && "bed_mesh"@[0] == 'b' && "skew_correction"@[0] == 's');
    if has_prefix(e, "bed_mesh "@) {
        assert(e.take("bed_mesh "@.len() as int)[0] == e[0]);
    }
    if has_prefix(e, "skew_correction "@) {
        assert(e.take("skew_correction "@.len() as int)[0] == e[0]);
    }
}

/// Two configurations that differ only in the cross section of their first extruder, which sets no
/// extrude-only limits, give it the same extrude-only limits: those that follow from its nozzle
/// and its filament.
pub proof fn configured_cross_section_leaves_defaults_alone(
    s: SectionsView,
    t: SectionsView,
    a: SettingsView,
    b: SettingsView,
)
    requires
        in_order(s),
        in_order(t),
        resolved(s) == Ok::<SettingsView, SnapshotError<Seq<char>>>(a),
        resolved(t) == Ok::<SettingsView, SnapshotError<Seq<char>>>(b),
        lookup(s, "printer"@) == lookup(t, "printer"@),
        lookup(s, "extruder"@) matches Some(o) && lookup(t, "extruder"@) matches Some(p)
            && same_but_cross_section(o, p) && lookup(o, "max_extrude_only_velocity"@) is None
            && lookup(o, "max_extrude_only_accel"@) is None,
    ensures
        object_in(a, "extruder"@) matches Some(x) && object_in(b, "extruder"@) matches Some(y)
            && lookup(x, "max_extrude_only_velocity"@) == lookup(y, "max_extrude_only_velocity"@)
            && lookup(x, "max_extrude_only_accel"@) == lookup(y, "max_extrude_only_accel"@)
            && lookup(x, "max_extrude_only_velocity"@) is Some,
{
    first_extruder_is_resolved_from_its_section(s, a);
    first_extruder_is_resolved_from_its_section(t, b);
    let e = "extruder"@;
    let o = lookup(s, e)->0;
    let p = lookup(t, e)->0;
    let v = printer_limit(s, "max_velocity"@);
    let w = printer_limit(s, "max_accel"@);
    let x = extruder_settings(e, o, v, w)->Ok_0;
    let y = extruder_settings(e, p, v, w)->Ok_0;
    lemma_extruder_names();
    assert(lookup(o, "max_extrude_only_velocity"@) == lookup(p, "max_extrude_only_velocity"@));
    assert(lookup(o, "max_extrude_only_accel"@) == lookup(p, "max_extrude_only_accel"@));
    assert(lookup(o, "nozzle_diameter"@) == lookup(p, "nozzle_diameter"@));
    assert(lookup(o, "filament_diameter"@) == lookup(p, "filament_diameter"@));
    cross_section_leaves_extrusion_limits_alone(e, o, v, w, x);
    cross_section_leaves_extrusion_limits_alone(e, p, v, w, y);
}

} // verus!
