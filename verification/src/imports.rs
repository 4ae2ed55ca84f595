//! Motion transforms that a printer reports: saved profiles, and what is active.

use vstd::prelude::*;

use crate::constants::FIVE;
use crate::constants::MESH_TENSION;
use crate::constants::SPLIT_DELTA_Z;
use crate::constants::TWO;
use crate::double::num;
use crate::double::Double;
use crate::double::ONE;
use crate::double::ZERO;
use crate::kinds::texts;
use crate::motion_transform::copy_rows;
use crate::motion_transform::meshes;
use crate::motion_transform::rows;
use crate::motion_transform::usable;
use crate::motion_transform::BedMeshConfig;
use crate::motion_transform::BedMeshProfile;
use crate::motion_transform::MeshConfigView;
use crate::motion_transform::MeshView;
use crate::motion_transform::MotionTransformConfig;
use crate::motion_transform::SkewConfigView;
use crate::motion_transform::SkewCorrectionConfig;
use crate::motion_transform::SkewFactors;
use crate::motion_transform::TransformsView;
use crate::settings::number_else;
use crate::settings::number_of;
use crate::settings::number_or_else;
use crate::settings::object_in;
use crate::settings::optional_number;
use crate::settings::optional_object;
use crate::settings::optional_text;
use crate::settings::text_in;
use crate::settings::Entry;
use crate::settings::Item;
use crate::settings::Object;
use crate::settings::ObjectView;
use crate::settings::Settings;
use crate::settings::SettingsView;
use crate::table::has_key;
use crate::table::inserted;
use crate::table::lookup;
use crate::table::Table;
use crate::text::after_prefix;
use crate::text::strip_prefix;

verus! {

/// The list under a name.
pub open spec fn list_of(o: ObjectView, field: Seq<char>) -> Option<Seq<Seq<Double>>> {
    match lookup(o, field) {
        Some(Item::List(l)) => Some(l),
        _ => None,
    }
}

fn optional_list<'a>(o: &'a Object, field: &str) -> (r: Option<&'a Vec<Vec<Double>>>)
    ensures
        list_of(o.deep_view(), field@) == match r {
            Some(l) => Some(rows(l@)),
            None => None,
        },
{
    match o.find(field) {
        Some(Item::List(l)) => Some(l),
        _ => None,
    }
}

/// The points added to each segment of a mesh, in X and Y.
pub open spec fn added_points(o: ObjectView) -> (u64, u64) {
    (
        number_else(o, "mesh_x_pps"@, num(TWO)).to_u64(),
        number_else(o, "mesh_y_pps"@, num(TWO)).to_u64(),
    )
}

/// The name of the interpolation of a mesh.
pub open spec fn algorithm_of(o: ObjectView) -> Seq<char> {
    match text_in(o, "algo"@) {
        Some(name) => name,
        None => "lagrange"@,
    }
}

/// Whether a line of `count` points still has a number of points when each segment gets `added`
/// more.
pub open spec fn countable(count: nat, added: u64) -> bool {
    added < usize::MAX && (count == 0 || (count - 1) * (added + 1) + 1 <= usize::MAX)
}

fn is_countable(count: usize, added: u64) -> (r: bool)
    ensures
        r == countable(count as nat, added),
{
    if added >= usize::MAX as u64 {
        return false;
    }
    if count == 0 {
        return true;
    }
    let a: u128 = (count - 1) as u128;
    let b: u128 = added as u128 + 1;
    assert(a * b + 1 <= 0xffff_ffff_ffff_ffff_ffff_ffff_ffff_ffff) by (nonlinear_arith)
        requires
            a <= 0xffff_ffff_ffff_fffe,
            b <= 0xffff_ffff_ffff_ffff,
    ;
    a * b + 1 <= usize::MAX as u128
}

/// The mesh of a saved profile: its probed points, interpolated. A profile without proper points
/// is none.
pub open spec fn saved_mesh(o: ObjectView) -> Option<MeshView> {
    match (
        number_of(o, "min_x"@),
        number_of(o, "min_y"@),
        number_of(o, "max_x"@),
        number_of(o, "max_y"@),
        list_of(o, "points"@),
    ) {
        (Some(min_x), Some(min_y), Some(max_x), Some(max_y), Some(points)) => {
            let (x, y) = added_points(o);
            let width = if points.len() > 0 {
                points[0].len()
            } else {
                0
            };
            if countable(width, x) && countable(points.len(), y) {
                match BedMeshProfile::interpolated(
                    [min_x, min_y],
                    [max_x, max_y],
                    points,
                    [x as usize, y as usize],
                    algorithm_of(o),
                    number_else(o, "tension"@, num(MESH_TENSION)),
                ) {
                    Some(matrix) => Some(
                        MeshView { min: [min_x, min_y], max: [max_x, max_y], matrix },
                    ),
                    None => None,
                }
            } else {
                None
            }
        },
        _ => None,
    }
}

pub open spec fn mesh_option(r: Option<BedMeshProfile>) -> Option<MeshView> {
    match r {
        Some(p) => Some(p@),
        None => None,
    }
}

fn read_saved_mesh(o: &Object) -> (r: Option<BedMeshProfile>)
    ensures
        mesh_option(r) == saved_mesh(o.deep_view()),
{
    let min_x: Double = optional_number(o, "min_x")?;
    let min_y: Double = optional_number(o, "min_y")?;
    let max_x: Double = optional_number(o, "max_x")?;
    let max_y: Double = optional_number(o, "max_y")?;
    let found: &Vec<Vec<Double>> = optional_list(o, "points")?;
    let points: Vec<Vec<Double>> = copy_rows(found);
    let ghost v = rows(found@);
    let x: u64 = number_or_else(o, "mesh_x_pps", num(TWO)).to_u64();
    let y: u64 = number_or_else(o, "mesh_y_pps", num(TWO)).to_u64();
    let width: usize = if points.len() > 0 {
        assert(rows(points@)[0] == points@[0]@);
        points[0].len()
    } else {
        0
    };
    assert(points@.len() == v.len());
    if !is_countable(width, x) || !is_countable(points.len(), y) {
        return None;
    }
    let algorithm: &str = match optional_text(o, "algo") {
        Some(name) => name,
        None => "lagrange",
    };
    let tension: Double = number_or_else(o, "tension", num(MESH_TENSION));
    BedMeshProfile::from_probed(
        [min_x, min_y],
        [max_x, max_y],
        points,
        [x as usize, y as usize],
        algorithm,
        tension,
    )
}

/// The saved meshes among the first `i` sections.
pub open spec fn saved_meshes(s: SettingsView, i: int) -> Seq<(Seq<char>, MeshView)>
    decreases i,
{
    if i <= 0 {
        Seq::empty()
    } else {
        match (after_prefix(s[i - 1].0, "bed_mesh "@), s[i - 1].1) {
            (Some(name), Entry::Object(o)) => match saved_mesh(o) {
                Some(mesh) => inserted(saved_meshes(s, i - 1), name, mesh),
                None => saved_meshes(s, i - 1),
            },
            _ => saved_meshes(s, i - 1),
        }
    }
}

fn read_saved_meshes(s: &Settings) -> (r: Table<BedMeshProfile>)
    ensures
        r.deep_view() == saved_meshes(s.deep_view(), s@.len() as int),
        r.well_formed(),
{
    let ghost v = s.deep_view();
    let mut found: Table<BedMeshProfile> = Table::new();
    assert(found.deep_view() == Seq::<(Seq<char>, MeshView)>::empty());
    let mut i: usize = 0;
    while i < s.len()
        invariant
            i <= s@.len(),
            v == s.deep_view(),
            found.well_formed(),
            found.deep_view() == saved_meshes(v, i as int),
        decreases s@.len() - i,
    {
        let section: &str = s.key_at(i);
        assert(v[i as int] == (section@, s@[i as int].1.deep_view()));
        if let Some(name) = strip_prefix(section, "bed_mesh ") {
            if let Entry::Object(o) = s.value_at(i) {
                if let Some(mesh) = read_saved_mesh(o) {
                    found.put(name, mesh);
                }
            }
        }
        i = i + 1;
    }
    found
}

/// The factors of a saved skew profile.
pub open spec fn saved_skew(o: ObjectView) -> Option<SkewFactors> {
    match (number_of(o, "xy_skew"@), number_of(o, "xz_skew"@), number_of(o, "yz_skew"@)) {
        (Some(xy), Some(xz), Some(yz)) => Some(SkewFactors { xy, xz, yz }),
        _ => None,
    }
}

fn read_saved_skew(o: &Object) -> (r: Option<SkewFactors>)
    ensures
        r == saved_skew(o.deep_view()),
{
    let xy: Double = optional_number(o, "xy_skew")?;
    let xz: Double = optional_number(o, "xz_skew")?;
    let yz: Double = optional_number(o, "yz_skew")?;
    Some(SkewFactors { xy, xz, yz })
}

/// The saved skew profiles among the first `i` sections.
pub open spec fn saved_skews(s: SettingsView, i: int) -> Seq<(Seq<char>, SkewFactors)>
    decreases i,
{
    if i <= 0 {
        Seq::empty()
    } else {
        match (after_prefix(s[i - 1].0, "skew_correction "@), s[i - 1].1) {
            (Some(name), Entry::Object(o)) => match saved_skew(o) {
                Some(factors) => inserted(saved_skews(s, i - 1), name, factors),
                None => saved_skews(s, i - 1),
            },
            _ => saved_skews(s, i - 1),
        }
    }
}

fn read_saved_skews(s: &Settings) -> (r: Table<SkewFactors>)
    ensures
        r@ == saved_skews(s.deep_view(), s@.len() as int),
        r.well_formed(),
{
    let ghost v = s.deep_view();
    let mut found: Table<SkewFactors> = Table::new();
    let mut i: usize = 0;
    while i < s.len()
        invariant
            i <= s@.len(),
            v == s.deep_view(),
            found.well_formed(),
            found@ == saved_skews(v, i as int),
        decreases s@.len() - i,
    {
        let section: &str = s.key_at(i);
        assert(v[i as int] == (section@, s@[i as int].1.deep_view()));
        if let Some(name) = strip_prefix(section, "skew_correction ") {
            if let Entry::Object(o) = s.value_at(i) {
                if let Some(factors) = read_saved_skew(o) {
                    found.insert(name, factors);
                }
            }
        }
        i = i + 1;
    }
    found
}

/// How meshes apply without settings of their own.
pub open spec fn usual_mesh(profiles: Seq<(Seq<char>, MeshView)>) -> MeshConfigView {
    MeshConfigView {
        profiles,
        initial_profile: None,
        fade_start: num(ONE),
        fade_end: num(ZERO),
        fade_target: None,
        split_delta_z: num(SPLIT_DELTA_Z),
        move_check_distance: num(FIVE),
    }
}

/// The saved meshes and how they apply. None is active.
pub open spec fn mesh_settings(s: SettingsView) -> Option<MeshConfigView> {
    let profiles = saved_meshes(s, s.len() as int);
    match object_in(s, "bed_mesh"@) {
        Some(o) => Some(
            MeshConfigView {
                profiles,
                initial_profile: None,
                fade_start: number_else(o, "fade_start"@, num(ONE)),
                fade_end: number_else(o, "fade_end"@, num(ZERO)),
                fade_target: number_of(o, "fade_target"@),
                split_delta_z: number_else(o, "split_delta_z"@, num(SPLIT_DELTA_Z)),
                move_check_distance: number_else(o, "move_check_distance"@, num(FIVE)),
            },
        ),
        None => if profiles.len() > 0 {
            Some(usual_mesh(profiles))
        } else {
            None
        },
    }
}

fn read_mesh_settings(s: &Settings) -> (r: Option<BedMeshConfig>)
    ensures
        mesh_settings(s.deep_view()) == match r {
            Some(c) => Some(c@),
            None => None,
        },
{
    let profiles: Table<BedMeshProfile> = read_saved_meshes(s);
    assert(meshes(profiles@) == profiles.deep_view());
    assert(s.deep_view().len() == s@.len());
    match optional_object(s, "bed_mesh") {
        Some(o) => Some(
            BedMeshConfig {
                profiles,
                initial_profile: None,
                fade_start: number_or_else(o, "fade_start", num(ONE)),
                fade_end: number_or_else(o, "fade_end", num(ZERO)),
                fade_target: optional_number(o, "fade_target"),
                split_delta_z: number_or_else(o, "split_delta_z", num(SPLIT_DELTA_Z)),
                move_check_distance: number_or_else(o, "move_check_distance", num(FIVE)),
            },
        ),
        None => if profiles.len() > 0 {
            Some(BedMeshConfig { profiles, ..BedMeshConfig::defaults() })
        } else {
            None
        },
    }
}

/// The saved skew profiles. None is active.
pub open spec fn skew_settings(s: SettingsView) -> Option<SkewConfigView> {
    let profiles = saved_skews(s, s.len() as int);
    if object_in(s, "skew_correction"@) is Some || profiles.len() > 0 {
        Some(SkewConfigView { profiles, initial_profile: None })
    } else {
        None
    }
}

fn read_skew_settings(s: &Settings) -> (r: Option<SkewCorrectionConfig>)
    ensures
        skew_settings(s.deep_view()) == match r {
            Some(c) => Some(c@),
            None => None,
        },
{
    let profiles: Table<SkewFactors> = read_saved_skews(s);
    assert(s.deep_view().len() == s@.len());
    if optional_object(s, "skew_correction").is_some() || profiles.len() > 0 {
        Some(SkewCorrectionConfig { profiles, initial_profile: None })
    } else {
        None
    }
}

/// The transforms that settings allow: all of them are known, and none is active.
pub open spec fn settings_transforms(s: SettingsView) -> TransformsView {
    TransformsView {
        bed_mesh: mesh_settings(s),
        skew_correction: skew_settings(s),
        unsupported_active: Seq::empty(),
    }
}

pub fn transforms_from_settings(s: &Settings) -> (r: MotionTransformConfig)
    ensures
        r@ == settings_transforms(s.deep_view()),
{
    let unsupported_active: Vec<String> = Vec::new();
    assert(texts(unsupported_active@) == Seq::<Seq<char>>::empty());
    MotionTransformConfig {
        bed_mesh: read_mesh_settings(s),
        skew_correction: read_skew_settings(s),
        unsupported_active,
    }
}

/// A point in the plane: a list of two numbers.
pub open spec fn point_of(o: ObjectView, field: Seq<char>) -> Option<[Double; 2]> {
    match list_of(o, field) {
        Some(l) => if l.len() == 2 && l[0].len() == 1 && l[1].len() == 1 {
            Some([l[0][0], l[1][0]])
        } else {
            None
        },
        None => None,
    }
}

fn optional_point(o: &Object, field: &str) -> (r: Option<[Double; 2]>)
    ensures
        r == point_of(o.deep_view(), field@),
{
    let l: &Vec<Vec<Double>> = optional_list(o, field)?;
    if l.len() != 2 {
        return None;
    }
    assert(rows(l@)[0] == l@[0]@ && rows(l@)[1] == l@[1]@);
    if l[0].len() == 1 && l[1].len() == 1 {
        Some([l[0][0], l[1][0]])
    } else {
        None
    }
}

/// The mesh that a running printer applies, with its name, which need not be that of a saved
/// profile.
pub open spec fn active_mesh(status: SettingsView) -> Option<(Seq<char>, MeshView)> {
    match object_in(status, "bed_mesh"@) {
        Some(o) => match (
            text_in(o, "profile_name"@),
            point_of(o, "mesh_min"@),
            point_of(o, "mesh_max"@),
            list_of(o, "mesh_matrix"@),
        ) {
            (Some(name), Some(min), Some(max), Some(matrix)) => if usable(min, max, matrix) {
                Some((name, MeshView { min, max, matrix }))
            } else {
                None
            },
            _ => None,
        },
        None => None,
    }
}

fn read_active_mesh(status: &Settings) -> (r: Option<(String, BedMeshProfile)>)
    ensures
        active_mesh(status.deep_view()) == match r {
            Some((name, mesh)) => Some((name@, mesh@)),
            None => None,
        },
{
    let o: &Object = optional_object(status, "bed_mesh")?;
    let name: &str = optional_text(o, "profile_name")?;
    let min: [Double; 2] = optional_point(o, "mesh_min")?;
    let max: [Double; 2] = optional_point(o, "mesh_max")?;
    let matrix: &Vec<Vec<Double>> = optional_list(o, "mesh_matrix")?;
    let mesh: BedMeshProfile = BedMeshProfile { min, max, matrix: copy_rows(matrix) };
    if mesh.is_valid() {
        Some((name.to_owned(), mesh))
    } else {
        None
    }
}

/// The meshes with the active one of a running printer.
pub open spec fn with_active_mesh(known: Option<MeshConfigView>, status: SettingsView) -> Option<
    MeshConfigView,
> {
    match active_mesh(status) {
        Some((name, mesh)) => {
            let c = match known {
                Some(c) => c,
                None => usual_mesh(Seq::empty()),
            };
            Some(
                MeshConfigView {
                    profiles: inserted(c.profiles, name, mesh),
                    initial_profile: Some(name),
                    ..c
                },
            )
        },
        None => known,
    }
}

fn add_active_mesh(known: Option<BedMeshConfig>, status: &Settings) -> (r: Option<BedMeshConfig>)
    ensures
        with_active_mesh(
            match known {
                Some(c) => Some(c@),
                None => None,
            },
            status.deep_view(),
        ) == match r {
            Some(c) => Some(c@),
            None => None,
        },
{
    match read_active_mesh(status) {
        Some((name, mesh)) => {
            let mut c: BedMeshConfig = match known {
                Some(c) => c,
                None => {
                    let c = BedMeshConfig::defaults();
                    assert(c@ == usual_mesh(Seq::empty()));
                    c
                },
            };
            let ghost before = c@;
            assert(meshes(c.profiles@) == c.profiles.deep_view());
            c.profiles.put(name.as_str(), mesh);
            assert(meshes(c.profiles@) == c.profiles.deep_view());
            c.initial_profile = Some(name);
            Some(c)
        },
        None => known,
    }
}

/// The skew profiles with the one that a running printer names. The factors that it applies are
/// not reported and may differ.
pub open spec fn with_active_skew(known: Option<SkewConfigView>, status: SettingsView) -> Option<
    SkewConfigView,
> {
    match (known, object_in(status, "skew_correction"@)) {
        (Some(c), Some(o)) => match text_in(o, "current_profile_name"@) {
            Some(name) => if has_key(c.profiles, name) {
                Some(SkewConfigView { initial_profile: Some(name), ..c })
            } else {
                known
            },
            None => known,
        },
        _ => known,
    }
}

fn add_active_skew(known: Option<SkewCorrectionConfig>, status: &Settings) -> (r: Option<
    SkewCorrectionConfig,
>)
    ensures
        with_active_skew(
            match known {
                Some(c) => Some(c@),
                None => None,
            },
            status.deep_view(),
        ) == match r {
            Some(c) => Some(c@),
            None => None,
        },
{
    match (known, optional_object(status, "skew_correction")) {
        (Some(c), Some(o)) => {
            let mut c: SkewCorrectionConfig = c;
            if let Some(name) = optional_text(o, "current_profile_name") {
                if c.profiles.contains_key(name) {
                    c.initial_profile = Some(name.to_owned());
                }
            }
            Some(c)
        },
        (known, _) => known,
    }
}

/// Whether a flag of a reported object is set.
pub open spec fn flagged(status: SettingsView, name: Seq<char>, field: Seq<char>) -> bool {
    match object_in(status, name) {
        Some(o) => lookup(o, field) == Some(Item::<Seq<char>, Seq<Seq<Double>>>::Flag(true)),
        None => false,
    }
}

fn has_flag(status: &Settings, name: &str, field: &str) -> (r: bool)
    ensures
        r == flagged(status.deep_view(), name@, field@),
{
    match optional_object(status, name) {
        Some(o) => match o.find(field) {
            Some(Item::Flag(b)) => *b,
            _ => false,
        },
        None => false,
    }
}

/// Whether a list of a reported object has elements.
pub open spec fn listed(status: SettingsView, name: Seq<char>, field: Seq<char>) -> bool {
    match object_in(status, name) {
        Some(o) => list_of(o, field) matches Some(l) && l.len() > 0,
        None => false,
    }
}

fn has_elements(status: &Settings, name: &str, field: &str) -> (r: bool)
    ensures
        r == listed(status.deep_view(), name@, field@),
{
    match optional_object(status, name) {
        Some(o) => match optional_list(o, field) {
            Some(l) => l.len() > 0,
            None => false,
        },
        None => false,
    }
}

/// A list with one more text, if a condition holds.
pub open spec fn and_if(list: Seq<Seq<char>>, condition: bool, text: Seq<char>) -> Seq<Seq<char>> {
    if condition {
        list.push(text)
    } else {
        list
    }
}

fn push_if(list: &mut Vec<String>, condition: bool, text: &str)
    ensures
        texts(final(list)@) == and_if(texts(old(list)@), condition, text@),
{
    if condition {
        let t: String = text.to_owned();
        let ghost before = texts(list@);
        let ghost added = t@;
        list.push(t);
        assert(texts(list@) == before.push(added));
    }
}

/// The active transforms of a running printer that are not modelled.
pub open spec fn unsupported_transforms(status: SettingsView) -> Seq<Seq<char>> {
    let tilt = and_if(Seq::empty(), object_in(status, "bed_tilt"@) is Some, "bed_tilt"@);
    let thermal = and_if(
        tilt,
        flagged(status, "z_thermal_adjust"@, "enabled"@),
        "z_thermal_adjust"@,
    );
    and_if(thermal, listed(status, "exclude_object"@, "excluded_objects"@), "exclude_object"@)
}

/// The transforms of a running printer.
pub open spec fn runtime_transforms(known: TransformsView, status: SettingsView) -> TransformsView {
    TransformsView {
        bed_mesh: with_active_mesh(known.bed_mesh, status),
        skew_correction: with_active_skew(known.skew_correction, status),
        unsupported_active: unsupported_transforms(status),
    }
}

/// The transforms of a running printer, given those that its settings allow.
pub fn transforms_at_runtime(known: MotionTransformConfig, status: &Settings) -> (r:
    MotionTransformConfig)
    ensures
        r@ == runtime_transforms(known@, status.deep_view()),
{
    let mut unsupported_active: Vec<String> = Vec::new();
    assert(texts(unsupported_active@) == Seq::<Seq<char>>::empty());
    push_if(
        &mut unsupported_active,
        optional_object(status, "bed_tilt").is_some(),
        "bed_tilt",
    );
    push_if(
        &mut unsupported_active,
        has_flag(status, "z_thermal_adjust", "enabled"),
        "z_thermal_adjust",
    );
    push_if(
        &mut unsupported_active,
        has_elements(status, "exclude_object", "excluded_objects"),
        "exclude_object",
    );
    MotionTransformConfig {
        bed_mesh: add_active_mesh(known.bed_mesh, status),
        skew_correction: add_active_skew(known.skew_correction, status),
        unsupported_active,
    }
}

/// What is uncertain about the transforms of a running printer.
pub open spec fn transform_warnings(status: SettingsView) -> Seq<Seq<char>> {
    let skew = and_if(
        Seq::empty(),
        object_in(status, "skew_correction"@) is Some,
        "Klipper does not report its active skew factors"@,
    );
    let tilt = and_if(
        skew,
        object_in(status, "bed_tilt"@) is Some,
        "active motion transform 'bed_tilt' is unsupported"@,
    );
    let thermal = and_if(
        tilt,
        flagged(status, "z_thermal_adjust"@, "enabled"@),
        "active motion transform 'z_thermal_adjust' is unsupported"@,
    );
    and_if(
        thermal,
        listed(status, "exclude_object"@, "excluded_objects"@),
        "active motion transform 'exclude_object' is unsupported"@,
    )
}

/// Warns of what is uncertain about the transforms of a running printer.
pub fn warn_of_transforms(status: &Settings) -> (r: Vec<String>)
    ensures
        texts(r@) == transform_warnings(status.deep_view()),
{
    let mut warnings: Vec<String> = Vec::new();
    assert(texts(warnings@) == Seq::<Seq<char>>::empty());
    push_if(
        &mut warnings,
        optional_object(status, "skew_correction").is_some(),
        "Klipper does not report its active skew factors",
    );
    push_if(
        &mut warnings,
        optional_object(status, "bed_tilt").is_some(),
        "active motion transform 'bed_tilt' is unsupported",
    );
    push_if(
        &mut warnings,
        has_flag(status, "z_thermal_adjust", "enabled"),
        "active motion transform 'z_thermal_adjust' is unsupported",
    );
    push_if(
        &mut warnings,
        has_elements(status, "exclude_object", "excluded_objects"),
        "active motion transform 'exclude_object' is unsupported",
    );
    warnings
}

/// Settings alone activate no transform.
pub proof fn settings_activate_no_transform(s: SettingsView)
    ensures
        settings_transforms(s).bed_mesh matches Some(c) ==> c.initial_profile is None,
        settings_transforms(s).skew_correction matches Some(c) ==> c.initial_profile is None,
        settings_transforms(s).unsupported_active.len() == 0,
{
}

/// Whatever is not modelled is warned of.
pub proof fn unsupported_transforms_are_warned_of(status: SettingsView)
    ensures
        unsupported_transforms(status).len() > 0 ==> transform_warnings(status).len() > 0,
        object_in(status, "skew_correction"@) is Some ==> transform_warnings(status).len() > 0,
        unsupported_transforms(status).len() <= transform_warnings(status).len(),
{
}

} // verus!
