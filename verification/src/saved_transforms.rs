//! Motion transforms in configuration files: their settings and their saved profiles.

use vstd::prelude::*;

use crate::decimal::parse_double;
use crate::decimal::parsed;
use crate::double::Double;
use crate::errors::deep_outcome;
use crate::errors::Outcome;
use crate::errors::SnapshotError;
use crate::motion_transform::rows;
use crate::offline::Options;
use crate::offline::OptionsView;
use crate::offline::Sections;
use crate::offline::SectionsView;
use crate::resolution::empty_object;
use crate::resolution::float_of;
use crate::resolution::new_object;
use crate::resolution::parse_float;
use crate::resolution::set_number;
use crate::resolution::set_object;
use crate::resolution::with_number;
use crate::resolution::with_object;
use crate::resolution::Range;
use crate::settings::Entry;
use crate::settings::Item;
use crate::settings::Object;
use crate::settings::ObjectView;
use crate::settings::Settings;
use crate::settings::SettingsView;
use crate::table::inserted;
use crate::table::lemma_lookup_inserted;
use crate::table::lookup;
use crate::text::has_prefix;
use crate::text::same;
use crate::text::split;
use crate::text::split_char;
use crate::text::starts_with;
use crate::text::trim;
use crate::text::trimmed;
use crate::text::views;

verus! {

/// The numbers among the first `i` pieces of a row, if each piece is a finite number.
pub open spec fn row_of(pieces: Seq<Seq<char>>, i: int) -> Option<Seq<Double>>
    decreases i,
{
    if i <= 0 {
        Some(Seq::empty())
    } else {
        match (row_of(pieces, i - 1), parsed(trim(pieces[i - 1]))) {
            (Some(row), Some(x)) => if x.is_finite() {
                Some(row.push(x))
            } else {
                None
            },
            _ => None,
        }
    }
}

proof fn lemma_row_fails(pieces: Seq<Seq<char>>, i: int, j: int)
    requires
        0 <= i <= j,
        row_of(pieces, i) is None,
    ensures
        row_of(pieces, j) is None,
    decreases j,
{
    if i < j {
        lemma_row_fails(pieces, i, j - 1);
    }
}

fn read_row(line: &str) -> (r: Option<Vec<Double>>)
    ensures
        row_of(split(line@, ','), split(line@, ',').len() as int) == match r {
            Some(row) => Some(row@),
            None => None,
        },
{
    let pieces: Vec<&str> = split_char(line, ',');
    let ghost v = split(line@, ',');
    let mut row: Vec<Double> = Vec::new();
    let mut i: usize = 0;
    while i < pieces.len()
        invariant
            i <= pieces@.len(),
            v == views(pieces@),
            v == split(line@, ','),
            row_of(v, i as int) == Some(row@),
        decreases pieces.len() - i,
    {
        assert(v[i as int] == pieces@[i as int]@);
        let x: Option<Double> = match parse_double(trimmed(pieces[i])) {
            Some(x) => if x.is_finite() {
                Some(x)
            } else {
                None
            },
            None => None,
        };
        match x {
            Some(x) => row.push(x),
            None => {
                proof {
                    lemma_row_fails(v, i + 1, v.len() as int);
                }
                return None;
            },
        }
        i = i + 1;
    }
    Some(row)
}

/// The rows on the first `i` lines; blank lines are none.
pub open spec fn rows_of(lines: Seq<Seq<char>>, i: int) -> Option<Seq<Seq<Double>>>
    decreases i,
{
    if i <= 0 {
        Some(Seq::empty())
    } else {
        let line = lines[i - 1];
        match rows_of(lines, i - 1) {
            None => None,
            Some(all) => if trim(line).len() == 0 {
                Some(all)
            } else {
                match row_of(split(line, ','), split(line, ',').len() as int) {
                    Some(row) => Some(all.push(row)),
                    None => None,
                }
            },
        }
    }
}

proof fn lemma_rows_fail(lines: Seq<Seq<char>>, i: int, j: int)
    requires
        0 <= i <= j,
        rows_of(lines, i) is None,
    ensures
        rows_of(lines, j) is None,
    decreases j,
{
    if i < j {
        lemma_rows_fail(lines, i, j - 1);
    }
}

fn read_rows(value: &str) -> (r: Option<Vec<Vec<Double>>>)
    ensures
        rows_of(split(value@, '\n'), split(value@, '\n').len() as int) == match r {
            Some(all) => Some(rows(all@)),
            None => None,
        },
{
    let lines: Vec<&str> = split_char(value, '\n');
    let ghost v = split(value@, '\n');
    let mut all: Vec<Vec<Double>> = Vec::new();
    let mut i: usize = 0;
    assert(rows(all@) == Seq::<Seq<Double>>::empty());
    while i < lines.len()
        invariant
            i <= lines@.len(),
            v == views(lines@),
            v == split(value@, '\n'),
            rows_of(v, i as int) == Some(rows(all@)),
        decreases lines.len() - i,
    {
        assert(v[i as int] == lines@[i as int]@);
        if trimmed(lines[i]).unicode_len() > 0 {
            match read_row(lines[i]) {
                Some(row) => {
                    let ghost before = rows(all@);
                    let ghost x = row@;
                    all.push(row);
                    assert(rows(all@) == before.push(x));
                },
                None => {
                    proof {
                        lemma_rows_fail(v, i + 1, v.len() as int);
                    }
                    return None;
                },
            }
        }
        i = i + 1;
    }
    Some(all)
}

/// An object with a number that may be set.
pub open spec fn with_float(
    r: Outcome<ObjectView>,
    o: OptionsView,
    section: Seq<char>,
    option: Seq<char>,
) -> Outcome<ObjectView> {
    match (r, lookup(o, option)) {
        (Err(e), _) => Err(e),
        (Ok(object), None) => Ok(object),
        (Ok(object), Some(value)) => match float_of(section, option, value, Range::Finite) {
            Ok(x) => Ok(with_number(object, option, x)),
            Err(e) => Err(e),
        },
    }
}

fn add_float(
    r: Result<Object, SnapshotError>,
    options: &Options,
    section: &str,
    option: &str,
) -> (out: Result<Object, SnapshotError>)
    ensures
        deep_outcome(out) == with_float(deep_outcome(r), options.deep_view(), section@, option@),
{
    let mut object: Object = r?;
    if let Some(value) = options.find(option) {
        let x: Double = parse_float(section, option, value.as_str(), Range::Finite)?;
        set_number(&mut object, option, x);
    }
    Ok(object)
}

/// How meshes apply.
pub open spec fn mesh_options(o: OptionsView, section: Seq<char>) -> Outcome<ObjectView> {
    let a = with_float(Ok(empty_object()), o, section, "fade_start"@);
    let b = with_float(a, o, section, "fade_end"@);
    let c = with_float(b, o, section, "fade_target"@);
    let d = with_float(c, o, section, "split_delta_z"@);
    with_float(d, o, section, "move_check_distance"@)
}

fn read_mesh_options(o: &Options, section: &str) -> (r: Result<Object, SnapshotError>)
    ensures
        deep_outcome(r) == mesh_options(o.deep_view(), section@),
{
    let a = add_float(Ok(new_object()), o, section, "fade_start");
    let b = add_float(a, o, section, "fade_end");
    let c = add_float(b, o, section, "fade_target");
    let d = add_float(c, o, section, "split_delta_z");
    add_float(d, o, section, "move_check_distance")
}

/// A saved mesh.
pub open spec fn mesh_profile(o: OptionsView, section: Seq<char>) -> Outcome<ObjectView> {
    let a = with_float(Ok(empty_object()), o, section, "min_x"@);
    let b = with_float(a, o, section, "max_x"@);
    let c = with_float(b, o, section, "min_y"@);
    let d = with_float(c, o, section, "max_y"@);
    let e = with_float(d, o, section, "mesh_x_pps"@);
    let f = with_float(e, o, section, "mesh_y_pps"@);
    match with_float(f, o, section, "tension"@) {
        Err(e) => Err(e),
        Ok(object) => {
            let named = match lookup(o, "algo"@) {
                Some(name) => inserted(object, "algo"@, Item::Text(name)),
                None => object,
            };
            match lookup(o, "points"@) {
                None => Ok(named),
                Some(value) => match rows_of(split(value, '\n'), split(value, '\n').len() as int) {
                    Some(points) => Ok(inserted(named, "points"@, Item::List(points))),
                    None => Err(
                        SnapshotError::OfflineValue {
                            section,
                            option: "points"@,
                            value,
                            message: "expected rows of numbers"@,
                        },
                    ),
                },
            }
        },
    }
}

fn read_mesh_profile(o: &Options, section: &str) -> (r: Result<Object, SnapshotError>)
    ensures
        deep_outcome(r) == mesh_profile(o.deep_view(), section@),
{
    let a = add_float(Ok(new_object()), o, section, "min_x");
    let b = add_float(a, o, section, "max_x");
    let c = add_float(b, o, section, "min_y");
    let d = add_float(c, o, section, "max_y");
    let e = add_float(d, o, section, "mesh_x_pps");
    let f = add_float(e, o, section, "mesh_y_pps");
    let mut object: Object = add_float(f, o, section, "tension")?;
    if let Some(name) = o.find("algo") {
        object.put("algo", Item::Text(name.clone()));
    }
    if let Some(value) = o.find("points") {
        match read_rows(value.as_str()) {
            Some(points) => object.put("points", Item::List(points)),
            None => {
                return Err(
                    SnapshotError::OfflineValue {
                        section: section.to_owned(),
                        option: "points".to_owned(),
                        value: value.clone(),
                        message: "expected rows of numbers".to_owned(),
                    },
                );
            },
        }
    }
    Ok(object)
}

/// A saved skew.
pub open spec fn skew_profile(o: OptionsView, section: Seq<char>) -> Outcome<ObjectView> {
    let a = with_float(Ok(empty_object()), o, section, "xy_skew"@);
    let b = with_float(a, o, section, "xz_skew"@);
    with_float(b, o, section, "yz_skew"@)
}

fn read_skew_profile(o: &Options, section: &str) -> (r: Result<Object, SnapshotError>)
    ensures
        deep_outcome(r) == skew_profile(o.deep_view(), section@),
{
    let a = add_float(Ok(new_object()), o, section, "xy_skew");
    let b = add_float(a, o, section, "xz_skew");
    add_float(b, o, section, "yz_skew")
}

/// The settings of a section, if it is about a transform.
pub open spec fn transform_section(name: Seq<char>, o: OptionsView) -> Option<Outcome<ObjectView>> {
    if name == "bed_mesh"@ {
        Some(mesh_options(o, name))
    } else if name == "skew_correction"@ {
        Some(Ok(empty_object()))
    } else if has_prefix(name, "bed_mesh "@) {
        Some(mesh_profile(o, name))
    } else if has_prefix(name, "skew_correction "@) {
        Some(skew_profile(o, name))
    } else {
        None
    }
}

fn read_transform_section(name: &str, o: &Options) -> (r: Option<Result<Object, SnapshotError>>)
    ensures
        transform_section(name@, o.deep_view()) == match r {
            Some(x) => Some(deep_outcome(x)),
            None => None,
        },
{
    if same(name, "bed_mesh") {
        Some(read_mesh_options(o, name))
    } else if same(name, "skew_correction") {
        Some(Ok(new_object()))
    } else if starts_with(name, "bed_mesh ") {
        Some(read_mesh_profile(o, name))
    } else if starts_with(name, "skew_correction ") {
        Some(read_skew_profile(o, name))
    } else {
        None
    }
}

/// Settings with the transforms among the first `i` sections.
pub open spec fn with_transforms(r: SettingsView, s: SectionsView, i: int) -> Outcome<SettingsView>
    decreases i,
{
    if i <= 0 {
        Ok(r)
    } else {
        match with_transforms(r, s, i - 1) {
            Err(e) => Err(e),
            Ok(t) => match transform_section(s[i - 1].0, s[i - 1].1) {
                None => Ok(t),
                Some(Err(e)) => Err(e),
                Some(Ok(o)) => Ok(with_object(t, s[i - 1].0, o)),
            },
        }
    }
}

proof fn lemma_transforms_fail(r: SettingsView, s: SectionsView, i: int, j: int)
    requires
        0 <= i <= j,
        with_transforms(r, s, i) is Err,
    ensures
        with_transforms(r, s, j) == with_transforms(r, s, i),
    decreases j,
{
    if i < j {
        lemma_transforms_fail(r, s, i, j - 1);
    }
}

pub fn add_transforms(settings: Settings, s: &Sections) -> (r: Result<Settings, SnapshotError>)
    ensures
        deep_outcome(r) == with_transforms(
            settings.deep_view(),
            s.deep_view(),
            s.deep_view().len() as int,
        ),
{
    let ghost v = s.deep_view();
    let ghost base = settings.deep_view();
    let mut out: Settings = settings;
    let mut i: usize = 0;
    assert(v.len() == s@.len());
    while i < s.len()
        invariant
            i <= s@.len(),
            v == s.deep_view(),
            v.len() == s@.len(),
            base == settings.deep_view(),
            with_transforms(base, v, i as int) == Ok::<SettingsView, SnapshotError<Seq<char>>>(
                out.deep_view(),
            ),
        decreases s@.len() - i,
    {
        let name: &str = s.key_at(i);
        let o: &Options = s.value_at(i);
        assert(v[i as int] == (name@, o.deep_view()));
        match read_transform_section(name, o) {
            None => {},
            Some(Err(e)) => {
                proof {
                    lemma_transforms_fail(base, v, i + 1, v.len() as int);
                }
                return Err(e);
            },
            Some(Ok(object)) => set_object(&mut out, name, object),
        }
        i = i + 1;
    }
    Ok(out)
}

/// Transforms leave the settings of everything else alone.
pub proof fn transforms_leave_the_rest_alone(
    r: SettingsView,
    s: SectionsView,
    i: int,
    name: Seq<char>,
)
    requires
        forall|o: OptionsView| transform_section(name, o) is None,
    ensures
        with_transforms(r, s, i) matches Ok(t) ==> lookup(t, name) == lookup(r, name),
    decreases i,
{
    if i > 0 {
        transforms_leave_the_rest_alone(r, s, i - 1, name);
        if let Ok(t) = with_transforms(r, s, i - 1) {
            if let Some(Ok(o)) = transform_section(s[i - 1].0, s[i - 1].1) {
                lemma_lookup_inserted(t, s[i - 1].0, Entry::Object(o), name);
            }
        }
    }
}

} // verus!
