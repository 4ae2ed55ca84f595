//! What saved and active transforms are taken to be.

use vstd::prelude::*;

use crate::constants::FIVE;
use crate::constants::SPLIT_DELTA_Z;
use crate::decimal::parsed;
use crate::double::num;
use crate::double::Double;
use crate::double::ONE;
use crate::double::ZERO;
use crate::errors::Outcome;
use crate::imports::active_mesh;
use crate::imports::list_of;
use crate::imports::mesh_settings;
use crate::imports::saved_mesh;
use crate::imports::saved_meshes;
use crate::imports::saved_skew;
use crate::imports::saved_skews;
use crate::imports::with_active_mesh;
use crate::mesh_laws::meshes_pass_through_their_probed_points;
use crate::motion_transform::is_grid;
use crate::motion_transform::MeshConfigView;
use crate::motion_transform::SkewFactors;
use crate::offline::OptionsView;
use crate::resolution::empty_object;
use crate::resolution::float_of;
use crate::resolution::Range;
use crate::saved_transforms::mesh_profile;
use crate::saved_transforms::row_of;
use crate::saved_transforms::rows_of;
use crate::saved_transforms::skew_profile;
use crate::saved_transforms::with_float;
use crate::settings::number_else;
use crate::settings::number_of;
use crate::settings::object_in;
use crate::settings::Entry;
use crate::settings::Item;
use crate::settings::ObjectView;
use crate::settings::SettingsView;
use crate::table::inserted;
use crate::table::lemma_lookup_inserted;
use crate::table::lookup;
use crate::text::after_prefix;
use crate::text::split;
use crate::text::trim;

verus! {

proof fn lemma_prefix(prefix: Seq<char>, name: Seq<char>, other: Seq<char>)
    ensures
        after_prefix(prefix + name, prefix) == Some(name),
        after_prefix(other, prefix) == Some(name) ==> other == prefix + name,
{
    let n = prefix.len() as int;
    assert((prefix + name).take(n) == prefix);
    assert((prefix + name).skip(n) == name);
    if after_prefix(other, prefix) == Some(name) {
        assert(other == other.take(n) + other.skip(n));
    }
}

/// A section that saves a skew has its three factors, under the name of the section.
pub proof fn saved_skews_are_read_as_saved(
    s: SettingsView,
    i: int,
    n: int,
    name: Seq<char>,
    o: ObjectView,
    f: SkewFactors,
)
    requires
        0 <= i < n <= s.len(),
        s[i] == ("skew_correction "@ + name, Entry::Object(o)),
        forall|k: int| i < k < n ==> (#[trigger] s[k]).0 != s[i].0,
        number_of(o, "xy_skew"@) == Some(f.xy),
        number_of(o, "xz_skew"@) == Some(f.xz),
        number_of(o, "yz_skew"@) == Some(f.yz),
    ensures
        lookup(saved_skews(s, n), name) == Some(f),
    decreases n,
{
    let last = s[n - 1];
    let prefix = "skew_correction "@;
    lemma_prefix(prefix, name, last.0);
    if n - 1 > i {
        saved_skews_are_read_as_saved(s, i, n - 1, name, o, f);
        match (after_prefix(last.0, prefix), last.1) {
            (Some(other), Entry::Object(p)) => match saved_skew(p) {
                Some(factors) => {
                    lemma_lookup_inserted(saved_skews(s, n - 1), other, factors, name);
                    assert(other != name) by {
                        if other == name {
                            assert(last.0 == s[i].0);
                        }
                    }
                },
                None => {},
            },
            _ => {},
        }
    } else {
        lemma_lookup_inserted(saved_skews(s, n - 1), name, f, name);
    }
}

/// A section that saves a mesh has the mesh of its points, under the name of the section.
pub proof fn saved_meshes_are_read_as_saved(
    s: SettingsView,
    i: int,
    n: int,
    name: Seq<char>,
    o: ObjectView,
)
    requires
        0 <= i < n <= s.len(),
        s[i] == ("bed_mesh "@ + name, Entry::Object(o)),
        forall|k: int| i < k < n ==> (#[trigger] s[k]).0 != s[i].0,
        saved_mesh(o) is Some,
    ensures
        lookup(saved_meshes(s, n), name) == saved_mesh(o),
    decreases n,
{
    let last = s[n - 1];
    let prefix = "bed_mesh "@;
    lemma_prefix(prefix, name, last.0);
    if n - 1 > i {
        saved_meshes_are_read_as_saved(s, i, n - 1, name, o);
        match (after_prefix(last.0, prefix), last.1) {
            (Some(other), Entry::Object(p)) => match saved_mesh(p) {
                Some(mesh) => {
                    lemma_lookup_inserted(saved_meshes(s, n - 1), other, mesh, name);
                    assert(other != name) by {
                        if other == name {
                            assert(last.0 == s[i].0);
                        }
                    }
                },
                None => {},
            },
            _ => {},
        }
    } else {
        lemma_lookup_inserted(saved_meshes(s, n - 1), name, saved_mesh(o)->0, name);
    }
}

/// A saved mesh lies between its saved corners and passes through its saved points.
pub proof fn saved_meshes_hold_their_points(
    o: ObjectView,
    points: Seq<Seq<Double>>,
    x: u64,
    y: u64,
    i: int,
    j: int,
)
    requires
        list_of(o, "points"@) == Some(points),
        is_grid(points),
        x == number_else(o, "mesh_x_pps"@, num(crate::constants::TWO)).to_u64(),
        y == number_else(o, "mesh_y_pps"@, num(crate::constants::TWO)).to_u64(),
        0 <= j < points.len(),
        0 <= i < points[0].len(),
    ensures
        saved_mesh(o) matches Some(mesh) ==> {
            &&& number_of(o, "min_x"@) == Some(mesh.min[0])
            &&& number_of(o, "min_y"@) == Some(mesh.min[1])
            &&& number_of(o, "max_x"@) == Some(mesh.max[0])
            &&& number_of(o, "max_y"@) == Some(mesh.max[1])
            &&& mesh.matrix[j * (y + 1)][i * (x + 1)] == points[j][i]
        },
{
    if saved_mesh(o) is Some {
        let mesh = saved_mesh(o)->0;
        let name = crate::imports::algorithm_of(o);
        let tension = number_else(o, "tension"@, num(crate::constants::MESH_TENSION));
        meshes_pass_through_their_probed_points(
            mesh.min,
            mesh.max,
            points,
            [x as usize, y as usize],
            name,
            tension,
            i,
            j,
        );
    }
}

/// A printer's settings say how its meshes fade and how moves are split along them. Without a
/// word on it, meshes do not fade, and moves are split at every fifth millimetre at most.
pub proof fn meshes_apply_as_set(s: SettingsView, o: ObjectView)
    requires
        object_in(s, "bed_mesh"@) == Some(o),
    ensures
        mesh_settings(s) is Some,
        ({
            let c = mesh_settings(s)->0;
            &&& c.initial_profile is None
            &&& c.fade_start == match number_of(o, "fade_start"@) {
                Some(v) => v,
                None => num(ONE),
            }
            &&& c.fade_end == match number_of(o, "fade_end"@) {
                Some(v) => v,
                None => num(ZERO),
            }
            &&& c.fade_target == number_of(o, "fade_target"@)
            &&& c.split_delta_z == match number_of(o, "split_delta_z"@) {
                Some(v) => v,
                None => num(SPLIT_DELTA_Z),
            }
            &&& c.move_check_distance == match number_of(o, "move_check_distance"@) {
                Some(v) => v,
                None => num(FIVE),
            }
            &&& c.profiles == saved_meshes(s, s.len() as int)
        }),
{
}

/// The mesh that a printer reports as active is the one that is applied, under its name. The
/// other meshes stay.
pub proof fn active_meshes_are_applied(
    known: MeshConfigView,
    status: SettingsView,
    other: Seq<char>,
)
    ensures
        active_mesh(status) is None ==> with_active_mesh(Some(known), status) == Some(known),
        active_mesh(status) matches Some((name, mesh)) ==> ({
            let c = with_active_mesh(Some(known), status);
            &&& c is Some
            &&& c->0.initial_profile == Some(name)
            &&& lookup(c->0.profiles, other) == if other == name {
                Some(mesh)
            } else {
                lookup(known.profiles, other)
            }
            &&& c->0.fade_start == known.fade_start
            &&& c->0.fade_end == known.fade_end
            &&& c->0.fade_target == known.fade_target
            &&& c->0.split_delta_z == known.split_delta_z
            &&& c->0.move_check_distance == known.move_check_distance
        }),
{
    match active_mesh(status) {
        Some((name, mesh)) => lemma_lookup_inserted(known.profiles, name, mesh, other),
        None => {},
    }
}

/// A row of a saved mesh is the numbers between its commas.
pub proof fn rows_are_numbers_between_commas(pieces: Seq<Seq<char>>, n: int, k: int)
    requires
        0 <= k < n,
    ensures
        row_of(pieces, n) matches Some(row) ==> row.len() == n && parsed(trim(pieces[k])) == Some(
            row[k],
        ) && row[k].finite(),
    decreases n,
{
    if k < n - 1 {
        rows_are_numbers_between_commas(pieces, n - 1, k);
    } else if n - 1 > 0 {
        rows_are_numbers_between_commas(pieces, n - 1, 0);
    }
}

/// The lines that hold something, among the first `n`.
pub open spec fn filled(lines: Seq<Seq<char>>, n: int) -> Seq<Seq<char>>
    decreases n,
{
    if n <= 0 {
        Seq::empty()
    } else if trim(lines[n - 1]).len() == 0 {
        filled(lines, n - 1)
    } else {
        filled(lines, n - 1).push(lines[n - 1])
    }
}

/// The rows of a saved mesh are its lines in their order, but for empty ones.
pub proof fn rows_are_lines(lines: Seq<Seq<char>>, n: int)
    requires
        0 <= n <= lines.len(),
    ensures
        rows_of(lines, n) matches Some(all) ==> {
            &&& all.len() == filled(lines, n).len()
            &&& forall|j: int|
                0 <= j < all.len() ==> row_of(
                    split(#[trigger] filled(lines, n)[j], ','),
                    split(filled(lines, n)[j], ',').len() as int,
                ) == Some(all[j])
        },
    decreases n,
{
    if n > 0 {
        rows_are_lines(lines, n - 1);
    }
}

/// The number that an option is set to, if it is set to one.
pub open spec fn number_set(o: OptionsView, section: Seq<char>, option: Seq<char>) -> Option<Double> {
    match lookup(o, option) {
        Some(value) => match float_of(section, option, value, Range::Finite) {
            Ok(x) => Some(x),
            Err(_) => None,
        },
        None => None,
    }
}

proof fn lemma_float(
    r: Outcome<ObjectView>,
    o: OptionsView,
    section: Seq<char>,
    option: Seq<char>,
)
    ensures
        with_float(r, o, section, option) matches Ok(object) ==> {
            &&& r is Ok
            &&& forall|f: Seq<char>| #[trigger]
                number_of(object, f) == if f == option && lookup(o, option) is Some {
                    number_set(o, section, option)
                } else {
                    number_of(r->Ok_0, f)
                }
        },
{
    if with_float(r, o, section, option) is Ok && lookup(o, option) is Some {
        let known = r->Ok_0;
        let x = number_set(o, section, option)->0;
        let object = with_float(r, o, section, option)->Ok_0;
        assert forall|f: Seq<char>| #[trigger] number_of(object, f) == if f == option && lookup(
            o,
            option,
        ) is Some {
            number_set(o, section, option)
        } else {
            number_of(r->Ok_0, f)
        } by {
            lemma_lookup_inserted(known, option, Item::Number(x), f);
        }
    }
}

/// A skew profile has the factors that its section sets.
pub proof fn skew_profiles_are_saved_as_written(o: OptionsView, section: Seq<char>)
    ensures
        skew_profile(o, section) matches Ok(object) ==> {
            &&& number_of(object, "xy_skew"@) == number_set(o, section, "xy_skew"@)
            &&& number_of(object, "xz_skew"@) == number_set(o, section, "xz_skew"@)
            &&& number_of(object, "yz_skew"@) == number_set(o, section, "yz_skew"@)
        },
{
    reveal_strlit("xy_skew");
    reveal_strlit("xz_skew");
    reveal_strlit("yz_skew");
    assert("xy_skew"@[1] == 'y' && "xz_skew"@[1] == 'z');
    assert("xy_skew"@[0] == 'x' && "xz_skew"@[0] == 'x' && "yz_skew"@[0] == 'y');
    let a = with_float(Ok(empty_object()), o, section, "xy_skew"@);
    let b = with_float(a, o, section, "xz_skew"@);
    lemma_float(Ok(empty_object()), o, section, "xy_skew"@);
    lemma_float(a, o, section, "xz_skew"@);
    lemma_float(b, o, section, "yz_skew"@);
}

/// A mesh profile has the corners that its section sets.
pub proof fn mesh_profiles_are_saved_as_written(o: OptionsView, section: Seq<char>)
    ensures
        mesh_profile(o, section) matches Ok(object) ==> {
            &&& number_of(object, "min_x"@) == number_set(o, section, "min_x"@)
            &&& number_of(object, "max_x"@) == number_set(o, section, "max_x"@)
            &&& number_of(object, "min_y"@) == number_set(o, section, "min_y"@)
            &&& number_of(object, "max_y"@) == number_set(o, section, "max_y"@)
            &&& lookup(o, "points"@) matches Some(value) ==> list_of(object, "points"@) == rows_of(
                split(value, '\n'),
                split(value, '\n').len() as int,
            )
        },
{
    lemma_mesh_names();
    let a = with_float(Ok(empty_object()), o, section, "min_x"@);
    let b = with_float(a, o, section, "max_x"@);
    let c = with_float(b, o, section, "min_y"@);
    let d = with_float(c, o, section, "max_y"@);
    let e = with_float(d, o, section, "mesh_x_pps"@);
    let f = with_float(e, o, section, "mesh_y_pps"@);
    let g = with_float(f, o, section, "tension"@);
    lemma_float(Ok(empty_object()), o, section, "min_x"@);
    lemma_float(a, o, section, "max_x"@);
    lemma_float(b, o, section, "min_y"@);
    lemma_float(c, o, section, "max_y"@);
    lemma_float(d, o, section, "mesh_x_pps"@);
    lemma_float(e, o, section, "mesh_y_pps"@);
    lemma_float(f, o, section, "tension"@);
    if mesh_profile(o, section) is Ok {
        let object = g->Ok_0;
        let named = match lookup(o, "algo"@) {
            Some(name) => inserted(object, "algo"@, Item::Text(name)),
            None => object,
        };
        let corners = seq!["min_x"@, "max_x"@, "min_y"@, "max_y"@, "points"@];
        assert forall|i: int| 0 <= i < 4 implies number_of(named, #[trigger] corners[i])
            == number_of(object, corners[i]) by {
            match lookup(o, "algo"@) {
                Some(name) => lemma_lookup_inserted(
                    object,
                    "algo"@,
                    Item::Text(name),
                    corners[i],
                ),
                None => {},
            }
        }
        match lookup(o, "points"@) {
            Some(value) => {
                let points = rows_of(split(value, '\n'), split(value, '\n').len() as int)->0;
                assert forall|i: int| 0 <= i < 5 implies lookup(
                    inserted(named, "points"@, Item::List(points)),
                    #[trigger] corners[i],
                ) == if i == 4 {
                    Some(Item::List(points))
                } else {
                    lookup(named, corners[i])
                } by {
                    lemma_lookup_inserted(named, "points"@, Item::List(points), corners[i]);
                }
                assert(corners[4] == "points"@);
            },
            None => {},
        }
        assert(corners[0] == "min_x"@ && corners[1] == "max_x"@ && corners[2] == "min_y"@
            && corners[3] == "max_y"@);
    }
}

proof fn lemma_mesh_names()
    ensures
        "min_x"@ != "max_x"@,
        "min_x"@ != "min_y"@,
        "min_x"@ != "max_y"@,
        "max_x"@ != "min_y"@,
        "max_x"@ != "max_y"@,
        "min_y"@ != "max_y"@,
        "min_x"@.len() == 5,
        "max_x"@.len() == 5,
        "min_y"@.len() == 5,
        "max_y"@.len() == 5,
        "mesh_x_pps"@.len() == 10,
        "mesh_y_pps"@.len() == 10,
        "tension"@.len() == 7,
        "algo"@.len() == 4,
        "points"@.len() == 6,
{
    reveal_strlit("min_x");
    reveal_strlit("max_x");
    reveal_strlit("min_y");
    reveal_strlit("max_y");
    reveal_strlit("mesh_x_pps");
    reveal_strlit("mesh_y_pps");
    reveal_strlit("tension");
    reveal_strlit("algo");
    reveal_strlit("points");
    assert("min_x"@[1] == 'i' && "max_x"@[1] == 'a' && "min_y"@[1] == 'i' && "max_y"@[1] == 'a');
    assert("min_x"@[4] == 'x' && "max_x"@[4] == 'x' && "min_y"@[4] == 'y' && "max_y"@[4] == 'y');
}

} // verus!
