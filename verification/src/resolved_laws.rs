//! What configuration files say is what they resolve to.

use vstd::prelude::*;

use crate::constants::FIFTY;
use crate::constants::FIVE;
use crate::constants::FOUR;
use crate::constants::HALF;
use crate::constants::PI;
use crate::constants::TEN;
use crate::constants::THREE;
use crate::constants::TWENTY;
use crate::decimal::parsed;
use crate::double::num;
use crate::double::Double;
use crate::double::ONE;
use crate::double::ZERO;
use crate::errors::SnapshotError;
use crate::machine::cartesian_kind;
use crate::offline::OptionsView;
use crate::offline::SectionsView;
use crate::resolution::axis_settings;
use crate::resolution::backend_parts;
use crate::resolution::delta_common;
use crate::resolution::delta_parts;
use crate::resolution::deltesian_parts;
use crate::resolution::empty_object;
use crate::resolution::extruder_settings;
use crate::resolution::lemma_number;
use crate::resolution::lemma_tool_slot;
use crate::resolution::lemma_with_extruders;
use crate::resolution::limits_z;
use crate::resolution::no_settings;
use crate::resolution::number_item;
use crate::resolution::polar_parts;
use crate::resolution::printer_parts;
use crate::resolution::printer_settings;
use crate::resolution::resolved;
use crate::resolution::retraction_settings;
use crate::resolution::rotary_parts;
use crate::resolution::tool_number;
use crate::resolution::tool_slot;
use crate::resolution::tools_in_order;
use crate::resolution::with_extras;
use crate::resolution::with_extruders;
use crate::resolution::with_number;
use crate::resolution::with_object;
use crate::resolution::with_optional;
use crate::saved_transforms::transform_section;
use crate::saved_transforms::transforms_leave_the_rest_alone;
use crate::settings::names_extruder;
use crate::settings::object_in;
use crate::settings::Entry;
use crate::settings::Item;
use crate::settings::ItemView;
use crate::settings::ObjectView;
use crate::settings::SettingsView;
use crate::table::inserted;
use crate::table::lemma_lookup_inserted;
use crate::table::lookup;
use crate::text::has_prefix;

verus! {

/// Whether a field holds the finite number that the text of the option with its name stands for.
pub open spec fn as_written(o: OptionsView, object: ObjectView, field: Seq<char>) -> bool {
    lookup(o, field) matches Some(text) && parsed(text) matches Some(x) && x.finite() && lookup(
        object,
        field,
    ) == Some(Item::<Seq<char>, Seq<Seq<Double>>>::Number(x))
}

/// Whether a field holds the number that the text of the option with its name stands for, or the
/// default if there is no such option.
pub open spec fn as_set(
    o: OptionsView,
    object: ObjectView,
    field: Seq<char>,
    default: Double,
) -> bool {
    if lookup(o, field) is Some {
        as_written(o, object, field)
    } else {
        lookup(object, field) == Some(number_item(default))
    }
}

/// As before, or there is no such field where there is neither an option nor a default.
pub open spec fn as_set_if_any(
    o: OptionsView,
    object: ObjectView,
    field: Seq<char>,
    default: Option<Double>,
) -> bool {
    if lookup(o, field) is Some {
        as_written(o, object, field)
    } else {
        lookup(object, field) == match default {
            Some(x) => Some(number_item(x)),
            None => None,
        }
    }
}

/// The number in a field.
pub open spec fn number_of(object: ObjectView, field: Seq<char>) -> Double {
    match lookup(object, field) {
        Some(Item::Number(x)) => x,
        _ => num(ZERO),
    }
}

proof fn lemma_all_numbers()
    ensures
        forall|o: ObjectView, f: Seq<char>, x: Double, g: Seq<char>|
            #[trigger] lookup(with_number(o, f, x), g) == if g == f {
                Some(number_item(x))
            } else {
                lookup(o, g)
            },
        forall|o: ObjectView, f: Seq<char>, x: Option<Double>, g: Seq<char>|
            #[trigger] lookup(with_optional(o, f, x), g) == if g == f && x is Some {
                Some(number_item(x->0))
            } else {
                lookup(o, g)
            },
        forall|o: ObjectView, f: Seq<char>, x: ItemView, g: Seq<char>|
            #[trigger] lookup(inserted(o, f, x), g) == if g == f {
                Some(x)
            } else {
                lookup(o, g)
            },
        forall|o: SettingsView, f: Seq<char>, x: ObjectView, g: Seq<char>|
            #[trigger] lookup(with_object(o, f, x), g) == if g == f {
                Some(Entry::Object(x))
            } else {
                lookup(o, g)
            },
        forall|g: Seq<char>| #[trigger] lookup(empty_object(), g) is None,
        forall|g: Seq<char>| #[trigger] lookup(no_settings(), g) is None,
{
    assert forall|o: ObjectView, f: Seq<char>, x: Double, g: Seq<char>|
        #[trigger] lookup(with_number(o, f, x), g) == if g == f {
            Some(number_item(x))
        } else {
            lookup(o, g)
        } by {
        lemma_number(o, f, x, g);
    }
    assert forall|o: ObjectView, f: Seq<char>, x: Option<Double>, g: Seq<char>|
        #[trigger] lookup(with_optional(o, f, x), g) == if g == f && x is Some {
            Some(number_item(x->0))
        } else {
            lookup(o, g)
        } by {
        if x is Some {
            lemma_number(o, f, x->0, g);
        }
    }
    assert forall|o: ObjectView, f: Seq<char>, x: ItemView, g: Seq<char>|
        #[trigger] lookup(inserted(o, f, x), g) == if g == f {
            Some(x)
        } else {
            lookup(o, g)
        } by {
        lemma_lookup_inserted(o, f, x, g);
    }
    assert forall|o: SettingsView, f: Seq<char>, x: ObjectView, g: Seq<char>|
        #[trigger] lookup(with_object(o, f, x), g) == if g == f {
            Some(Entry::Object(x))
        } else {
            lookup(o, g)
        } by {
        lemma_lookup_inserted(o, f, Entry::Object(x), g);
    }
}

/// The names of the settings of a printer differ.
proof fn lemma_printer_names()
    ensures
        "max_velocity"@.len() == 12,
        "max_accel"@.len() == 9,
        "minimum_cruise_ratio"@.len() == 20,
        "square_corner_velocity"@.len() == 22,
        "kinematics"@.len() == 10,
        "max_accel_to_decel"@.len() == 18,
        "max_z_velocity"@.len() == 14,
        "max_z_accel"@.len() == 11,
        "delta_radius"@.len() == 12,
        "print_radius"@.len() == 12,
        "minimum_z_position"@.len() == 18,
        "max_angular_velocity"@.len() == 20,
        "min_angle"@.len() == 9,
        "slow_ratio"@.len() == 10,
        "print_width"@.len() == 11,
        "shoulder_radius"@.len() == 15,
        "shoulder_height"@.len() == 15,
        "delta_radius"@ != "max_velocity"@,
        "print_radius"@ != "max_velocity"@,
        "print_radius"@ != "delta_radius"@,
        "min_angle"@ != "max_accel"@,
        "max_angular_velocity"@ != "minimum_cruise_ratio"@,
        "slow_ratio"@ != "kinematics"@,
        "minimum_z_position"@ != "max_accel_to_decel"@,
        "print_width"@ != "max_z_accel"@,
        "shoulder_height"@ != "shoulder_radius"@,
{
    reveal_strlit("max_velocity");
    reveal_strlit("max_accel");
    reveal_strlit("minimum_cruise_ratio");
    reveal_strlit("square_corner_velocity");
    reveal_strlit("kinematics");
    reveal_strlit("max_accel_to_decel");
    reveal_strlit("max_z_velocity");
    reveal_strlit("max_z_accel");
    reveal_strlit("delta_radius");
    reveal_strlit("print_radius");
    reveal_strlit("minimum_z_position");
    reveal_strlit("max_angular_velocity");
    reveal_strlit("min_angle");
    reveal_strlit("slow_ratio");
    reveal_strlit("print_width");
    reveal_strlit("shoulder_radius");
    reveal_strlit("shoulder_height");
    assert("delta_radius"@[0] == 'd');
    assert("print_radius"@[0] == 'p');
    assert("max_velocity"@[0] == 'm');
    assert("min_angle"@[1] == 'i' && "max_accel"@[1] == 'a');
    assert("max_angular_velocity"@[1] == 'a' && "minimum_cruise_ratio"@[1] == 'i');
    assert("slow_ratio"@[0] == 's' && "kinematics"@[0] == 'k');
    assert("minimum_z_position"@[1] == 'i' && "max_accel_to_decel"@[1] == 'a');
    assert("print_width"@[0] == 'p' && "max_z_accel"@[0] == 'm');
    assert("shoulder_height"@[9] == 'h' && "shoulder_radius"@[9] == 'r');
}

/// Whether the settings of a printer that every backend has are those that its section says, with
/// the defaults of Klipper where it says nothing.
pub open spec fn printer_as_written(
    o: OptionsView,
    p: ObjectView,
    max_velocity: Double,
    max_accel: Double,
) -> bool {
    let kinematics = lookup(o, "kinematics"@);
    let limited = limits_z(kinematics);
    &&& lookup(p, "max_velocity"@) == Some(number_item(max_velocity))
    &&& lookup(p, "max_accel"@) == Some(number_item(max_accel))
    &&& as_set(o, p, "square_corner_velocity"@, num(FIVE))
    &&& as_set(o, p, "minimum_cruise_ratio"@, num(HALF))
    &&& as_set_if_any(o, p, "max_accel_to_decel"@, None)
    &&& as_set_if_any(
        o,
        p,
        "max_z_velocity"@,
        if limited {
            Some(max_velocity)
        } else {
            None
        },
    )
    &&& as_set_if_any(
        o,
        p,
        "max_z_accel"@,
        if limited && kinematics != Some("rotary_delta"@) {
            Some(max_accel)
        } else {
            None
        },
    )
    &&& lookup(p, "kinematics"@) == match kinematics {
        Some(k) => Some(Item::<Seq<char>, Seq<Seq<Double>>>::Text(k)),
        None => None,
    }
    &&& number_of(p, "square_corner_velocity"@) >= num(ZERO)
    &&& number_of(p, "minimum_cruise_ratio"@) >= num(ZERO)
    &&& number_of(p, "minimum_cruise_ratio"@) < num(ONE)
}

proof fn lemma_printer_as_written(
    o: OptionsView,
    max_velocity: Double,
    max_accel: Double,
    p: ObjectView,
)
    requires
        printer_settings(o, max_velocity, max_accel) == Ok::<ObjectView, SnapshotError<Seq<char>>>(
            p,
        ),
    ensures
        printer_as_written(o, p, max_velocity, max_accel),
{
    lemma_all_numbers();
    lemma_printer_names();
}


/// Whether a field of a printer's settings belongs to one backend.
pub open spec fn is_backend_field(f: Seq<char>) -> bool {
    f == "delta_radius"@ || f == "print_radius"@ || f == "minimum_z_position"@ || f
        == "max_angular_velocity"@ || f == "min_angle"@ || f == "slow_ratio"@ || f
        == "print_width"@ || f == "shoulder_radius"@ || f == "shoulder_height"@
}

/// Whether the settings of a printer that its backend has are those that its section says, with
/// the defaults of Klipper where it says nothing.
pub open spec fn backend_as_written(o: OptionsView, q: ObjectView) -> bool {
    match lookup(o, "kinematics"@) {
        None => true,
        Some(k) => {
            &&& k == "delta"@ ==> as_written(o, q, "delta_radius"@) && as_set(
                o,
                q,
                "print_radius"@,
                number_of(q, "delta_radius"@),
            ) && as_set(o, q, "minimum_z_position"@, num(ZERO))
            &&& k == "polar"@ ==> as_set(o, q, "max_angular_velocity"@, num(ZERO))
            &&& k == "deltesian"@ ==> as_set(o, q, "minimum_z_position"@, num(ZERO)) && as_set(
                o,
                q,
                "min_angle"@,
                num(FIVE),
            ) && as_set(o, q, "slow_ratio"@, num(THREE)) && as_set_if_any(
                o,
                q,
                "print_width"@,
                None,
            )
            &&& k == "rotary_delta"@ ==> as_written(o, q, "shoulder_radius"@) && as_written(
                o,
                q,
                "shoulder_height"@,
            ) && as_set(o, q, "minimum_z_position"@, num(ZERO))
        },
    }
}

/// None of these backends is one of the Cartesian family, and they differ.
proof fn lemma_backend_names()
    ensures
        cartesian_kind("delta"@) is None,
        cartesian_kind("polar"@) is None,
        cartesian_kind("deltesian"@) is None,
        cartesian_kind("rotary_delta"@) is None,
        "delta"@ != "polar"@,
        "deltesian"@ != "delta"@,
        "deltesian"@ != "polar"@,
        "rotary_delta"@ != "delta"@,
        "rotary_delta"@ != "polar"@,
        "rotary_delta"@ != "deltesian"@,
{
    reveal_strlit("delta");
    reveal_strlit("polar");
    reveal_strlit("deltesian");
    reveal_strlit("rotary_delta");
    reveal_strlit("cartesian");
    reveal_strlit("corexy");
    reveal_strlit("corexz");
    reveal_strlit("hybrid_corexy");
    reveal_strlit("hybrid_corexz");
    assert("delta"@[0] == 'd' && "polar"@[0] == 'p');
    assert("deltesian"@[0] == 'd' && "cartesian"@[0] == 'c');
    assert("delta"@.len() == 5 && "polar"@.len() == 5);
    assert("deltesian"@.len() == 9 && "cartesian"@.len() == 9);
    assert("rotary_delta"@.len() == 12);
    assert("corexy"@.len() == 6 && "corexz"@.len() == 6);
    assert("hybrid_corexy"@.len() == 13 && "hybrid_corexz"@.len() == 13);
}

proof fn lemma_delta(s: SectionsView, o: OptionsView, p: ObjectView, steppers: SettingsView, q: ObjectView)
    requires
        delta_parts(s, o, p) == Ok::<(SettingsView, ObjectView), SnapshotError<Seq<char>>>(
            (steppers, q),
        ),
    ensures
        as_written(o, q, "delta_radius"@),
        as_set(o, q, "print_radius"@, number_of(q, "delta_radius"@)),
        as_set(o, q, "minimum_z_position"@, num(ZERO)),
        forall|f: Seq<char>| !is_backend_field(f) ==> lookup(q, f) == lookup(p, f),
{
    let c = delta_common(s, o)->Ok_0;
    let a = with_number(p, "delta_radius"@, c.radius);
    let b = with_number(a, "print_radius"@, c.print_radius);
    assert(q == with_number(b, "minimum_z_position"@, c.minimum_z));
    lemma_all_numbers();
    lemma_printer_names();
}

proof fn lemma_polar(s: SectionsView, o: OptionsView, p: ObjectView, steppers: SettingsView, q: ObjectView)
    requires
        polar_parts(s, o, p) == Ok::<(SettingsView, ObjectView), SnapshotError<Seq<char>>>(
            (steppers, q),
        ),
    ensures
        as_set(o, q, "max_angular_velocity"@, num(ZERO)),
        forall|f: Seq<char>| !is_backend_field(f) ==> lookup(q, f) == lookup(p, f),
{
    lemma_all_numbers();
}

proof fn lemma_deltesian(s: SectionsView, o: OptionsView, p: ObjectView, steppers: SettingsView, q: ObjectView)
    requires
        deltesian_parts(s, o, p) == Ok::<(SettingsView, ObjectView), SnapshotError<Seq<char>>>(
            (steppers, q),
        ),
        lookup(p, "print_width"@) is None,
    ensures
        as_set(o, q, "minimum_z_position"@, num(ZERO)),
        as_set(o, q, "min_angle"@, num(FIVE)),
        as_set(o, q, "slow_ratio"@, num(THREE)),
        as_set_if_any(o, q, "print_width"@, None),
        forall|f: Seq<char>| !is_backend_field(f) ==> lookup(q, f) == lookup(p, f),
{
    lemma_all_numbers();
    lemma_printer_names();
}

proof fn lemma_rotary(s: SectionsView, o: OptionsView, p: ObjectView, steppers: SettingsView, q: ObjectView)
    requires
        rotary_parts(s, o, p) == Ok::<(SettingsView, ObjectView), SnapshotError<Seq<char>>>(
            (steppers, q),
        ),
    ensures
        as_written(o, q, "shoulder_radius"@),
        as_written(o, q, "shoulder_height"@),
        as_set(o, q, "minimum_z_position"@, num(ZERO)),
        forall|f: Seq<char>| !is_backend_field(f) ==> lookup(q, f) == lookup(p, f),
{
    lemma_all_numbers();
    lemma_printer_names();
}

proof fn lemma_backend_as_written(
    s: SectionsView,
    o: OptionsView,
    p: ObjectView,
    steppers: SettingsView,
    q: ObjectView,
)
    requires
        backend_parts(s, o, p) == Ok::<(SettingsView, ObjectView), SnapshotError<Seq<char>>>(
            (steppers, q),
        ),
        lookup(p, "print_width"@) is None,
    ensures
        backend_as_written(o, q),
        forall|f: Seq<char>| !is_backend_field(f) ==> lookup(q, f) == lookup(p, f),
{
    lemma_backend_names();
    if let Some(k) = lookup(o, "kinematics"@) {
        if k == "delta"@ {
            lemma_delta(s, o, p, steppers, q);
        } else if k == "polar"@ {
            lemma_polar(s, o, p, steppers, q);
        } else if k == "deltesian"@ {
            lemma_deltesian(s, o, p, steppers, q);
        } else if k == "rotary_delta"@ {
            lemma_rotary(s, o, p, steppers, q);
        }
    }
}

/// The extruders in order are named as extruders.
proof fn lemma_tools_are_extruders(s: SectionsView, i: int, k: int)
    requires
        0 <= i <= s.len(),
        0 <= k < tools_in_order(s, i).len(),
    ensures
        names_extruder(tools_in_order(s, i)[k].0),
    decreases i,
{
    if i > 0 {
        let prior = tools_in_order(s, i - 1);
        if names_extruder(s[i - 1].0) {
            let at = tool_slot(prior, tool_number(s[i - 1].0));
            lemma_tool_slot(prior, tool_number(s[i - 1].0));
            if k < at {
                lemma_tools_are_extruders(s, i - 1, k);
            } else if k > at {
                lemma_tools_are_extruders(s, i - 1, k - 1);
            }
        } else {
            lemma_tools_are_extruders(s, i - 1, k);
        }
    }
}

/// Whether a section is neither about an extruder nor about a transform.
pub open spec fn is_plain(name: Seq<char>) -> bool {
    &&& !names_extruder(name)
    &&& forall|o: OptionsView| #[trigger] transform_section(name, o) is None
}

/// Under plain names, there is what the printer and its backend resolve to, and what retraction
/// and arcs do.
proof fn lemma_resolved(s: SectionsView, r: SettingsView, name: Seq<char>)
    requires
        resolved(s) == Ok::<SettingsView, SnapshotError<Seq<char>>>(r),
        is_plain(name),
    ensures
        ({
            let printer = lookup(s, "printer"@)->0;
            let v = parsed(lookup(printer, "max_velocity"@)->0)->0;
            let a = parsed(lookup(printer, "max_accel"@)->0)->0;
            &&& lookup(s, "printer"@) is Some
            &&& lookup(printer, "max_velocity"@) matches Some(t) && parsed(t) is Some
            &&& lookup(printer, "max_accel"@) matches Some(t) && parsed(t) is Some
            &&& v.finite() && v > num(ZERO) && a.finite() && a > num(ZERO)
            &&& printer_parts(s, printer, v, a) is Ok
            &&& exists|t: SettingsView|
                {
                    &&& lookup(t, name) == lookup(printer_parts(s, printer, v, a)->Ok_0, name)
                    &&& #[trigger] with_extras(t, s) is Ok
                    &&& lookup(r, name) == lookup(with_extras(t, s)->Ok_0, name)
                }
        }),
{
    let printer = lookup(s, "printer"@)->0;
    let v = parsed(lookup(printer, "max_velocity"@)->0)->0;
    let a = parsed(lookup(printer, "max_accel"@)->0)->0;
    let base = printer_parts(s, printer, v, a)->Ok_0;
    let tools = tools_in_order(s, s.len() as int);
    let n = tools.len() as int;
    let t = with_extruders(base, tools, v, a, n)->Ok_0;
    lemma_with_extruders(base, tools, v, a, n, t, name);
    assert(lookup(t, name) == lookup(base, name)) by {
        if lookup(t, name) != lookup(base, name) {
            let k = choose|k: int| 0 <= k < n && (#[trigger] tools[k]).0 == name;
            lemma_tools_are_extruders(s, s.len() as int, k);
        }
    }
    let u = with_extras(t, s)->Ok_0;
    transforms_leave_the_rest_alone(u, s, s.len() as int, name);
    assert(with_extras(t, s) is Ok);
}

proof fn lemma_plain(name: Seq<char>, c: char)
    requires
        name.len() > 0,
        name[0] == c,
        c != 'e',
        c != 'b',
        name.len() < 15,
    ensures
        is_plain(name),
{
    reveal_strlit("extruder");
    reveal_strlit("bed_mesh");
    reveal_strlit("bed_mesh ");
    reveal_strlit("skew_correction");
    reveal_strlit("skew_correction ");
    assert("extruder"@[0] == 'e');
    assert("bed_mesh"@[0] == 'b' && "bed_mesh "@[0] == 'b');
    if has_prefix(name, "bed_mesh "@) {
        assert(name.take("bed_mesh "@.len() as int)[0] == name[0]);
    }
    if has_prefix(name, "extruder"@) {
        assert(name.take("extruder"@.len() as int)[0] == name[0]);
    }
}

/// What the section of a printer says is what its settings hold: the number that an option stands
/// for where the section has the option, and the default of Klipper only where it has not.
pub proof fn printers_are_resolved_as_written(s: SectionsView, r: SettingsView)
    requires
        resolved(s) == Ok::<SettingsView, SnapshotError<Seq<char>>>(r),
    ensures
        lookup(s, "printer"@) matches Some(o) && object_in(r, "printer"@) matches Some(q)
            && as_written(o, q, "max_velocity"@) && as_written(o, q, "max_accel"@) && number_of(
            q,
            "max_velocity"@,
        ) > num(ZERO) && number_of(q, "max_accel"@) > num(ZERO) && printer_as_written(
            o,
            q,
            number_of(q, "max_velocity"@),
            number_of(q, "max_accel"@),
        ) && backend_as_written(o, q),
{
    let name = "printer"@;
    reveal_strlit("printer");
    reveal_strlit("dual_carriage");
    reveal_strlit("firmware_retraction");
    reveal_strlit("gcode_arcs");
    assert(name[0] == 'p');
    lemma_plain(name, 'p');
    lemma_resolved(s, r, name);
    let o = lookup(s, name)->0;
    let v = parsed(lookup(o, "max_velocity"@)->0)->0;
    let a = parsed(lookup(o, "max_accel"@)->0)->0;
    let base = printer_parts(s, o, v, a)->Ok_0;
    let t = choose|t: SettingsView|
        {
            &&& lookup(t, name) == lookup(printer_parts(s, o, v, a)->Ok_0, name)
            &&& #[trigger] with_extras(t, s) is Ok
            &&& lookup(r, name) == lookup(with_extras(t, s)->Ok_0, name)
        };
    lemma_extras(t, s, name);
    lemma_printer_parts(s, o, v, a, base);
    lemma_printer_names();
}

/// What retraction and arcs add, and what they leave alone.
proof fn lemma_extras(t: SettingsView, s: SectionsView, name: Seq<char>)
    requires
        with_extras(t, s) is Ok,
        name != "firmware_retraction"@,
        name != "gcode_arcs"@,
    ensures
        lookup(with_extras(t, s)->Ok_0, name) == lookup(t, name),
{
    lemma_all_numbers();
}

proof fn lemma_printer_parts(
    s: SectionsView,
    o: OptionsView,
    v: Double,
    a: Double,
    base: SettingsView,
)
    requires
        printer_parts(s, o, v, a) == Ok::<SettingsView, SnapshotError<Seq<char>>>(base),
    ensures
        lookup(base, "printer"@) matches Some(Entry::Object(q)) && printer_as_written(o, q, v, a)
            && backend_as_written(o, q),
{
    let p = printer_settings(o, v, a)->Ok_0;
    let (steppers, q) = backend_parts(s, o, p)->Ok_0;
    lemma_printer_as_written(o, v, a, p);
    assert(lookup(p, "print_width"@) is None) by {
        lemma_printer_names();
        lemma_all_numbers();
    }
    lemma_backend_as_written(s, o, p, steppers, q);
    assert(printer_as_written(o, q, v, a)) by {
        lemma_printer_names();
        assert(!is_backend_field("max_velocity"@));
        assert(!is_backend_field("max_accel"@));
        assert(!is_backend_field("square_corner_velocity"@));
        assert(!is_backend_field("minimum_cruise_ratio"@));
        assert(!is_backend_field("max_accel_to_decel"@));
        assert(!is_backend_field("max_z_velocity"@));
        assert(!is_backend_field("max_z_accel"@));
        assert(!is_backend_field("kinematics"@));
    }
    assert(lookup(base, "printer"@) == Some(Entry::Object(q))) by {
        reveal_strlit("printer");
        reveal_strlit("dual_carriage");
        assert("printer"@.len() == 7 && "dual_carriage"@.len() == 13);
        lemma_lookup_inserted(steppers, "printer"@, Entry::Object(q), "printer"@);
        lemma_lookup_inserted(
            with_object(steppers, "printer"@, q),
            "dual_carriage"@,
            Entry::Object(empty_object()),
            "printer"@,
        );
    }
}


/// The names of the settings of an extruder differ.
proof fn lemma_extruder_fields()
    ensures
        "nozzle_diameter"@.len() == 15,
        "filament_diameter"@.len() == 17,
        "max_extrude_cross_section"@.len() == 25,
        "max_extrude_only_velocity"@.len() == 25,
        "max_extrude_only_distance"@.len() == 25,
        "max_extrude_only_accel"@.len() == 22,
        "instantaneous_corner_velocity"@.len() == 29,
        "max_extrude_cross_section"@ != "max_extrude_only_velocity"@,
        "max_extrude_cross_section"@ != "max_extrude_only_distance"@,
        "max_extrude_only_velocity"@ != "max_extrude_only_distance"@,
{
    reveal_strlit("nozzle_diameter");
    reveal_strlit("filament_diameter");
    reveal_strlit("max_extrude_cross_section");
    reveal_strlit("max_extrude_only_velocity");
    reveal_strlit("max_extrude_only_distance");
    reveal_strlit("max_extrude_only_accel");
    reveal_strlit("instantaneous_corner_velocity");
    assert("max_extrude_cross_section"@[12] == 'c');
    assert("max_extrude_only_velocity"@[12] == 'o' && "max_extrude_only_velocity"@[17] == 'v');
    assert("max_extrude_only_distance"@[12] == 'o' && "max_extrude_only_distance"@[17] == 'd');
}

/// What the section of an extruder says is what its settings hold. By default it may push out a
/// line of four nozzle diameters squared, moves the filament alone as fast as the printer does
/// for such a line, by no more than fifty millimetres, and changes its speed by one at a corner.
pub proof fn extruders_are_resolved_as_written(
    name: Seq<char>,
    o: OptionsView,
    max_velocity: Double,
    max_accel: Double,
    x: ObjectView,
)
    requires
        extruder_settings(name, o, max_velocity, max_accel) == Ok::<
            ObjectView,
            SnapshotError<Seq<char>>,
        >(x),
    ensures
        ({
            let nozzle = number_of(x, "nozzle_diameter"@);
            let filament = number_of(x, "filament_diameter"@);
            let radius = filament * num(HALF);
            let cross = num(FOUR) * (nozzle * nozzle);
            let ratio = cross / (num(PI) * (radius * radius));
            &&& as_written(o, x, "nozzle_diameter"@) && nozzle > num(ZERO)
            &&& as_written(o, x, "filament_diameter"@) && filament >= nozzle
            &&& as_set(o, x, "max_extrude_cross_section"@, cross)
            &&& as_set(o, x, "max_extrude_only_velocity"@, max_velocity * ratio)
            &&& as_set(o, x, "max_extrude_only_accel"@, max_accel * ratio)
            &&& as_set(o, x, "max_extrude_only_distance"@, num(FIFTY))
            &&& as_set(o, x, "instantaneous_corner_velocity"@, num(ONE))
        }),
{
    lemma_all_numbers();
    lemma_extruder_fields();
}

/// What the section of firmware retraction says is what its settings hold.
pub proof fn retraction_is_resolved_as_written(o: OptionsView, x: ObjectView)
    requires
        retraction_settings(o) == Ok::<ObjectView, SnapshotError<Seq<char>>>(x),
    ensures
        as_set(o, x, "retract_length"@, num(ZERO)),
        as_set(o, x, "retract_speed"@, num(TWENTY)),
        as_set(o, x, "unretract_extra_length"@, num(ZERO)),
        as_set(o, x, "unretract_speed"@, num(TEN)),
{
    reveal_strlit("retract_length");
    reveal_strlit("retract_speed");
    reveal_strlit("unretract_extra_length");
    reveal_strlit("unretract_speed");
    assert("retract_length"@.len() == 14 && "retract_speed"@.len() == 13);
    assert("unretract_extra_length"@.len() == 22 && "unretract_speed"@.len() == 15);
    lemma_all_numbers();
}

/// What the section of a linear axis says is what its settings hold, and its end stop lies within
/// its range.
pub proof fn axes_are_resolved_as_written(s: SectionsView, name: Seq<char>, x: ObjectView)
    requires
        axis_settings(s, name) == Ok::<ObjectView, SnapshotError<Seq<char>>>(x),
    ensures
        lookup(s, name) matches Some(o) && as_set(o, x, "position_min"@, num(ZERO)) && as_written(
            o,
            x,
            "position_max"@,
        ) && as_written(o, x, "position_endstop"@) && number_of(x, "position_min"@) < number_of(
            x,
            "position_max"@,
        ) && number_of(x, "position_min"@) <= number_of(x, "position_endstop"@) && number_of(
            x,
            "position_endstop"@,
        ) <= number_of(x, "position_max"@),
{
    reveal_strlit("position_min");
    reveal_strlit("position_max");
    reveal_strlit("position_endstop");
    assert("position_min"@.len() == 12 && "position_endstop"@.len() == 16);
    assert("position_min"@[10] == 'i' && "position_max"@[10] == 'a');
    lemma_all_numbers();
}

/// On machines of the Cartesian family, the settings of the three axes are those of their
/// sections.
pub proof fn cartesian_axes_are_resolved(s: SectionsView, r: SettingsView)
    requires
        resolved(s) == Ok::<SettingsView, SnapshotError<Seq<char>>>(r),
        lookup(s, "printer"@) matches Some(o) && lookup(o, "kinematics"@) matches Some(k)
            && cartesian_kind(k) is Some,
    ensures
        object_in(r, "stepper_x"@) matches Some(x) && axis_settings(s, "stepper_x"@) == Ok::<
            ObjectView,
            SnapshotError<Seq<char>>,
        >(x),
        object_in(r, "stepper_y"@) matches Some(x) && axis_settings(s, "stepper_y"@) == Ok::<
            ObjectView,
            SnapshotError<Seq<char>>,
        >(x),
        object_in(r, "stepper_z"@) matches Some(x) && axis_settings(s, "stepper_z"@) == Ok::<
            ObjectView,
            SnapshotError<Seq<char>>,
        >(x),
{
    reveal_strlit("stepper_x");
    reveal_strlit("stepper_y");
    reveal_strlit("stepper_z");
    reveal_strlit("printer");
    reveal_strlit("dual_carriage");
    reveal_strlit("firmware_retraction");
    reveal_strlit("gcode_arcs");
    assert("stepper_x"@.len() == 9 && "stepper_x"@[0] == 's' && "stepper_x"@[8] == 'x');
    assert("stepper_y"@.len() == 9 && "stepper_y"@[0] == 's' && "stepper_y"@[8] == 'y');
    assert("stepper_z"@.len() == 9 && "stepper_z"@[0] == 's' && "stepper_z"@[8] == 'z');
    assert("printer"@.len() == 7 && "dual_carriage"@.len() == 13 && "gcode_arcs"@.len() == 10);
    assert("firmware_retraction"@.len() == 19);
    lemma_axis(s, r, "stepper_x"@);
    lemma_axis(s, r, "stepper_y"@);
    lemma_axis(s, r, "stepper_z"@);
}

proof fn lemma_axis(s: SectionsView, r: SettingsView, name: Seq<char>)
    requires
        resolved(s) == Ok::<SettingsView, SnapshotError<Seq<char>>>(r),
        lookup(s, "printer"@) matches Some(o) && lookup(o, "kinematics"@) matches Some(k)
            && cartesian_kind(k) is Some,
        name == "stepper_x"@ || name == "stepper_y"@ || name == "stepper_z"@,
        "stepper_x"@ != "stepper_y"@ && "stepper_x"@ != "stepper_z"@ && "stepper_y"@
            != "stepper_z"@,
        name.len() == 9 && name[0] == 's',
        "printer"@.len() == 7 && "dual_carriage"@.len() == 13,
        "firmware_retraction"@.len() == 19 && "gcode_arcs"@.len() == 10,
    ensures
        object_in(r, name) matches Some(x) && axis_settings(s, name) == Ok::<
            ObjectView,
            SnapshotError<Seq<char>>,
        >(x),
{
    lemma_plain(name, 's');
    lemma_resolved(s, r, name);
    let o = lookup(s, "printer"@)->0;
    let v = parsed(lookup(o, "max_velocity"@)->0)->0;
    let a = parsed(lookup(o, "max_accel"@)->0)->0;
    let base = printer_parts(s, o, v, a)->Ok_0;
    let t = choose|t: SettingsView|
        {
            &&& lookup(t, name) == lookup(printer_parts(s, o, v, a)->Ok_0, name)
            &&& #[trigger] with_extras(t, s) is Ok
            &&& lookup(r, name) == lookup(with_extras(t, s)->Ok_0, name)
        };
    lemma_extras(t, s, name);
    let p = printer_settings(o, v, a)->Ok_0;
    let (steppers, q) = backend_parts(s, o, p)->Ok_0;
    assert(lookup(steppers, name) matches Some(Entry::Object(x)) && axis_settings(s, name) == Ok::<
        ObjectView,
        SnapshotError<Seq<char>>,
    >(x)) by {
        lemma_all_numbers();
    }
    assert(lookup(base, name) == lookup(steppers, name)) by {
        lemma_lookup_inserted(steppers, "printer"@, Entry::Object(q), name);
        lemma_lookup_inserted(
            with_object(steppers, "printer"@, q),
            "dual_carriage"@,
            Entry::Object(empty_object()),
            name,
        );
    }
}

} // verus!
