//! Settings as a printer reports them, and the limits that follow from them.

use vstd::prelude::*;

use crate::double::num;
use crate::double::Double;
use crate::double::ONE;
use crate::double::ZERO;
use crate::errors::outcome;
use crate::errors::Outcome;
use crate::errors::SnapshotError;
use crate::constants::TWO_HUNDRED;
use crate::motion_transform::rows;
use crate::table::lookup;
use crate::table::Table;
use crate::text::after_prefix;
use crate::text::chars_of;
use crate::text::same;
use crate::text::strip_prefix;

verus! {

/// A value of a setting.
#[derive(Clone, Debug)]
pub enum Item<S = String, L = Vec<Vec<Double>>> {
    Number(Double),
    Flag(bool),
    Text(S),
    /// A list. An element that is a list is kept by the numbers it starts with, and a number as
    /// a list of one; nothing is left of any other element.
    List(L),
    Other,
}

/// An object with its settings, or another value.
#[derive(Clone, Debug)]
pub enum Entry<O = Table<Item>> {
    Object(O),
    Other,
}

pub type ItemView = Item<Seq<char>, Seq<Seq<Double>>>;

pub type ObjectView = Seq<(Seq<char>, ItemView)>;

pub type EntryView = Entry<ObjectView>;

pub type SettingsView = Seq<(Seq<char>, EntryView)>;

pub type Object = Table<Item>;

pub type Settings = Table<Entry>;

impl DeepView for Item {
    type V = ItemView;

    open spec fn deep_view(&self) -> ItemView {
        match *self {
            Item::Number(x) => Item::Number(x),
            Item::Flag(b) => Item::Flag(b),
            Item::Text(t) => Item::Text(t@),
            Item::List(l) => Item::List(rows(l@)),
            Item::Other => Item::Other,
        }
    }
}

impl DeepView for Entry {
    type V = EntryView;

    open spec fn deep_view(&self) -> EntryView {
        match *self {
            Entry::Object(o) => Entry::Object(o.deep_view()),
            Entry::Other => Entry::Other,
        }
    }
}

/// Two names with a dot between them.
pub open spec fn dotted(a: Seq<char>, b: Seq<char>) -> Seq<char> {
    a + "."@ + b
}

/// Two names with a dot between them.
pub fn dot(a: &str, b: &str) -> (r: String)
    ensures
        r@ == dotted(a@, b@),
{
    let mut r: String = a.to_owned();
    r.append(".");
    r.append(b);
    r
}

/// A number of an object.
pub open spec fn number_of(o: ObjectView, field: Seq<char>) -> Option<Double> {
    match lookup(o, field) {
        Some(Item::Number(x)) => Some(x),
        _ => None,
    }
}

pub fn optional_number(o: &Object, field: &str) -> (r: Option<Double>)
    ensures
        r == number_of(o.deep_view(), field@),
{
    match o.find(field) {
        Some(Item::Number(x)) => Some(*x),
        _ => None,
    }
}

/// A text of an object.
pub open spec fn text_in(o: ObjectView, field: Seq<char>) -> Option<Seq<char>> {
    match lookup(o, field) {
        Some(Item::Text(t)) => Some(t),
        _ => None,
    }
}

pub fn optional_text<'a>(o: &'a Object, field: &str) -> (r: Option<&'a str>)
    ensures
        text_in(o.deep_view(), field@) == match r {
            Some(t) => Some(t@),
            None => None,
        },
{
    match o.find(field) {
        Some(Item::Text(t)) => Some(t.as_str()),
        _ => None,
    }
}

/// A number that an object must have.
pub open spec fn needed(o: ObjectView, path: Seq<char>, field: Seq<char>) -> Outcome<Double> {
    match number_of(o, field) {
        Some(x) => Ok(x),
        None => Err(SnapshotError::MissingField(dotted(path, field))),
    }
}

pub fn number(o: &Object, path: &str, field: &str) -> (r: Result<Double, SnapshotError>)
    ensures
        outcome(r) == needed(o.deep_view(), path@, field@),
{
    match optional_number(o, field) {
        Some(x) => Ok(x),
        None => Err(SnapshotError::MissingField(dot(path, field))),
    }
}

/// A number, or another one in its place.
pub open spec fn number_else(o: ObjectView, field: Seq<char>, other: Double) -> Double {
    match number_of(o, field) {
        Some(x) => x,
        None => other,
    }
}

pub fn number_or_else(o: &Object, field: &str, other: Double) -> (r: Double)
    ensures
        r == number_else(o.deep_view(), field@, other),
{
    match optional_number(o, field) {
        Some(x) => x,
        None => other,
    }
}

/// The object under a name.
pub open spec fn object_in(s: SettingsView, name: Seq<char>) -> Option<ObjectView> {
    match lookup(s, name) {
        Some(Entry::Object(o)) => Some(o),
        _ => None,
    }
}

pub fn optional_object<'a>(s: &'a Settings, name: &str) -> (r: Option<&'a Object>)
    ensures
        object_in(s.deep_view(), name@) == match r {
            Some(o) => Some(o.deep_view()),
            None => None,
        },
{
    match s.find(name) {
        Some(Entry::Object(o)) => Some(o),
        _ => None,
    }
}

/// The full name of a setting's object.
pub open spec fn settings_path(name: Seq<char>) -> Seq<char> {
    dotted("configfile.settings"@, name)
}

/// The object that must stand under a name.
pub open spec fn object_of(s: SettingsView, name: Seq<char>) -> Outcome<ObjectView> {
    match object_in(s, name) {
        Some(o) => Ok(o),
        None => Err(SnapshotError::MissingField(settings_path(name))),
    }
}

pub fn settings_object<'a>(s: &'a Settings, name: &str) -> (r: Result<&'a Object, SnapshotError>)
    ensures
        object_of(s.deep_view(), name@) == match r {
            Ok(o) => Ok(o.deep_view()),
            Err(e) => Err(e@),
        },
{
    match optional_object(s, name) {
        Some(o) => Ok(o),
        None => Err(SnapshotError::MissingField(dot("configfile.settings", name))),
    }
}

/// A number of the settings.
pub open spec fn setting(s: SettingsView, name: Seq<char>, field: Seq<char>) -> Outcome<
    Option<Double>,
> {
    match object_of(s, name) {
        Ok(o) => Ok(number_of(o, field)),
        Err(e) => Err(e),
    }
}

fn optional_setting(s: &Settings, name: &str, field: &str) -> (r: Result<
    Option<Double>,
    SnapshotError,
>)
    ensures
        outcome(r) == setting(s.deep_view(), name@, field@),
{
    let o: &Object = settings_object(s, name)?;
    Ok(optional_number(o, field))
}

/// A number that the first object must have; the others take it over from the first.
pub open spec fn inherited(s: SettingsView, names: [&str; 3], field: Seq<char>) -> Outcome<
    [Double; 3],
> {
    match setting(s, names[0]@, field) {
        Err(e) => Err(e),
        Ok(None) => Err(SnapshotError::MissingField(dotted(settings_path(names[0]@), field))),
        Ok(Some(a)) => match setting(s, names[1]@, field) {
            Err(e) => Err(e),
            Ok(b) => match setting(s, names[2]@, field) {
                Err(e) => Err(e),
                Ok(c) => Ok([a, otherwise(b, a), otherwise(c, a)]),
            },
        },
    }
}

/// The same for two objects.
pub open spec fn inherited_pair(s: SettingsView, names: [&str; 2], field: Seq<char>) -> Outcome<
    [Double; 2],
> {
    match setting(s, names[0]@, field) {
        Err(e) => Err(e),
        Ok(None) => Err(SnapshotError::MissingField(dotted(settings_path(names[0]@), field))),
        Ok(Some(a)) => match setting(s, names[1]@, field) {
            Err(e) => Err(e),
            Ok(b) => Ok([a, otherwise(b, a)]),
        },
    }
}

/// A number, or another one in its place.
#[verifier::allow_in_spec]
pub fn otherwise(x: Option<Double>, other: Double) -> Double
    returns
        (match x {
            Some(v) => v,
            None => other,
        }),
{
    match x {
        Some(v) => v,
        None => other,
    }
}

fn first_setting(s: &Settings, name: &str, field: &str) -> (r: Result<Double, SnapshotError>)
    ensures
        outcome(r) == match setting(s.deep_view(), name@, field@) {
            Err(e) => Err(e),
            Ok(None) => Err(SnapshotError::MissingField(dotted(settings_path(name@), field@))),
            Ok(Some(a)) => Ok(a),
        },
{
    match optional_setting(s, name, field)? {
        Some(a) => Ok(a),
        None => {
            let path: String = dot("configfile.settings", name);
            Err(SnapshotError::MissingField(dot(path.as_str(), field)))
        },
    }
}

pub fn inherited_numbers(s: &Settings, names: [&str; 3], field: &str) -> (r: Result<
    [Double; 3],
    SnapshotError,
>)
    ensures
        outcome(r) == inherited(s.deep_view(), names, field@),
{
    let a: Double = first_setting(s, names[0], field)?;
    let b: Option<Double> = optional_setting(s, names[1], field)?;
    let c: Option<Double> = optional_setting(s, names[2], field)?;
    Ok([a, otherwise(b, a), otherwise(c, a)])
}

pub fn inherited_number_pair(s: &Settings, names: [&str; 2], field: &str) -> (r: Result<
    [Double; 2],
    SnapshotError,
>)
    ensures
        outcome(r) == inherited_pair(s.deep_view(), names, field@),
{
    let a: Double = first_setting(s, names[0], field)?;
    let b: Option<Double> = optional_setting(s, names[1], field)?;
    Ok([a, otherwise(b, a)])
}

/// A number of each object, or its default.
pub open spec fn defaulted(
    s: SettingsView,
    names: [&str; 3],
    field: Seq<char>,
    defaults: [Double; 3],
) -> Outcome<[Double; 3]> {
    match setting(s, names[0]@, field) {
        Err(e) => Err(e),
        Ok(a) => match setting(s, names[1]@, field) {
            Err(e) => Err(e),
            Ok(b) => match setting(s, names[2]@, field) {
                Err(e) => Err(e),
                Ok(c) => Ok(
                    [
                        otherwise(a, defaults[0]),
                        otherwise(b, defaults[1]),
                        otherwise(c, defaults[2]),
                    ],
                ),
            },
        },
    }
}

pub fn default_numbers(s: &Settings, names: [&str; 3], field: &str, defaults: [Double; 3]) -> (r:
    Result<[Double; 3], SnapshotError>)
    ensures
        outcome(r) == defaulted(s.deep_view(), names, field@, defaults),
{
    let a: Option<Double> = optional_setting(s, names[0], field)?;
    let b: Option<Double> = optional_setting(s, names[1], field)?;
    let c: Option<Double> = optional_setting(s, names[2], field)?;
    Ok([otherwise(a, defaults[0]), otherwise(b, defaults[1]), otherwise(c, defaults[2])])
}

/// The product of the first `i` gear ratios, if each is a pair.
pub open spec fn gearing_of(pairs: Seq<Seq<Double>>, i: int) -> Option<Double>
    decreases i,
{
    if i <= 0 {
        Some(num(ONE))
    } else {
        match gearing_of(pairs, i - 1) {
            Some(ratio) => if pairs[i - 1].len() >= 2 {
                Some(ratio * pairs[i - 1][0] / pairs[i - 1][1])
            } else {
                None
            },
            None => None,
        }
    }
}

/// The gear ratio of an object; without a proper list there is no gearing.
pub open spec fn gearing(o: ObjectView) -> Double {
    match lookup(o, "gear_ratio"@) {
        Some(Item::List(pairs)) => match gearing_of(pairs, pairs.len() as int) {
            Some(ratio) => ratio,
            None => num(ONE),
        },
        _ => num(ONE),
    }
}

proof fn lemma_gearing_fails(pairs: Seq<Seq<Double>>, i: int, j: int)
    requires
        0 <= i < j <= pairs.len(),
        pairs[i].len() < 2,
    ensures
        gearing_of(pairs, j) is None,
    decreases j,
{
    if i < j - 1 {
        lemma_gearing_fails(pairs, i, j - 1);
    }
}

fn gear_ratio(o: &Object) -> (r: Double)
    ensures
        r == gearing(o.deep_view()),
{
    match o.find("gear_ratio") {
        Some(Item::List(pairs)) => {
            let ghost v = rows(pairs@);
            let mut ratio: Double = num(ONE);
            let mut i: usize = 0;
            while i < pairs.len()
                invariant
                    i <= pairs@.len(),
                    v == rows(pairs@),
                    gearing_of(v, i as int) == Some(ratio),
                    lookup(o.deep_view(), "gear_ratio"@) == Some(
                        Item::<Seq<char>, Seq<Seq<Double>>>::List(v),
                    ),
                decreases pairs.len() - i,
            {
                assert(v[i as int] == pairs@[i as int]@);
                if pairs[i].len() < 2 {
                    proof {
                        lemma_gearing_fails(v, i as int, v.len() as int);
                    }
                    return num(ONE);
                }
                ratio = ratio * pairs[i][0] / pairs[i][1];
                i = i + 1;
            }
            ratio
        },
        _ => num(ONE),
    }
}

/// The distance of one step of a stepper.
pub open spec fn step_distance(o: ObjectView, path: Seq<char>) -> Outcome<Double> {
    match number_of(o, "step_distance"@) {
        Some(d) => Ok(d),
        None => match needed(o, path, "rotation_distance"@) {
            Err(e) => Err(e),
            Ok(rotation) => match needed(o, path, "microsteps"@) {
                Err(e) => Err(e),
                Ok(microsteps) => {
                    let full = number_else(o, "full_steps_per_rotation"@, num(TWO_HUNDRED));
                    let d = rotation / (microsteps * full * gearing(o));
                    if d.is_finite() && d > num(ZERO) {
                        Ok(d)
                    } else {
                        Err(SnapshotError::MissingField(dotted(path, "step_distance"@)))
                    }
                },
            },
        },
    }
}

pub fn linear_step_distance(o: &Object, path: &str) -> (r: Result<Double, SnapshotError>)
    ensures
        outcome(r) == step_distance(o.deep_view(), path@),
{
    if let Some(d) = optional_number(o, "step_distance") {
        return Ok(d);
    }
    let rotation: Double = number(o, path, "rotation_distance")?;
    let microsteps: Double = number(o, path, "microsteps")?;
    let full: Double = number_or_else(o, "full_steps_per_rotation", num(TWO_HUNDRED));
    let d: Double = rotation / (microsteps * full * gear_ratio(o));
    if d.is_finite() && d > num(ZERO) {
        Ok(d)
    } else {
        Err(SnapshotError::MissingField(dot(path, "step_distance")))
    }
}

/// Whether a name is that of an extruder: `extruder`, or with a number behind it.
pub open spec fn names_extruder(name: Seq<char>) -> bool {
    match after_prefix(name, "extruder"@) {
        Some(suffix) => crate::decimal::all_digits(suffix),
        None => false,
    }
}

pub fn is_extruder_object(name: &str) -> (r: bool)
    ensures
        r == names_extruder(name@),
{
    match strip_prefix(name, "extruder") {
        Some(suffix) => {
            let v: Vec<char> = chars_of(suffix);
            let mut i: usize = 0;
            while i < v.len()
                invariant
                    i <= v@.len(),
                    v@ == suffix@,
                    after_prefix(name@, "extruder"@) == Some(suffix@),
                    forall|k: int| 0 <= k < i ==> crate::decimal::is_digit(#[trigger] suffix@[k]),
                decreases v.len() - i,
            {
                if !('0' <= v[i] && v[i] <= '9') {
                    assert(!crate::decimal::is_digit(suffix@[i as int]));
                    return false;
                }
                i = i + 1;
            }
            true
        },
        None => false,
    }
}

} // verus!
