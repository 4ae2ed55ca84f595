//! Settings from the command line, and the version's name.

use vstd::prelude::*;

use crate::decimal::parse_double;
use crate::decimal::parsed;
use crate::double::Double;
use crate::text::has_suffix;
use crate::text::same;
use crate::text::split_at_char;
use crate::text::split_once;
use crate::text::strip_prefix;
use crate::text::strip_suffix;

verus! {

/// A value that replaces one of the configuration.
#[derive(Clone, Debug)]
pub enum OverrideValue<S = String> {
    Number(Double),
    Text(S),
}

/// Why an override is not taken.
#[derive(Clone, Debug)]
pub enum OverrideFault<S = String> {
    /// There is no `=` in it.
    Format,
    /// The value of a numeric key is not a number.
    Number { key: S },
}

/// The keys whose values are read as numbers.
pub open spec fn is_numeric_key(key: Seq<char>) -> bool {
    key == "max_accel_to_decel"@ || key == "minimum_cruise_ratio"@
}

/// The key and the value of an override such as `max_velocity=300`.
pub open spec fn override_of(s: Seq<char>) -> Result<
    (Seq<char>, OverrideValue<Seq<char>>),
    OverrideFault<Seq<char>>,
> {
    match split_once(s, '=') {
        None => Err(OverrideFault::Format),
        Some((key, value)) => if is_numeric_key(key) {
            match parsed(value) {
                Some(x) => Ok((key, OverrideValue::Number(x))),
                None => Err(OverrideFault::Number { key }),
            }
        } else {
            Ok((key, OverrideValue::Text(value)))
        },
    }
}

pub open spec fn override_view(r: Result<(String, OverrideValue), OverrideFault>) -> Result<
    (Seq<char>, OverrideValue<Seq<char>>),
    OverrideFault<Seq<char>>,
> {
    match r {
        Ok((key, OverrideValue::Number(x))) => Ok((key@, OverrideValue::Number(x))),
        Ok((key, OverrideValue::Text(t))) => Ok((key@, OverrideValue::Text(t@))),
        Err(OverrideFault::Format) => Err(OverrideFault::Format),
        Err(OverrideFault::Number { key }) => Err(OverrideFault::Number { key: key@ }),
    }
}

/// Reads an override.
pub fn opt_parse(s: &str) -> (r: Result<(String, OverrideValue), OverrideFault>)
    ensures
        override_view(r) == override_of(s@),
{
    match split_at_char(s, '=') {
        None => Err(OverrideFault::Format),
        Some((key, value)) => {
            if same(key, "max_accel_to_decel") || same(key, "minimum_cruise_ratio") {
                match parse_double(value) {
                    Some(x) => Ok((key.to_owned(), OverrideValue::Number(x))),
                    None => Err(OverrideFault::Number { key: key.to_owned() }),
                }
            } else {
                Ok((key.to_owned(), OverrideValue::Text(value.to_owned())))
            }
        },
    }
}

/// A version without its leading `v`.
pub open spec fn bare_version(version: Seq<char>) -> Seq<char> {
    match crate::text::after_prefix(version, "v"@) {
        Some(rest) => rest,
        None => version,
    }
}

/// The name of a version of this program.
pub open spec fn version_name(version: Seq<char>) -> Seq<char> {
    let bare = bare_version(version);
    "v"@ + bare + if has_suffix(bare, "-ste94pz"@) {
        Seq::empty()
    } else {
        "-ste94pz"@
    }
}

/// The name of a version of this program.
pub fn fork_version(version: &str) -> (r: String)
    ensures
        r@ == version_name(version@),
{
    let bare: &str = match strip_prefix(version, "v") {
        Some(rest) => rest,
        None => version,
    };
    let mut r: String = "v".to_owned();
    r.append(bare);
    if strip_suffix(bare, "-ste94pz").is_none() {
        r.append("-ste94pz");
    } else {
        assert(r@ + Seq::<char>::empty() == r@);
    }
    r
}

/// Naming a version that is named already changes nothing.
pub proof fn naming_twice_changes_nothing(version: Seq<char>)
    ensures
        version_name(version_name(version)) == version_name(version),
{
    reveal_strlit("v");
    reveal_strlit("-ste94pz");
    let bare = bare_version(version);
    let named = version_name(version);
    let tail = if has_suffix(bare, "-ste94pz"@) {
        Seq::empty()
    } else {
        "-ste94pz"@
    };
    assert(named.take(1) == "v"@);
    assert(named.skip(1) == bare + tail);
    assert(bare_version(named) == bare + tail);
    if has_suffix(bare, "-ste94pz"@) {
        assert(bare + tail == bare);
    } else {
        assert((bare + tail).skip(bare.len() as int) == tail);
        assert((bare + tail).skip((bare + tail).len() - tail.len()) == tail);
    }
    assert(has_suffix(bare + tail, "-ste94pz"@));
    assert("v"@ + (bare + tail) + Seq::<char>::empty() == named);
}

} // verus!
