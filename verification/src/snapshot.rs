//! Configuration snapshots: limits with where they come from.

use vstd::prelude::*;

use crate::errors::Outcome;
use crate::errors::SnapshotError;
use crate::fingerprint::configuration_fingerprint;
use crate::fingerprint::fingerprint_configuration;
use crate::imports::runtime_transforms;
use crate::imports::transform_warnings;
use crate::imports::transforms_at_runtime;
use crate::imports::warn_of_transforms;
use crate::kinds::texts;
use crate::kinematics::Kinematics;
use crate::limits::pseudo_accel;
use crate::limits::scv_to_jd;
use crate::limits::PrinterLimits;
use crate::double::Double;
use crate::motion_transform::copy_rows;
use crate::offline::viewed;
use crate::offline::Sections;
use crate::printer_settings::apply_extruder_limits;
use crate::printer_settings::apply_runtime_limits;
use crate::printer_settings::at_runtime;
use crate::printer_settings::extruder_limits;
use crate::printer_settings::extruders_of;
use crate::printer_settings::limits_from_settings;
use crate::printer_settings::limits_of;
use crate::printer_settings::parse_extruders;
use crate::printer_settings::ExtruderSnapshot;
use crate::printer_settings::ExtrudersView;
use crate::printer_settings::LimitsView;
use crate::resolution::ignored_names;
use crate::resolution::ignored_warning;
use crate::settings::is_extruder_object;
use crate::settings::names_extruder;
use crate::settings::object_in;
use crate::settings::optional_text;
use crate::settings::text_in;
use crate::settings::Entry;
use crate::settings::Item;
use crate::settings::Object;
use crate::settings::ObjectView;
use crate::settings::Settings;
use crate::settings::SettingsView;
use crate::table::lemma_position;
use crate::table::position;
use crate::table::inserted;
use crate::table::Table;
use crate::text::has_prefix;
use crate::text::same;
use crate::text::starts_with;

verus! {

pub const CONFIG_SNAPSHOT_SCHEMA_VERSION: u32 = 1;

/// Which state of a printer a snapshot shows.
#[derive(Clone, Copy, Debug, PartialEq, Eq, Structural)]
pub enum SnapshotSelection {
    ConfigurationDefault,
    RuntimeSnapshot,
}

impl Default for SnapshotSelection {
    fn default() -> (r: SnapshotSelection)
        ensures
            r == SnapshotSelection::ConfigurationDefault,
    {
        SnapshotSelection::ConfigurationDefault
    }
}

#[derive(Clone, Copy, Debug, PartialEq, Eq, Structural)]
pub enum SnapshotAccuracy {
    Complete,
    Degraded,
}

#[derive(Clone, Copy, Debug, PartialEq, Eq, Structural)]
pub enum SnapshotSourceKind {
    BuiltInDefaults,
    Moonraker,
    MoonrakerCache,
    OfflineConfiguration,
    ConfigurationFile,
    Merged,
}

/// Where a snapshot comes from.
#[derive(Clone, Debug)]
pub struct SnapshotSource<S = String> {
    pub kind: SnapshotSourceKind,
    pub location: Option<S>,
    pub selection: SnapshotSelection,
}

impl View for SnapshotSource {
    type V = SnapshotSource<Seq<char>>;

    open spec fn view(&self) -> SnapshotSource<Seq<char>> {
        SnapshotSource {
            kind: self.kind,
            location: viewed(self.location),
            selection: self.selection,
        }
    }
}

/// The objects of a running printer.
#[derive(Clone, Debug)]
pub struct RuntimeObjects {
    pub toolhead: Object,
    pub gcode_move: Object,
    pub extruders: Table<Object>,
}

#[verifier::ext_equal]
pub struct RuntimeView {
    pub toolhead: ObjectView,
    pub gcode_move: ObjectView,
    pub extruders: Seq<(Seq<char>, ObjectView)>,
}

impl View for RuntimeObjects {
    type V = RuntimeView;

    open spec fn view(&self) -> RuntimeView {
        RuntimeView {
            toolhead: self.toolhead.deep_view(),
            gcode_move: self.gcode_move.deep_view(),
            extruders: self.extruders.deep_view(),
        }
    }
}

/// The configuration of a printer at some time.
#[derive(Clone, Debug)]
pub struct ConfigSnapshot {
    pub schema_version: u32,
    pub source: SnapshotSource,
    pub retrieved_at_unix_seconds: u64,
    pub klipper_version: Option<String>,
    pub fingerprint: String,
    pub accuracy: SnapshotAccuracy,
    pub warnings: Vec<String>,
    pub limits: PrinterLimits,
    pub configfile_settings: Settings,
    pub extruders: Table<ExtruderSnapshot>,
    pub runtime: Option<RuntimeObjects>,
}

#[verifier::ext_equal]
pub struct SnapshotView {
    pub schema_version: u32,
    pub source: SnapshotSource<Seq<char>>,
    pub retrieved_at: u64,
    pub klipper_version: Option<Seq<char>>,
    pub fingerprint: Seq<char>,
    pub accuracy: SnapshotAccuracy,
    pub warnings: Seq<Seq<char>>,
    pub limits: LimitsView,
    pub settings: SettingsView,
    pub extruders: ExtrudersView,
    pub runtime: Option<RuntimeView>,
}

impl View for ConfigSnapshot {
    type V = SnapshotView;

    open spec fn view(&self) -> SnapshotView {
        SnapshotView {
            schema_version: self.schema_version,
            source: self.source@,
            retrieved_at: self.retrieved_at_unix_seconds,
            klipper_version: viewed(self.klipper_version),
            fingerprint: self.fingerprint@,
            accuracy: self.accuracy,
            warnings: texts(self.warnings@),
            limits: self.limits@,
            settings: self.configfile_settings.deep_view(),
            extruders: self.extruders@,
            runtime: match self.runtime {
                Some(r) => Some(r@),
                None => None,
            },
        }
    }
}

/// What the fingerprint of a snapshot covers.
#[derive(Debug)]
pub struct FingerprintInput<'a> {
    pub schema_version: u32,
    pub selection: SnapshotSelection,
    pub klipper_version: &'a Option<String>,
    pub limits: &'a PrinterLimits,
    pub configfile_settings: &'a Settings,
    pub runtime: Option<&'a RuntimeObjects>,
}

#[verifier::ext_equal]
pub struct InputView {
    pub schema_version: u32,
    pub selection: SnapshotSelection,
    pub klipper_version: Option<Seq<char>>,
    pub limits: LimitsView,
    pub settings: SettingsView,
    pub runtime: Option<RuntimeView>,
}

impl<'a> View for FingerprintInput<'a> {
    type V = InputView;

    open spec fn view(&self) -> InputView {
        InputView {
            schema_version: self.schema_version,
            selection: self.selection,
            klipper_version: viewed(*self.klipper_version),
            limits: self.limits@,
            settings: self.configfile_settings.deep_view(),
            runtime: match self.runtime {
                Some(r) => Some(r@),
                None => None,
            },
        }
    }
}

/// What the fingerprint of a snapshot covers: of the runtime objects, only those of a runtime
/// snapshot.
pub open spec fn covered(v: SnapshotView) -> InputView {
    InputView {
        schema_version: v.schema_version,
        selection: v.source.selection,
        klipper_version: v.klipper_version,
        limits: v.limits,
        settings: v.settings,
        runtime: match v.source.selection {
            SnapshotSelection::RuntimeSnapshot => v.runtime,
            SnapshotSelection::ConfigurationDefault => None,
        },
    }
}

/// A snapshot without its contents.
#[derive(Clone, Debug)]
pub struct ConfigSnapshotSummary {
    pub schema_version: u32,
    pub source: SnapshotSource,
    pub retrieved_at_unix_seconds: u64,
    pub klipper_version: Option<String>,
    pub fingerprint: String,
    pub accuracy: SnapshotAccuracy,
    pub warnings: Vec<String>,
}

#[verifier::ext_equal]
pub struct SummaryView {
    pub schema_version: u32,
    pub source: SnapshotSource<Seq<char>>,
    pub retrieved_at: u64,
    pub klipper_version: Option<Seq<char>>,
    pub fingerprint: Seq<char>,
    pub accuracy: SnapshotAccuracy,
    pub warnings: Seq<Seq<char>>,
}

impl View for ConfigSnapshotSummary {
    type V = SummaryView;

    open spec fn view(&self) -> SummaryView {
        SummaryView {
            schema_version: self.schema_version,
            source: self.source@,
            retrieved_at: self.retrieved_at_unix_seconds,
            klipper_version: viewed(self.klipper_version),
            fingerprint: self.fingerprint@,
            accuracy: self.accuracy,
            warnings: texts(self.warnings@),
        }
    }
}

fn copy_text(t: &Option<String>) -> (r: Option<String>)
    ensures
        viewed(r) == viewed(*t),
{
    match t {
        Some(s) => Some(s.clone()),
        None => None,
    }
}

fn copy_texts(v: &Vec<String>) -> (r: Vec<String>)
    ensures
        texts(r@) == texts(v@),
{
    let mut out: Vec<String> = Vec::new();
    let mut i: usize = 0;
    while i < v.len()
        invariant
            i <= v@.len(),
            out@.len() == i,
            forall|k: int| 0 <= k < i ==> (#[trigger] out@[k])@ == v@[k]@,
        decreases v.len() - i,
    {
        out.push(v[i].clone());
        i = i + 1;
    }
    assert(texts(out@) == texts(v@));
    out
}

fn push_text(v: &mut Vec<String>, t: &str)
    ensures
        texts(final(v)@) == texts(old(v)@).push(t@),
{
    v.push(t.to_owned());
    assert(texts(v@) == texts(old(v)@).push(t@));
}

/// The limits with derived values up to date.
pub open spec fn recalculated(l: LimitsView) -> LimitsView {
    LimitsView {
        junction_deviation: scv_to_jd(l.square_corner_velocity, l.max_acceleration),
        mcr_pseudo_accel: pseudo_accel(
            l.minimum_cruise_ratio,
            l.max_accel_to_decel,
            l.max_acceleration,
        ),
        ..l
    }
}

impl SnapshotView {
    /// What is wrong with the schema or, against what it was made of, with the fingerprint.
    pub open spec fn fault(self, encoded: Seq<u8>) -> Option<SnapshotError<Seq<char>>> {
        if self.schema_version != CONFIG_SNAPSHOT_SCHEMA_VERSION {
            Some(SnapshotError::UnsupportedSchema(self.schema_version))
        } else if self.fingerprint != configuration_fingerprint(encoded) {
            Some(
                SnapshotError::FingerprintMismatch {
                    expected: configuration_fingerprint(encoded),
                    actual: self.fingerprint,
                },
            )
        } else {
            None
        }
    }

    /// The snapshot with the fingerprint of what it is made of.
    pub open spec fn refreshed(self, encoded: Seq<u8>) -> SnapshotView {
        SnapshotView { fingerprint: configuration_fingerprint(encoded), ..self }
    }

    pub open spec fn warned(self, t: Seq<char>) -> SnapshotView {
        SnapshotView { warnings: self.warnings.push(t), ..self }
    }

    /// The snapshot with a note on kinematics that are not modelled.
    pub open spec fn classified(self) -> SnapshotView {
        match self.limits.kinematics {
            Kinematics::Unsupported { backend, reason } => {
                let t = "configured Klipper kinematics '"@ + backend + "' is unsupported: "@
                    + reason;
                let degraded = SnapshotView { accuracy: SnapshotAccuracy::Degraded, ..self };
                if self.warnings.contains(t) {
                    degraded
                } else {
                    degraded.warned(t)
                }
            },
            _ => self,
        }
    }

    /// The snapshot with the limits of its extruders, if it was made without them.
    pub open spec fn upgraded(self) -> Outcome<SnapshotView> {
        if self.limits.extruders.len() > 0 || self.settings.len() == 0 {
            Ok(self)
        } else {
            match extruders_of(self.settings, self.settings.len() as int) {
                Err(e) => Err(e),
                Ok(x) => {
                    let active = match self.runtime {
                        Some(r) => text_in(r.toolhead, "extruder"@),
                        None => None,
                    };
                    let initial_extruder = if self.source.selection
                        == SnapshotSelection::RuntimeSnapshot && active is Some {
                        active
                    } else {
                        self.limits.initial_extruder
                    };
                    Ok(
                        SnapshotView {
                            limits: LimitsView {
                                extruders: extruder_limits(x),
                                initial_extruder,
                                ..self.limits
                            },
                            extruders: x,
                            ..self
                        }.warned("migrated legacy snapshot to the per-extruder limit model"@),
                    )
                },
            }
        }
    }

    /// The snapshot as taken from a cache.
    pub open spec fn cached(self, path: Seq<char>) -> SnapshotView {
        SnapshotView {
            source: SnapshotSource {
                kind: SnapshotSourceKind::MoonrakerCache,
                location: Some(path),
                selection: self.source.selection,
            },
            accuracy: SnapshotAccuracy::Degraded,
            ..self
        }.warned("Moonraker was unavailable; using a cached configuration-default snapshot"@)
    }

    /// An imported snapshot, which takes the place of a live one.
    pub open spec fn imported(self, filename: Seq<char>, live: bool) -> SnapshotView {
        if live {
            SnapshotView {
                source: SnapshotSource {
                    kind: SnapshotSourceKind::Merged,
                    location: Some(filename),
                    selection: self.source.selection,
                },
                ..self
            }.warned("configuration file overrides the live Moonraker snapshot"@)
        } else {
            self
        }
    }

    /// The snapshot with plain limits from a file laid over it.
    pub open spec fn overlaid(self, filename: Seq<char>, live: bool) -> SnapshotView {
        SnapshotView {
            source: SnapshotSource {
                kind: if live {
                    SnapshotSourceKind::Merged
                } else {
                    SnapshotSourceKind::ConfigurationFile
                },
                location: Some(filename),
                selection: self.source.selection,
            },
            accuracy: SnapshotAccuracy::Complete,
            warnings: specific(self.warnings, self.warnings.len() as int),
            ..self
        }.warned(
            if live {
                "legacy JSON5 configuration overrides the live Moonraker snapshot"@
            } else {
                "legacy JSON5 configuration has no Klipper version or retrieval provenance"@
            },
        )
    }

    /// The snapshot with its final limits.
    pub open spec fn with_limits(self, limits: LimitsView, overridden: bool) -> SnapshotView {
        let s = SnapshotView { limits: recalculated(limits), ..self }.classified();
        if overridden {
            SnapshotView {
                source: SnapshotSource { kind: SnapshotSourceKind::Merged, ..s.source },
                ..s
            }.warned("command-line configuration overrides are included in this snapshot"@)
        } else {
            s
        }
    }
}

/// Those of the first `i` warnings that do not speak of built-in limits.
pub open spec fn specific(warnings: Seq<Seq<char>>, i: int) -> Seq<Seq<char>>
    decreases i,
{
    if i <= 0 {
        Seq::empty()
    } else if has_prefix(warnings[i - 1], "using built-in generic printer limits"@) {
        specific(warnings, i - 1)
    } else {
        specific(warnings, i - 1).push(warnings[i - 1])
    }
}

fn keep_specific(v: &Vec<String>) -> (r: Vec<String>)
    ensures
        texts(r@) == specific(texts(v@), v@.len() as int),
{
    let mut out: Vec<String> = Vec::new();
    let mut i: usize = 0;
    assert(texts(out@) == Seq::<Seq<char>>::empty());
    while i < v.len()
        invariant
            i <= v@.len(),
            texts(out@) == specific(texts(v@), i as int),
        decreases v.len() - i,
    {
        assert(texts(v@)[i as int] == v@[i as int]@);
        if !starts_with(v[i].as_str(), "using built-in generic printer limits") {
            push_text(&mut out, v[i].as_str());
        }
        i = i + 1;
    }
    out
}

fn holds_text(v: &Vec<String>, t: &str) -> (r: bool)
    ensures
        r == texts(v@).contains(t@),
{
    let mut i: usize = 0;
    while i < v.len()
        invariant
            i <= v@.len(),
            forall|k: int| 0 <= k < i ==> texts(v@)[k] != t@,
        decreases v.len() - i,
    {
        assert(texts(v@)[i as int] == v@[i as int]@);
        if same(v[i].as_str(), t) {
            return true;
        }
        i = i + 1;
    }
    false
}

impl ConfigSnapshot {
    /// Generic limits, which are those of no machine.
    pub fn built_in_defaults(now: u64) -> (r: ConfigSnapshot)
        ensures
            r.limits.generic(),
            r@ == (SnapshotView {
                schema_version: CONFIG_SNAPSHOT_SCHEMA_VERSION,
                source: SnapshotSource {
                    kind: SnapshotSourceKind::BuiltInDefaults,
                    location: None,
                    selection: SnapshotSelection::ConfigurationDefault,
                },
                retrieved_at: now,
                klipper_version: None,
                fingerprint: Seq::empty(),
                accuracy: SnapshotAccuracy::Degraded,
                warnings: seq![
                    "using built-in generic printer limits; estimate is not machine-specific"@,
                ],
                limits: r.limits@,
                settings: Seq::empty(),
                extruders: Seq::empty(),
                runtime: None,
            }),
    {
        let mut warnings: Vec<String> = Vec::new();
        assert(texts(warnings@) == Seq::<Seq<char>>::empty());
        push_text(
            &mut warnings,
            "using built-in generic printer limits; estimate is not machine-specific",
        );
        let settings: Settings = Table::new();
        assert(settings.deep_view() == SettingsView::empty());
        ConfigSnapshot {
            schema_version: CONFIG_SNAPSHOT_SCHEMA_VERSION,
            source: SnapshotSource {
                kind: SnapshotSourceKind::BuiltInDefaults,
                location: None,
                selection: SnapshotSelection::ConfigurationDefault,
            },
            retrieved_at_unix_seconds: now,
            klipper_version: None,
            fingerprint: String::new(),
            accuracy: SnapshotAccuracy::Degraded,
            warnings,
            limits: PrinterLimits::default(),
            configfile_settings: settings,
            extruders: Table::new(),
            runtime: None,
        }
    }

    pub fn summary(&self) -> (r: ConfigSnapshotSummary)
        ensures
            r@ == (SummaryView {
                schema_version: self@.schema_version,
                source: self@.source,
                retrieved_at: self@.retrieved_at,
                klipper_version: self@.klipper_version,
                fingerprint: self@.fingerprint,
                accuracy: self@.accuracy,
                warnings: self@.warnings,
            }),
    {
        ConfigSnapshotSummary {
            schema_version: self.schema_version,
            source: SnapshotSource {
                kind: self.source.kind,
                location: copy_text(&self.source.location),
                selection: self.source.selection,
            },
            retrieved_at_unix_seconds: self.retrieved_at_unix_seconds,
            klipper_version: copy_text(&self.klipper_version),
            fingerprint: self.fingerprint.clone(),
            accuracy: self.accuracy,
            warnings: copy_texts(&self.warnings),
        }
    }

    /// Checks the schema and, against what it was made of, the fingerprint.
    pub fn validate(&self, encoded: &Vec<u8>) -> (r: Result<(), SnapshotError>)
        ensures
            self@.fault(encoded@) == match r {
                Ok(()) => None,
                Err(e) => Some(e@),
            },
    {
        if self.schema_version != CONFIG_SNAPSHOT_SCHEMA_VERSION {
            return Err(SnapshotError::UnsupportedSchema(self.schema_version));
        }
        let expected: String = fingerprint_configuration(encoded);
        if !same(self.fingerprint.as_str(), expected.as_str()) {
            return Err(
                SnapshotError::FingerprintMismatch { expected, actual: self.fingerprint.clone() },
            );
        }
        Ok(())
    }

    /// Takes the fingerprint of what the snapshot is made of.
    pub fn refresh_fingerprint(&mut self, encoded: &Vec<u8>)
        ensures
            final(self)@ == old(self)@.refreshed(encoded@),
            final(self).limits == old(self).limits,
    {
        self.fingerprint = fingerprint_configuration(encoded);
    }

    /// What the fingerprint covers.
    pub fn fingerprint_input(&self) -> (r: FingerprintInput<'_>)
        ensures
            r@ == covered(self@),
    {
        let runtime: Option<&RuntimeObjects> = match (self.source.selection, &self.runtime) {
            (SnapshotSelection::RuntimeSnapshot, Some(o)) => Some(o),
            _ => None,
        };
        FingerprintInput {
            schema_version: self.schema_version,
            selection: self.source.selection,
            klipper_version: &self.klipper_version,
            limits: &self.limits,
            configfile_settings: &self.configfile_settings,
            runtime,
        }
    }

    /// Adds the limits of the extruders to a snapshot that was made without them: whether it
    /// was.
    pub fn upgrade_legacy_extruders(&mut self) -> (r: Result<bool, SnapshotError>)
        ensures
            match (r, old(self)@.upgraded()) {
                (Ok(changed), Ok(v)) => final(self)@ == v && changed == (
                old(self)@.limits.extruders.len() == 0 && old(self)@.settings.len() > 0),
                (Err(e), Err(f)) => e@ == f && *final(self) == *old(self),
                _ => false,
            },
    {
        assert(self.configfile_settings.deep_view().len() == self.configfile_settings@.len());
        if self.limits.extruders.len() > 0 || self.configfile_settings.len() == 0 {
            return Ok(false);
        }
        let extruders: Table<ExtruderSnapshot> = parse_extruders(&self.configfile_settings)?;
        apply_extruder_limits(&mut self.limits, &extruders);
        self.extruders = extruders;
        if self.source.selection == SnapshotSelection::RuntimeSnapshot {
            if let Some(runtime) = &self.runtime {
                if let Some(active) = optional_text(&runtime.toolhead, "extruder") {
                    self.limits.initial_extruder = Some(active.to_owned());
                }
            }
        }
        push_text(
            &mut self.warnings,
            "migrated legacy snapshot to the per-extruder limit model",
        );
        Ok(true)
    }

    /// Notes kinematics that are not modelled.
    pub fn apply_kinematics_classification(&mut self)
        ensures
            final(self)@ == old(self)@.classified(),
            final(self).limits == old(self).limits,
    {
        if let Some((backend, reason)) = self.limits.kinematics.unsupported_details() {
            let mut t: String = "configured Klipper kinematics '".to_owned();
            t.append(backend);
            t.append("' is unsupported: ");
            t.append(reason);
            self.accuracy = SnapshotAccuracy::Degraded;
            if !holds_text(&self.warnings, t.as_str()) {
                push_text(&mut self.warnings, t.as_str());
            }
        }
    }

    /// Marks a snapshot as taken from a cache.
    pub fn mark_cached(&mut self, path: &str)
        ensures
            final(self)@ == old(self)@.cached(path@),
            final(self).limits == old(self).limits,
    {
        self.source.kind = SnapshotSourceKind::MoonrakerCache;
        self.source.location = Some(path.to_owned());
        self.accuracy = SnapshotAccuracy::Degraded;
        push_text(
            &mut self.warnings,
            "Moonraker was unavailable; using a cached configuration-default snapshot",
        );
    }

    /// A snapshot of plain limits from a cache.
    pub fn from_cached_limits(
        limits: PrinterLimits,
        path: &str,
        selection: SnapshotSelection,
        now: u64,
    ) -> (r: ConfigSnapshot)
        ensures
            r.limits == limits,
            r@ == (SnapshotView {
                schema_version: CONFIG_SNAPSHOT_SCHEMA_VERSION,
                source: SnapshotSource {
                    kind: SnapshotSourceKind::MoonrakerCache,
                    location: Some(path@),
                    selection,
                },
                retrieved_at: now,
                klipper_version: None,
                fingerprint: Seq::empty(),
                accuracy: SnapshotAccuracy::Degraded,
                warnings: seq![
                    "imported a legacy Moonraker cache without Klipper version or settings provenance"@,
                ],
                limits: limits@,
                settings: Seq::empty(),
                extruders: Seq::empty(),
                runtime: None,
            }),
    {
        let mut snapshot: ConfigSnapshot = ConfigSnapshot::built_in_defaults(now);
        snapshot.source = SnapshotSource {
            kind: SnapshotSourceKind::MoonrakerCache,
            location: Some(path.to_owned()),
            selection,
        };
        snapshot.limits = limits;
        let mut warnings: Vec<String> = Vec::new();
        assert(texts(warnings@) == Seq::<Seq<char>>::empty());
        push_text(
            &mut warnings,
            "imported a legacy Moonraker cache without Klipper version or settings provenance",
        );
        snapshot.warnings = warnings;
        snapshot
    }

    /// Notes that an imported snapshot takes the place of a live one.
    pub fn mark_imported(&mut self, filename: &str, live: bool)
        ensures
            final(self)@ == old(self)@.imported(filename@, live),
            final(self).limits == old(self).limits,
    {
        if live {
            self.source.kind = SnapshotSourceKind::Merged;
            self.source.location = Some(filename.to_owned());
            push_text(
                &mut self.warnings,
                "configuration file overrides the live Moonraker snapshot",
            );
        }
    }

    /// Notes that plain limits from a file are laid over the snapshot.
    pub fn mark_overlaid(&mut self, filename: &str, live: bool)
        ensures
            final(self)@ == old(self)@.overlaid(filename@, live),
            final(self).limits == old(self).limits,
    {
        self.source.kind = if live {
            SnapshotSourceKind::Merged
        } else {
            SnapshotSourceKind::ConfigurationFile
        };
        self.source.location = Some(filename.to_owned());
        self.accuracy = SnapshotAccuracy::Complete;
        self.warnings = keep_specific(&self.warnings);
        push_text(
            &mut self.warnings,
            if live {
                "legacy JSON5 configuration overrides the live Moonraker snapshot"
            } else {
                "legacy JSON5 configuration has no Klipper version or retrieval provenance"
            },
        );
    }

    /// Sets the final limits.
    pub fn finish(&mut self, limits: PrinterLimits, overridden: bool)
        ensures
            final(self)@ == old(self)@.with_limits(limits@, overridden),
            final(self).limits == limits.recalculated(),
    {
        let mut limits: PrinterLimits = limits;
        limits.recalculate();
        self.limits = limits;
        self.apply_kinematics_classification();
        if overridden {
            self.source.kind = SnapshotSourceKind::Merged;
            push_text(
                &mut self.warnings,
                "command-line configuration overrides are included in this snapshot",
            );
        }
    }
}

/// Rejects a cache where it would stand for runtime state: one that is asked for it, and one
/// that holds it.
pub fn check_cache(requested: SnapshotSelection, stored: SnapshotSelection) -> (r: Result<
    (),
    SnapshotError,
>)
    ensures
        match r {
            Ok(()) => requested == SnapshotSelection::ConfigurationDefault && stored
                == SnapshotSelection::ConfigurationDefault,
            Err(e) => (requested == SnapshotSelection::RuntimeSnapshot || stored
                == SnapshotSelection::RuntimeSnapshot) && e@ == SnapshotError::<
                Seq<char>,
            >::StaleRuntimeCache,
        },
{
    match (requested, stored) {
        (SnapshotSelection::ConfigurationDefault, SnapshotSelection::ConfigurationDefault) => Ok(
            (),
        ),
        _ => Err(SnapshotError::StaleRuntimeCache),
    }
}

/// Rejects a cache that is asked for runtime state, before anything is known of what it holds.
pub fn check_cache_selection(selection: SnapshotSelection) -> (r: Result<(), SnapshotError>)
    ensures
        match r {
            Ok(()) => selection == SnapshotSelection::ConfigurationDefault,
            Err(e) => selection == SnapshotSelection::RuntimeSnapshot && e@ == SnapshotError::<
                Seq<char>,
            >::StaleRuntimeCache,
        },
{
    check_cache(selection, SnapshotSelection::ConfigurationDefault)
}

/// Where limits are taken from.
#[derive(Clone, Copy, Debug, PartialEq, Eq, Structural)]
pub enum ConfigOrigin {
    Offline,
    /// Configuration files have no runtime state.
    OfflineConflict,
    Moonraker,
    BuiltIn,
}

/// Where limits are taken from.
#[verifier::allow_in_spec]
pub fn choose_origin(offline: bool, moonraker: bool, selection: SnapshotSelection) -> ConfigOrigin
    returns
        (if offline {
            match selection {
                SnapshotSelection::ConfigurationDefault => ConfigOrigin::Offline,
                SnapshotSelection::RuntimeSnapshot => ConfigOrigin::OfflineConflict,
            }
        } else if moonraker {
            ConfigOrigin::Moonraker
        } else {
            ConfigOrigin::BuiltIn
        }),
{
    if offline {
        match selection {
            SnapshotSelection::ConfigurationDefault => ConfigOrigin::Offline,
            SnapshotSelection::RuntimeSnapshot => ConfigOrigin::OfflineConflict,
        }
    } else if moonraker {
        ConfigOrigin::Moonraker
    } else {
        ConfigOrigin::BuiltIn
    }
}

/// What to do when a printer cannot be reached.
#[derive(Clone, Copy, Debug, PartialEq, Eq, Structural)]
pub enum Fallback {
    Fail,
    /// Generic limits are never used in place of those of a printer.
    RefuseGeneric,
    ReadCache,
}

/// What to do when a printer cannot be reached.
#[verifier::allow_in_spec]
pub fn choose_fallback(ignore_error: bool, cache: bool) -> Fallback
    returns
        (if !ignore_error {
            Fallback::Fail
        } else if cache {
            Fallback::ReadCache
        } else {
            Fallback::RefuseGeneric
        }),
{
    if !ignore_error {
        Fallback::Fail
    } else if cache {
        Fallback::ReadCache
    } else {
        Fallback::RefuseGeneric
    }
}

/// The settings that a printer reports.
#[derive(Debug)]
pub enum ReportedSettings {
    /// The `configfile` object is missing.
    NoObject,
    /// It has no settings.
    NoField,
    /// Its settings are no object.
    NotAnObject,
    Found(Settings),
}

/// The settings that a printer reports.
pub open spec fn reported(c: ReportedSettings) -> Outcome<SettingsView> {
    match c {
        ReportedSettings::NoObject => Err(SnapshotError::MissingObject("configfile"@)),
        ReportedSettings::NoField => Err(SnapshotError::MissingField("settings"@)),
        ReportedSettings::NotAnObject => Err(SnapshotError::MissingField("configfile.settings"@)),
        ReportedSettings::Found(s) => Ok(s.deep_view()),
    }
}

/// An object that must be reported.
pub open spec fn taken(status: SettingsView, name: Seq<char>) -> Outcome<ObjectView> {
    match object_in(status, name) {
        Some(o) => Ok(o),
        None => Err(SnapshotError::MissingObject(name)),
    }
}

/// The extruder objects among the first `i` objects of a status.
pub open spec fn runtime_extruders(status: SettingsView, i: int) -> Outcome<
    Seq<(Seq<char>, ObjectView)>,
>
    decreases i,
{
    if i <= 0 {
        Ok(Seq::empty())
    } else {
        match runtime_extruders(status, i - 1) {
            Err(e) => Err(e),
            Ok(found) => if !names_extruder(status[i - 1].0) {
                Ok(found)
            } else {
                match status[i - 1].1 {
                    Entry::Object(o) => Ok(inserted(found, status[i - 1].0, o)),
                    Entry::Other => Err(SnapshotError::MissingObject(status[i - 1].0)),
                }
            },
        }
    }
}

proof fn lemma_runtime_fails(status: SettingsView, i: int, j: int)
    requires
        0 <= i <= j,
        runtime_extruders(status, i) is Err,
    ensures
        runtime_extruders(status, j) == runtime_extruders(status, i),
    decreases j,
{
    if i < j {
        lemma_runtime_fails(status, i, j - 1);
    }
}

fn copy_object(o: &Object) -> (r: Object)
    ensures
        r.deep_view() == o.deep_view(),
{
    let mut out: Object = Table::new();
    let ghost v = o.deep_view();
    let mut i: usize = 0;
    assert(out.deep_view() == v.take(0));
    while i < o.len()
        invariant
            i <= o@.len(),
            v == o.deep_view(),
            out.deep_view() == v.take(i as int),
        decreases o@.len() - i,
    {
        let key: String = o.key_at(i).to_owned();
        let item = copy_item(o.value_at(i));
        let ghost before = out.deep_view();
        let ghost k = key@;
        let ghost x = item.deep_view();
        out.entries.push((key, item));
        assert(out.deep_view() == before.push((k, x)));
        assert(v.take(i + 1) == v.take(i as int).push(v[i as int]));
        assert(v[i as int] == (k, x));
        i = i + 1;
    }
    assert(v.take(i as int) == v);
    out
}

fn copy_item(item: &Item) -> (r: Item)
    ensures
        r.deep_view() == item.deep_view(),
{
    match item {
        Item::Number(x) => Item::Number(*x),
        Item::Flag(b) => Item::Flag(*b),
        Item::Text(t) => Item::Text(t.clone()),
        Item::List(l) => Item::List(copy_rows(l)),
        Item::Other => Item::Other,
    }
}

fn take_object(status: &Settings, name: &str) -> (r: Result<Object, SnapshotError>)
    ensures
        taken(status.deep_view(), name@) == match r {
            Ok(o) => Ok(o.deep_view()),
            Err(e) => Err(e@),
        },
{
    match status.find(name) {
        Some(Entry::Object(o)) => Ok(copy_object(o)),
        _ => Err(SnapshotError::MissingObject(name.to_owned())),
    }
}

fn take_extruders(status: &Settings) -> (r: Result<Table<Object>, SnapshotError>)
    ensures
        runtime_extruders(status.deep_view(), status@.len() as int) == match r {
            Ok(t) => Ok(t.deep_view()),
            Err(e) => Err(e@),
        },
{
    let ghost v = status.deep_view();
    let mut found: Table<Object> = Table::new();
    let mut i: usize = 0;
    assert(found.deep_view() == Seq::<(Seq<char>, ObjectView)>::empty());
    while i < status.len()
        invariant
            i <= status@.len(),
            v == status.deep_view(),
            runtime_extruders(v, i as int) == Ok::<
                Seq<(Seq<char>, ObjectView)>,
                SnapshotError<Seq<char>>,
            >(found.deep_view()),
        decreases status@.len() - i,
    {
        let name: &str = status.key_at(i);
        assert(v[i as int] == (name@, status@[i as int].1.deep_view()));
        if is_extruder_object(name) {
            match status.value_at(i) {
                Entry::Object(o) => found.put(name, copy_object(o)),
                Entry::Other => {
                    proof {
                        lemma_runtime_fails(v, i + 1, v.len() as int);
                    }
                    return Err(SnapshotError::MissingObject(name.to_owned()));
                },
            }
        }
        i = i + 1;
    }
    Ok(found)
}

/// The limits of a printer that reports its settings and its state.
pub open spec fn reported_limits(
    selection: SnapshotSelection,
    s: SettingsView,
    x: ExtrudersView,
    runtime: RuntimeView,
    status: SettingsView,
    cosine: Double,
) -> Outcome<LimitsView> {
    match limits_of(s, x, cosine) {
        Err(e) => Err(e),
        Ok(l) => match selection {
            SnapshotSelection::ConfigurationDefault => Ok(recalculated(l)),
            SnapshotSelection::RuntimeSnapshot => match at_runtime(
                l,
                runtime.toolhead,
                runtime.gcode_move,
            ) {
                Err(e) => Err(e),
                Ok(t) => Ok(
                    recalculated(
                        LimitsView {
                            motion_transforms: runtime_transforms(t.motion_transforms, status),
                            ..t
                        },
                    ),
                ),
            },
        },
    }
}

/// What is uncertain about the state of a printer. Only a runtime snapshot depends on it.
pub open spec fn reported_warnings(selection: SnapshotSelection, status: SettingsView) -> Seq<
    Seq<char>,
> {
    match selection {
        SnapshotSelection::ConfigurationDefault => Seq::empty(),
        SnapshotSelection::RuntimeSnapshot => transform_warnings(status),
    }
}

/// The snapshot of a printer that reports its settings and its state.
pub open spec fn status_snapshot(
    location: Seq<char>,
    selection: SnapshotSelection,
    klipper_version: Option<Seq<char>>,
    settings: Outcome<SettingsView>,
    status: SettingsView,
    cosine: Double,
    now: u64,
) -> Outcome<SnapshotView> {
    match (
        settings,
        taken(status, "toolhead"@),
        taken(status, "gcode_move"@),
        runtime_extruders(status, status.len() as int),
    ) {
        (Err(e), _, _, _) => Err(e),
        (_, Err(e), _, _) => Err(e),
        (_, _, Err(e), _) => Err(e),
        (_, _, _, Err(e)) => Err(e),
        (Ok(s), Ok(toolhead), Ok(gcode_move), Ok(tools)) => {
            let runtime = RuntimeView { toolhead, gcode_move, extruders: tools };
            match extruders_of(s, s.len() as int) {
                Err(e) => Err(e),
                Ok(x) => match reported_limits(selection, s, x, runtime, status, cosine) {
                    Err(e) => Err(e),
                    Ok(limits) => Ok(
                        SnapshotView {
                            schema_version: CONFIG_SNAPSHOT_SCHEMA_VERSION,
                            source: SnapshotSource {
                                kind: SnapshotSourceKind::Moonraker,
                                location: Some(location),
                                selection,
                            },
                            retrieved_at: now,
                            klipper_version,
                            fingerprint: Seq::empty(),
                            accuracy: if reported_warnings(selection, status).len() > 0 {
                                SnapshotAccuracy::Degraded
                            } else {
                                SnapshotAccuracy::Complete
                            },
                            warnings: reported_warnings(selection, status),
                            limits,
                            settings: s,
                            extruders: x,
                            runtime: Some(runtime),
                        }.classified(),
                    ),
                },
            }
        },
    }
}

pub open spec fn snapshot_outcome(r: Result<ConfigSnapshot, SnapshotError>) -> Outcome<
    SnapshotView,
> {
    match r {
        Ok(s) => Ok(s@),
        Err(e) => Err(e@),
    }
}

/// The snapshot of a printer that reports its settings and its state. `cosine` is that of the
/// minimum angle of a deltesian.
pub fn snapshot_from_status(
    location: String,
    selection: SnapshotSelection,
    klipper_version: Option<String>,
    configfile: ReportedSettings,
    status: &Settings,
    cosine: Double,
    now: u64,
) -> (r: Result<ConfigSnapshot, SnapshotError>)
    ensures
        snapshot_outcome(r) == status_snapshot(
            location@,
            selection,
            viewed(klipper_version),
            reported(configfile),
            status.deep_view(),
            cosine,
            now,
        ),
{
    let settings: Settings = match configfile {
        ReportedSettings::NoObject => {
            return Err(SnapshotError::MissingObject("configfile".to_owned()));
        },
        ReportedSettings::NoField => {
            return Err(SnapshotError::MissingField("settings".to_owned()));
        },
        ReportedSettings::NotAnObject => {
            return Err(SnapshotError::MissingField("configfile.settings".to_owned()));
        },
        ReportedSettings::Found(s) => s,
    };
    assert(status.deep_view().len() == status@.len());
    let toolhead: Object = take_object(status, "toolhead")?;
    let gcode_move: Object = take_object(status, "gcode_move")?;
    let tools: Table<Object> = take_extruders(status)?;
    let extruders: Table<ExtruderSnapshot> = parse_extruders(&settings)?;
    let mut limits: PrinterLimits = limits_from_settings(&settings, &extruders, cosine)?;
    let mut warnings: Vec<String> = Vec::new();
    assert(texts(warnings@) == Seq::<Seq<char>>::empty());
    if selection == SnapshotSelection::RuntimeSnapshot {
        apply_runtime_limits(&mut limits, &toolhead, &gcode_move)?;
        limits.motion_transforms = transforms_at_runtime(limits.motion_transforms, status);
        warnings = warn_of_transforms(status);
    }
    limits.recalculate();
    assert(texts(warnings@).len() == warnings@.len());
    let accuracy = if warnings.len() > 0 {
        SnapshotAccuracy::Degraded
    } else {
        SnapshotAccuracy::Complete
    };
    let mut snapshot: ConfigSnapshot = ConfigSnapshot {
        schema_version: CONFIG_SNAPSHOT_SCHEMA_VERSION,
        source: SnapshotSource {
            kind: SnapshotSourceKind::Moonraker,
            location: Some(location),
            selection,
        },
        retrieved_at_unix_seconds: now,
        klipper_version,
        fingerprint: String::new(),
        accuracy,
        warnings,
        limits,
        configfile_settings: settings,
        extruders,
        runtime: Some(RuntimeObjects { toolhead, gcode_move, extruders: tools }),
    };
    snapshot.apply_kinematics_classification();
    Ok(snapshot)
}

/// The snapshot of resolved configuration files.
pub open spec fn offline_view(
    location: Seq<char>,
    s: SettingsView,
    ignored: Seq<char>,
    cosine: Double,
    now: u64,
) -> Outcome<SnapshotView> {
    match extruders_of(s, s.len() as int) {
        Err(e) => Err(e),
        Ok(x) => match limits_of(s, x, cosine) {
            Err(e) => Err(e),
            Ok(l) => Ok(
                SnapshotView {
                    schema_version: CONFIG_SNAPSHOT_SCHEMA_VERSION,
                    source: SnapshotSource {
                        kind: SnapshotSourceKind::OfflineConfiguration,
                        location: Some(location),
                        selection: SnapshotSelection::ConfigurationDefault,
                    },
                    retrieved_at: now,
                    klipper_version: None,
                    fingerprint: Seq::empty(),
                    accuracy: SnapshotAccuracy::Complete,
                    warnings: if ignored.len() == 0 {
                        Seq::empty()
                    } else {
                        seq![
                            "offline configuration sections not modeled by the estimator: "@
                                + ignored,
                        ]
                    },
                    limits: recalculated(l),
                    settings: s,
                    extruders: x,
                    runtime: None,
                }.classified(),
            ),
        },
    }
}

/// The snapshot of configuration files, from their sections and the settings that these resolve
/// to. `cosine` is that of the minimum angle of a deltesian.
pub fn offline_snapshot(
    location: String,
    sections: &Sections,
    settings: Settings,
    cosine: Double,
    now: u64,
) -> (r: Result<ConfigSnapshot, SnapshotError>)
    ensures
        snapshot_outcome(r) == offline_view(
            location@,
            settings.deep_view(),
            ignored_names(sections.deep_view(), sections@.len() as int),
            cosine,
            now,
        ),
{
    let extruders: Table<ExtruderSnapshot> = parse_extruders(&settings)?;
    let mut limits: PrinterLimits = limits_from_settings(&settings, &extruders, cosine)?;
    limits.recalculate();
    let mut warnings: Vec<String> = Vec::new();
    assert(texts(warnings@) == Seq::<Seq<char>>::empty());
    if let Some(t) = ignored_warning(sections) {
        push_text(&mut warnings, t.as_str());
    }
    let mut snapshot: ConfigSnapshot = ConfigSnapshot {
        schema_version: CONFIG_SNAPSHOT_SCHEMA_VERSION,
        source: SnapshotSource {
            kind: SnapshotSourceKind::OfflineConfiguration,
            location: Some(location),
            selection: SnapshotSelection::ConfigurationDefault,
        },
        retrieved_at_unix_seconds: now,
        klipper_version: None,
        fingerprint: String::new(),
        accuracy: SnapshotAccuracy::Complete,
        warnings,
        limits,
        configfile_settings: settings,
        extruders,
        runtime: None,
    };
    snapshot.apply_kinematics_classification();
    Ok(snapshot)
}

/// In configuration-default mode, the same settings give the same limits and extruders whether
/// they come from files or from a printer.
pub proof fn offline_and_reported_snapshots_agree(
    location: Seq<char>,
    s: SettingsView,
    ignored: Seq<char>,
    cosine: Double,
    now: u64,
    source: Seq<char>,
    klipper_version: Option<Seq<char>>,
    status: SettingsView,
)
    ensures
        ({
            let offline = offline_view(location, s, ignored, cosine, now);
            let reported = status_snapshot(
                source,
                SnapshotSelection::ConfigurationDefault,
                klipper_version,
                Ok(s),
                status,
                cosine,
                now,
            );
            reported matches Ok(b) ==> offline matches Ok(a) && a.limits == b.limits && a.settings
                == b.settings && a.extruders == b.extruders && a.source.selection
                == b.source.selection
        }),
{
}

/// A snapshot whose fingerprint was just taken is valid.
pub proof fn refreshed_snapshot_is_valid(v: SnapshotView, encoded: Seq<u8>)
    requires
        v.schema_version == CONFIG_SNAPSHOT_SCHEMA_VERSION,
    ensures
        v.refreshed(encoded).fault(encoded) is None,
{
}

/// Once a snapshot has the limits of its extruders, upgrading changes nothing.
pub proof fn upgraded_snapshot_stays(v: SnapshotView, u: SnapshotView)
    requires
        v.upgraded() == Ok::<SnapshotView, SnapshotError<Seq<char>>>(u),
        u.limits.extruders.len() > 0,
    ensures
        u.upgraded() == Ok::<SnapshotView, SnapshotError<Seq<char>>>(u),
{
}

/// The fingerprint does not depend on when and from where a snapshot was taken, on how accurate
/// it is, on its warnings or on the table of its extruders.
pub proof fn provenance_leaves_the_fingerprint_alone(v: SnapshotView, w: SnapshotView)
    requires
        w == (SnapshotView {
            source: SnapshotSource {
                kind: w.source.kind,
                location: w.source.location,
                ..v.source
            },
            retrieved_at: w.retrieved_at,
            fingerprint: w.fingerprint,
            accuracy: w.accuracy,
            warnings: w.warnings,
            extruders: w.extruders,
            ..v
        }),
    ensures
        covered(v) == covered(w),
{
}

/// The fingerprint of a configuration-default snapshot does not depend on runtime state.
pub proof fn runtime_state_leaves_defaults_alone(v: SnapshotView, runtime: Option<RuntimeView>)
    requires
        v.source.selection == SnapshotSelection::ConfigurationDefault,
    ensures
        covered(SnapshotView { runtime, ..v }) == covered(v),
{
}

/// Whether two reports differ only in what the objects of the toolhead and of the G-code state
/// hold.
pub open spec fn same_but_runtime(a: SettingsView, b: SettingsView) -> bool {
    &&& a.len() == b.len()
    &&& forall|i: int|
        0 <= i < a.len() ==> {
            &&& (#[trigger] a[i]).0 == b[i].0
            &&& if a[i].0 == "toolhead"@ || a[i].0 == "gcode_move"@ {
                b[i].1 is Object
            } else {
                b[i].1 == a[i].1
            }
        }
}

proof fn lemma_taken(a: SettingsView, b: SettingsView, name: Seq<char>)
    requires
        same_but_runtime(a, b),
        name == "toolhead"@ || name == "gcode_move"@,
    ensures
        taken(a, name) is Ok ==> taken(b, name) is Ok,
{
    lemma_position(a, name);
    lemma_position(b, name);
    let p = position(a, name);
    let q = position(b, name);
    if p < a.len() {
        assert(b[p].0 == a[p].0);
        assert(q < b.len());
        assert(a[q].0 == b[q].0);
    }
}

proof fn lemma_runtime_tools(a: SettingsView, b: SettingsView, i: int)
    requires
        same_but_runtime(a, b),
        i <= a.len(),
    ensures
        runtime_extruders(a, i) == runtime_extruders(b, i),
    decreases i,
{
    if i > 0 {
        lemma_runtime_tools(a, b, i - 1);
        assert(a[i - 1].0 == b[i - 1].0);
        reveal_strlit("toolhead");
        reveal_strlit("gcode_move");
        reveal_strlit("extruder");
        assert(!names_extruder("toolhead"@)) by {
            if has_prefix("toolhead"@, "extruder"@) {
                assert("toolhead"@.take("extruder"@.len() as int)[0] == 't');
            }
        }
        assert(!names_extruder("gcode_move"@)) by {
            if has_prefix("gcode_move"@, "extruder"@) {
                assert("gcode_move"@.take("extruder"@.len() as int)[0] == 'g');
            }
        }
    }
}

/// What the toolhead and the G-code state report does not reach a configuration-default snapshot:
/// its limits, its accuracy, its warnings and what its fingerprint covers are the same whatever is
/// reported there.
pub proof fn runtime_reports_leave_defaults_alone(
    location: Seq<char>,
    klipper_version: Option<Seq<char>>,
    settings: Outcome<SettingsView>,
    a: SettingsView,
    b: SettingsView,
    cosine: Double,
    now: u64,
)
    requires
        same_but_runtime(a, b),
    ensures
        ({
            let selection = SnapshotSelection::ConfigurationDefault;
            let x = status_snapshot(
                location,
                selection,
                klipper_version,
                settings,
                a,
                cosine,
                now,
            );
            let y = status_snapshot(
                location,
                selection,
                klipper_version,
                settings,
                b,
                cosine,
                now,
            );
            x matches Ok(v) ==> y matches Ok(w) && w.limits == v.limits && w.accuracy == v.accuracy
                && w.warnings == v.warnings && covered(w) == covered(v)
        }),
{
    lemma_taken(a, b, "toolhead"@);
    lemma_taken(a, b, "gcode_move"@);
    lemma_runtime_tools(a, b, a.len() as int);
}

} // verus!
