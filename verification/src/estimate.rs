//! Statistics of a print.

use vstd::prelude::*;

use crate::constants::DAY;
use crate::constants::EPSILON;
use crate::constants::FILAMENT_RADIUS;
use crate::constants::HOUR;
use crate::constants::MINUTE;
use crate::constants::THOUSAND;
use crate::decimal::fixed;
use crate::decimal::format_fixed;
use crate::delay::Delay;
use crate::diagnostics::PlannerDiagnostic;
use crate::double::num;
use crate::double::Double;
use crate::double::ZERO;
use crate::duration::add_time;
use crate::duration::with_time;
use crate::duration::DurationEstimate;
use crate::duration::EstimateView;
use crate::duration::Times;
use crate::operations::OperationsView;
use crate::operations::PlanningOperation;
use crate::operations::reported;
use crate::planner::Planner;
use crate::planner::PlannerView;
use crate::planning_move::PlanningMove;
use crate::snapshot::ConfigSnapshot;
use crate::snapshot::SnapshotAccuracy;
use crate::offline::viewed;
use crate::kinematics::backend_text;
use crate::table::inserted;
use crate::table::lookup;
use crate::table::Table;

verus! {

/// Filament that went through an extruder.
#[derive(Clone, Copy, Debug)]
pub struct ExtruderEstimation {
    /// Signed filament movement; retractions are negative.
    pub net_distance: Double,
    pub extruded_distance: Double,
    pub retracted_distance: Double,
}

impl ExtruderEstimation {
    #[verifier::allow_in_spec]
    pub fn none() -> ExtruderEstimation
        returns
            (ExtruderEstimation {
                net_distance: num(ZERO),
                extruded_distance: num(ZERO),
                retracted_distance: num(ZERO),
            }),
    {
        ExtruderEstimation {
            net_distance: num(ZERO),
            extruded_distance: num(ZERO),
            retracted_distance: num(ZERO),
        }
    }

    /// The statistics with more filament.
    #[verifier::allow_in_spec]
    pub fn plus(&self, delta: Double) -> ExtruderEstimation
        returns
            (ExtruderEstimation {
                net_distance: self.net_distance + delta,
                extruded_distance: if delta > num(ZERO) {
                    self.extruded_distance + delta
                } else {
                    self.extruded_distance
                },
                retracted_distance: if delta > num(ZERO) {
                    self.retracted_distance
                } else {
                    self.retracted_distance + delta
                },
            }),
    {
        ExtruderEstimation {
            net_distance: self.net_distance + delta,
            extruded_distance: if delta > num(ZERO) {
                self.extruded_distance + delta
            } else {
                self.extruded_distance
            },
            retracted_distance: if delta > num(ZERO) {
                self.retracted_distance
            } else {
                self.retracted_distance + delta
            },
        }
    }
}

#[derive(Clone, Copy, Debug)]
pub struct EstimationPhaseTimes {
    pub acceleration: Double,
    pub cruise: Double,
    pub deceleration: Double,
}

impl EstimationPhaseTimes {
    #[verifier::allow_in_spec]
    pub fn none() -> EstimationPhaseTimes
        returns
            (EstimationPhaseTimes {
                acceleration: num(ZERO),
                cruise: num(ZERO),
                deceleration: num(ZERO),
            }),
    {
        EstimationPhaseTimes { acceleration: num(ZERO), cruise: num(ZERO), deceleration: num(ZERO) }
    }

    #[verifier::allow_in_spec]
    pub fn plus(&self, m: &PlanningMove) -> EstimationPhaseTimes
        returns
            (EstimationPhaseTimes {
                acceleration: self.acceleration + m.accel_time(),
                cruise: self.cruise + m.cruise_time(),
                deceleration: self.deceleration + m.decel_time(),
            }),
    {
        EstimationPhaseTimes {
            acceleration: self.acceleration + m.accel_time(),
            cruise: self.cruise + m.cruise_time(),
            deceleration: self.deceleration + m.decel_time(),
        }
    }
}

/// Times by height, in increasing order of height.
pub type LayerTimes = Seq<(Double, Double)>;

/// The index of a height, or the number of heights.
pub open spec fn layer_index(l: LayerTimes, z: Double) -> int
    decreases l.len(),
{
    if l.len() == 0 {
        0
    } else if l[0].0.equals(z) {
        0
    } else {
        1 + layer_index(l.skip(1), z)
    }
}

/// The number of leading heights below a height.
pub open spec fn layer_slot(l: LayerTimes, z: Double) -> int
    decreases l.len(),
{
    if l.len() == 0 || !(l[0].0 < z) {
        0
    } else {
        1 + layer_slot(l.skip(1), z)
    }
}

/// The times with that of a height increased.
pub open spec fn with_layer(l: LayerTimes, z: Double, t: Double) -> LayerTimes {
    let i = layer_index(l, z);
    if i < l.len() {
        l.update(i, (l[i].0, l[i].1 + t))
    } else {
        l.insert(layer_slot(l, z), (z, num(ZERO) + t))
    }
}

proof fn lemma_layer_slot(l: LayerTimes, z: Double)
    ensures
        0 <= layer_slot(l, z) <= l.len(),
        0 <= layer_index(l, z) <= l.len(),
    decreases l.len(),
{
    if l.len() > 0 {
        lemma_layer_slot(l.skip(1), z);
    }
}

fn add_layer(l: &mut Vec<(Double, Double)>, z: Double, t: Double)
    ensures
        final(l)@ == with_layer(old(l)@, z, t),
{
    let ghost v = l@;
    let mut i: usize = 0;
    assert(v.skip(0) == v);
    while i < l.len()
        invariant
            i <= l@.len(),
            v == l@,
            v == old(l)@,
            layer_index(v, z) == i + layer_index(v.skip(i as int), z),
        decreases l.len() - i,
    {
        let (height, known): (Double, Double) = l[i];
        assert(v.skip(i as int)[0] == v[i as int]);
        if height == z {
            l.set(i, (height, known + t));
            return;
        }
        assert(v.skip(i as int).skip(1) == v.skip(i + 1));
        i = i + 1;
    }
    let mut k: usize = 0;
    while k < l.len() && l[k].0 < z
        invariant
            k <= l@.len(),
            v == l@,
            layer_slot(v, z) == k + layer_slot(v.skip(k as int), z),
        decreases l.len() - k,
    {
        assert(v.skip(k as int)[0] == v[k as int]);
        assert(v.skip(k as int).skip(1) == v.skip(k + 1));
        k = k + 1;
    }
    if k < l.len() {
        assert(v.skip(k as int)[0] == v[k as int]);
    }
    l.insert(k, (z, num(ZERO) + t));
}

/// What a run of moves amounts to.
#[derive(Clone, Debug)]
pub struct EstimationSequence {
    pub duration: DurationEstimate,
    pub total_distance: Double,
    pub total_extrude_distance: Double,
    pub max_flow: Option<Double>,
    pub max_speed: Option<Double>,
    pub num_moves: u64,
    pub total_z_time: Double,
    pub total_output_time: Double,
    pub total_travel_time: Double,
    pub total_extrude_only_time: Double,
    pub extruders: Table<ExtruderEstimation>,
    pub phase_times: EstimationPhaseTimes,
    pub kind_times: Table<Double>,
    pub layer_times: Vec<(Double, Double)>,
}

#[verifier::ext_equal]
pub struct RunView {
    pub duration: EstimateView,
    pub total_distance: Double,
    pub total_extrude_distance: Double,
    pub max_flow: Option<Double>,
    pub max_speed: Option<Double>,
    pub num_moves: u64,
    pub total_z_time: Double,
    pub total_output_time: Double,
    pub total_travel_time: Double,
    pub total_extrude_only_time: Double,
    pub extruders: Seq<(Seq<char>, ExtruderEstimation)>,
    pub phase_times: EstimationPhaseTimes,
    pub kind_times: Times,
    pub layer_times: LayerTimes,
}

impl View for EstimationSequence {
    type V = RunView;

    open spec fn view(&self) -> RunView {
        RunView {
            duration: self.duration@,
            total_distance: self.total_distance,
            total_extrude_distance: self.total_extrude_distance,
            max_flow: self.max_flow,
            max_speed: self.max_speed,
            num_moves: self.num_moves,
            total_z_time: self.total_z_time,
            total_output_time: self.total_output_time,
            total_travel_time: self.total_travel_time,
            total_extrude_only_time: self.total_extrude_only_time,
            extruders: self.extruders@,
            phase_times: self.phase_times,
            kind_times: self.kind_times@,
            layer_times: self.layer_times@,
        }
    }
}

/// The larger of a value and what was largest so far.
#[verifier::allow_in_spec]
pub fn largest(known: Option<Double>, value: Double) -> Option<Double>
    returns
        Some(
            (match known {
                Some(k) => k,
                None => num(ZERO),
            }).max(value),
        ),
{
    Some(
        (match known {
            Some(k) => k,
            None => num(ZERO),
        }).max(value),
    )
}

/// One move more.
#[verifier::allow_in_spec]
pub fn one_more(n: u64) -> u64
    returns
        (if n < u64::MAX {
            (n + 1) as u64
        } else {
            n
        }),
{
    if n < u64::MAX {
        n + 1
    } else {
        n
    }
}

/// A height in whole micrometres.
#[verifier::allow_in_spec]
pub fn layer_height(z: Double) -> Double
    returns
        (z * num(THOUSAND)).round() / num(THOUSAND),
{
    (z * num(THOUSAND)).round() / num(THOUSAND)
}

/// The name of a move's kind.
pub open spec fn kind_name(p: PlannerView, m: PlanningMove) -> Seq<char> {
    match p.kinds.name_of(m.kind) {
        Some(name) => name,
        None => "Other"@,
    }
}

/// The name of a move's extruder.
pub open spec fn tool_name(p: PlannerView, m: PlanningMove) -> Seq<char> {
    match OperationsView::tool_of(m, p.toolhead.limits) {
        Some((name, _)) => name,
        None => "unconfigured"@,
    }
}

/// The filament radius of a move's extruder.
pub open spec fn tool_radius(p: PlannerView, m: PlanningMove) -> Double {
    match OperationsView::tool_of(m, p.toolhead.limits) {
        Some((_, limits)) => limits.filament_diameter * num(crate::constants::HALF),
        None => num(FILAMENT_RADIUS),
    }
}

impl RunView {
    pub open spec fn empty() -> RunView {
        RunView {
            duration: EstimateView::empty(),
            total_distance: num(ZERO),
            total_extrude_distance: num(ZERO),
            max_flow: None,
            max_speed: None,
            num_moves: 0,
            total_z_time: num(ZERO),
            total_output_time: num(ZERO),
            total_travel_time: num(ZERO),
            total_extrude_only_time: num(ZERO),
            extruders: Seq::empty(),
            phase_times: EstimationPhaseTimes::none(),
            kind_times: Seq::empty(),
            layer_times: Seq::empty(),
        }
    }

    /// The run with the filament of a move.
    pub open spec fn with_filament(self, tool: Seq<char>, m: PlanningMove) -> RunView {
        let delta = m.end.w - m.start.w;
        let known = match lookup(self.extruders, tool) {
            Some(x) => x,
            None => ExtruderEstimation::none(),
        };
        RunView {
            total_extrude_distance: self.total_extrude_distance + delta,
            extruders: if m.is_extrude_move() {
                inserted(self.extruders, tool, known.plus(delta))
            } else {
                self.extruders
            },
            ..self
        }
    }

    /// The run with the time of a move under what the move does.
    pub open spec fn with_purpose(self, radius: Double, m: PlanningMove) -> RunView {
        let t = m.total_time();
        if m.is_extrude_move() && m.is_kinematic_move() {
            RunView {
                total_output_time: self.total_output_time + t,
                max_flow: match m.flow_rate(radius) {
                    Some(flow) => largest(self.max_flow, flow),
                    None => self.max_flow,
                },
                ..self
            }
        } else if m.is_extrude_move() {
            RunView { total_extrude_only_time: self.total_extrude_only_time + t, ..self }
        } else if m.is_kinematic_move() {
            RunView { total_travel_time: self.total_travel_time + t, ..self }
        } else {
            self
        }
    }

    /// The run with the time of a move at its height, or between heights.
    pub open spec fn with_height(self, m: PlanningMove) -> RunView {
        let t = m.total_time();
        if (m.start.z - m.end.z).abs() < num(EPSILON) {
            RunView {
                layer_times: with_layer(self.layer_times, layer_height(m.start.z), t),
                ..self
            }
        } else {
            RunView { total_z_time: self.total_z_time + t, ..self }
        }
    }

    /// The run with a move.
    pub open spec fn with_move(self, p: PlannerView, m: PlanningMove) -> RunView {
        let a = RunView {
            duration: self.duration.with_move(m.total_time()),
            total_distance: self.total_distance + m.distance,
            ..self
        };
        let b = a.with_filament(tool_name(p, m), m);
        let c = RunView {
            num_moves: one_more(b.num_moves),
            max_speed: largest(b.max_speed, m.cruise_v),
            ..b
        }.with_purpose(tool_radius(p, m), m);
        RunView {
            phase_times: c.phase_times.plus(&m),
            kind_times: with_time(c.kind_times, kind_name(p, m), m.total_time()),
            ..c
        }.with_height(m)
    }

    /// The run with a pause.
    pub open spec fn with_dwell(self, t: Double) -> RunView {
        RunView {
            duration: self.duration.with_deterministic("dwell"@, t),
            kind_times: with_time(self.kind_times, "Dwell"@, t),
            ..self
        }
    }

    /// The run with a delay that counts in its duration alone.
    pub open spec fn with_delay(self, p: PlannerView, d: Delay<Seq<char>>) -> RunView {
        RunView {
            duration: self.duration.with_operation(p.kinds, PlanningOperation::Delay(d)),
            ..self
        }
    }
}

impl EstimationSequence {
    pub fn new() -> (r: EstimationSequence)
        ensures
            r@ == RunView::empty(),
    {
        EstimationSequence {
            duration: DurationEstimate::default(),
            total_distance: num(ZERO),
            total_extrude_distance: num(ZERO),
            max_flow: None,
            max_speed: None,
            num_moves: 0,
            total_z_time: num(ZERO),
            total_output_time: num(ZERO),
            total_travel_time: num(ZERO),
            total_extrude_only_time: num(ZERO),
            extruders: Table::new(),
            phase_times: EstimationPhaseTimes::none(),
            kind_times: Table::new(),
            layer_times: Vec::new(),
        }
    }

    fn add_filament(&mut self, tool: &str, m: &PlanningMove)
        ensures
            final(self)@ == old(self)@.with_filament(tool@, *m),
    {
        let delta: Double = m.end.w - m.start.w;
        self.total_extrude_distance = self.total_extrude_distance + delta;
        if m.is_extrude_move() {
            let known: ExtruderEstimation = match self.extruders.get(tool) {
                Some(x) => *x,
                None => ExtruderEstimation::none(),
            };
            self.extruders.insert(tool, known.plus(delta));
        }
    }

    fn add_purpose(&mut self, radius: Double, m: &PlanningMove)
        ensures
            final(self)@ == old(self)@.with_purpose(radius, *m),
    {
        let t: Double = m.total_time();
        if m.is_extrude_move() {
            if m.is_kinematic_move() {
                self.total_output_time = self.total_output_time + t;
                if let Some(flow) = m.flow_rate(radius) {
                    self.max_flow = largest(self.max_flow, flow);
                }
            } else {
                self.total_extrude_only_time = self.total_extrude_only_time + t;
            }
        } else if m.is_kinematic_move() {
            self.total_travel_time = self.total_travel_time + t;
        }
    }

    fn add_height(&mut self, m: &PlanningMove)
        ensures
            final(self)@ == old(self)@.with_height(*m),
    {
        let t: Double = m.total_time();
        if (m.start.z - m.end.z).abs() < num(EPSILON) {
            add_layer(&mut self.layer_times, layer_height(m.start.z), t);
        } else {
            self.total_z_time = self.total_z_time + t;
        }
    }

    fn add_move(&mut self, planner: &Planner, m: &PlanningMove)
        ensures
            final(self)@ == old(self)@.with_move(planner@, *m),
    {
        self.duration.add_operation(planner, &PlanningOperation::Move(*m));
        self.total_distance = self.total_distance + m.distance;
        let tool: &str = match planner.move_extruder_name(m) {
            Some(name) => name,
            None => "unconfigured",
        };
        self.add_filament(tool, m);
        self.num_moves = one_more(self.num_moves);
        self.max_speed = largest(self.max_speed, m.cruise_v);
        let radius: Double = match planner.move_filament_radius(m) {
            Some(r) => r,
            None => num(FILAMENT_RADIUS),
        };
        self.add_purpose(radius, m);
        self.phase_times = self.phase_times.plus(m);
        let kind: &str = match planner.move_kind_str(m) {
            Some(name) => name,
            None => "Other",
        };
        add_time(&mut self.kind_times, kind, m.total_time());
        self.add_height(m);
    }
}

/// How far an estimate can be relied on.
#[derive(Clone, Copy, Debug, PartialEq, Eq, Structural)]
pub enum EstimateAccuracyClass {
    Complete,
    Degraded,
    LowerBound,
}

/// What an estimate was made with.
#[derive(Clone, Debug)]
pub struct EstimationMetadata<S = String> {
    pub estimator_version: S,
    pub klipper_version: Option<S>,
    pub configuration_fingerprint: S,
    pub backend: S,
    pub accuracy_class: EstimateAccuracyClass,
}

impl View for EstimationMetadata {
    type V = EstimationMetadata<Seq<char>>;

    open spec fn view(&self) -> EstimationMetadata<Seq<char>> {
        EstimationMetadata {
            estimator_version: self.estimator_version@,
            klipper_version: viewed(self.klipper_version),
            configuration_fingerprint: self.configuration_fingerprint@,
            backend: self.backend@,
            accuracy_class: self.accuracy_class,
        }
    }
}

impl EstimationMetadata {
    pub fn from_snapshot(snapshot: &ConfigSnapshot, version: &str) -> (r: EstimationMetadata)
        ensures
            r@ == (EstimationMetadata {
                estimator_version: version@,
                klipper_version: viewed(snapshot.klipper_version),
                configuration_fingerprint: snapshot.fingerprint@,
                backend: backend_text(snapshot.limits.kinematics),
                accuracy_class: match snapshot.accuracy {
                    SnapshotAccuracy::Complete => EstimateAccuracyClass::Complete,
                    SnapshotAccuracy::Degraded => EstimateAccuracyClass::Degraded,
                },
            }),
    {
        EstimationMetadata {
            estimator_version: version.to_owned(),
            klipper_version: match &snapshot.klipper_version {
                Some(t) => Some(t.clone()),
                None => None,
            },
            configuration_fingerprint: snapshot.fingerprint.clone(),
            backend: snapshot.limits.kinematics.backend_name().to_owned(),
            accuracy_class: match snapshot.accuracy {
                SnapshotAccuracy::Complete => EstimateAccuracyClass::Complete,
                SnapshotAccuracy::Degraded => EstimateAccuracyClass::Degraded,
            },
        }
    }
}

/// An estimate in the making.
#[derive(Clone, Debug)]
pub struct EstimationState {
    pub metadata: EstimationMetadata,
    pub duration: DurationEstimate,
    pub sequences: Vec<EstimationSequence>,
    pub diagnostics: Vec<PlannerDiagnostic>,
}

#[verifier::ext_equal]
pub struct StateView {
    pub metadata: EstimationMetadata<Seq<char>>,
    pub duration: EstimateView,
    pub runs: Seq<RunView>,
    pub diagnostics: Seq<PlannerDiagnostic<Seq<char>>>,
}

pub open spec fn runs_of(v: Seq<EstimationSequence>) -> Seq<RunView> {
    Seq::new(v.len(), |i: int| v[i]@)
}

impl View for EstimationState {
    type V = StateView;

    open spec fn view(&self) -> StateView {
        StateView {
            metadata: self.metadata@,
            duration: self.duration@,
            runs: runs_of(self.sequences@),
            diagnostics: reported(self.diagnostics@),
        }
    }
}

impl StateView {
    /// The state with a run that things can be added to.
    pub open spec fn begun(self) -> StateView {
        if self.runs.len() == 0 {
            StateView { runs: self.runs.push(RunView::empty()), ..self }
        } else {
            self
        }
    }

    /// The state with a run that has no moves yet.
    pub open spec fn restarted(self) -> StateView {
        if self.runs.len() == 0 || self.runs.last().num_moves != 0 {
            StateView { runs: self.runs.push(RunView::empty()), ..self }
        } else {
            self
        }
    }

    /// The state with its last run replaced.
    pub open spec fn with_last(self, run: RunView) -> StateView {
        StateView { runs: self.runs.drop_last().push(run), ..self }
    }

    /// The state with an operation in its runs.
    pub open spec fn with_run_operation(self, p: PlannerView, op: PlanningOperation<Seq<char>>) -> StateView {
        match op {
            PlanningOperation::Move(m) => {
                let s = self.begun();
                s.with_last(s.runs.last().with_move(p, m))
            },
            PlanningOperation::Delay(Delay::Dwell(t)) => {
                let s = self.begun();
                s.with_last(s.runs.last().with_dwell(t.as_secs()))
            },
            PlanningOperation::Delay(Delay::Contract { duration, command, category }) => {
                let s = self.begun();
                s.with_last(
                    s.runs.last().with_delay(p, Delay::Contract { duration, command, category }),
                )
            },
            PlanningOperation::Delay(Delay::EstimatorAddition { duration, kind }) => {
                let s = self.restarted();
                let name = match p.kinds.name_of(kind) {
                    Some(name) => name,
                    None => "Other"@,
                };
                let run = s.runs.last().with_delay(p, Delay::EstimatorAddition { duration, kind });
                s.with_last(
                    RunView {
                        kind_times: with_time(run.kind_times, name, duration.as_secs()),
                        ..run
                    },
                )
            },
            PlanningOperation::Delay(Delay::Unknown { command, category }) => {
                let s = self.restarted();
                s.with_last(s.runs.last().with_delay(p, Delay::Unknown { command, category }))
            },
            PlanningOperation::Fill => self,
        }
    }

    /// The state with an operation.
    pub open spec fn with_operation(self, p: PlannerView, op: PlanningOperation<Seq<char>>) -> StateView {
        StateView { duration: self.duration.with_operation(p.kinds, op), ..self }
            .with_run_operation(p, op)
    }

    /// The state at the end: with anything reported or left out, it is a lower bound.
    pub open spec fn concluded(self) -> StateView {
        if self.diagnostics.len() > 0 || self.duration.omitted.len() > 0 {
            StateView {
                metadata: EstimationMetadata {
                    accuracy_class: EstimateAccuracyClass::LowerBound,
                    ..self.metadata
                },
                ..self
            }
        } else {
            self
        }
    }
}

impl EstimationState {
    pub fn new(metadata: EstimationMetadata) -> (r: EstimationState)
        ensures
            r@ == (StateView {
                metadata: metadata@,
                duration: EstimateView::empty(),
                runs: Seq::empty(),
                diagnostics: Seq::empty(),
            }),
    {
        let r = EstimationState {
            metadata,
            duration: DurationEstimate::default(),
            sequences: Vec::new(),
            diagnostics: Vec::new(),
        };
        assert(r@.runs == Seq::<RunView>::empty());
        assert(r@.diagnostics == Seq::<PlannerDiagnostic<Seq<char>>>::empty());
        r
    }

    fn start_run(&mut self)
        ensures
            final(self)@ == (StateView { runs: old(self)@.runs.push(RunView::empty()), ..old(self)@ }),
    {
        let ghost before = self.sequences@;
        let run: EstimationSequence = EstimationSequence::new();
        self.sequences.push(run);
        assert(runs_of(self.sequences@) == runs_of(before).push(RunView::empty()));
    }

    fn begin(&mut self)
        ensures
            final(self)@ == old(self)@.begun(),
    {
        if self.sequences.len() == 0 {
            self.start_run();
        }
    }

    fn restart(&mut self)
        ensures
            final(self)@ == old(self)@.restarted(),
    {
        let n: usize = self.sequences.len();
        if n == 0 {
            self.start_run();
        } else {
            assert(self@.runs.last() == self.sequences@[n - 1]@);
            if self.sequences[n - 1].num_moves != 0 {
                self.start_run();
            }
        }
    }

    fn take_last(&mut self) -> (r: EstimationSequence)
        requires
            old(self)@.runs.len() > 0,
        ensures
            r@ == old(self)@.runs.last(),
            final(self)@ == (StateView { runs: old(self)@.runs.drop_last(), ..old(self)@ }),
    {
        let ghost before = self@;
        let ghost raw = self.sequences@;
        match self.sequences.pop() {
            Some(run) => {
                assert(self@.runs == before.runs.drop_last());
                run
            },
            None => EstimationSequence::new(),
        }
    }

    fn put_last(&mut self, run: EstimationSequence)
        ensures
            final(self)@ == (StateView { runs: old(self)@.runs.push(run@), ..old(self)@ }),
    {
        let ghost before = self@;
        let ghost r = run@;
        self.sequences.push(run);
        assert(self@.runs == before.runs.push(r));
    }

    fn add_to_runs(&mut self, planner: &Planner, op: &PlanningOperation)
        ensures
            final(self)@ == old(self)@.with_run_operation(planner@, op@),
    {
        match op {
            PlanningOperation::Move(m) => {
                self.begin();
                let mut run: EstimationSequence = self.take_last();
                run.add_move(planner, m);
                self.put_last(run);
            },
            PlanningOperation::Delay(Delay::Dwell(t)) => {
                self.begin();
                let mut run: EstimationSequence = self.take_last();
                run.duration.add_deterministic("dwell", t.as_secs());
                add_time(&mut run.kind_times, "Dwell", t.as_secs());
                self.put_last(run);
            },
            PlanningOperation::Delay(Delay::Contract { .. }) => {
                self.begin();
                let mut run: EstimationSequence = self.take_last();
                run.duration.add_operation(planner, op);
                self.put_last(run);
            },
            PlanningOperation::Delay(Delay::EstimatorAddition { duration, kind }) => {
                self.restart();
                let mut run: EstimationSequence = self.take_last();
                run.duration.add_operation(planner, op);
                let name: &str = match planner.kind_str(*kind) {
                    Some(name) => name,
                    None => "Other",
                };
                add_time(&mut run.kind_times, name, duration.as_secs());
                self.put_last(run);
            },
            PlanningOperation::Delay(Delay::Unknown { .. }) => {
                self.restart();
                let mut run: EstimationSequence = self.take_last();
                run.duration.add_operation(planner, op);
                self.put_last(run);
            },
            PlanningOperation::Fill => {},
        }
    }

    /// Adds an operation.
    pub fn add_operation(&mut self, planner: &Planner, op: &PlanningOperation)
        ensures
            final(self)@ == old(self)@.with_operation(planner@, op@),
    {
        self.duration.add_operation(planner, op);
        self.add_to_runs(planner, op);
    }

    /// Concludes the estimate: with anything reported or left out, it is a lower bound.
    pub fn finalize_accuracy_class(&mut self)
        ensures
            final(self)@ == old(self)@.concluded(),
    {
        if self.diagnostics.len() > 0 || self.duration.omitted_duration_components.len() > 0 {
            self.metadata.accuracy_class = EstimateAccuracyClass::LowerBound;
        }
    }
}

/// An estimate that leaves something out is never shown as complete.
pub proof fn omissions_make_a_lower_bound(v: StateView)
    ensures
        v.concluded().metadata.accuracy_class != EstimateAccuracyClass::LowerBound
            ==> v.duration.omitted.len() == 0 && v.diagnostics.len() == 0,
{
}

/// The number of moves in all runs.
pub open spec fn moves_in(runs: Seq<RunView>) -> nat
    decreases runs.len(),
{
    if runs.len() == 0 {
        0
    } else {
        moves_in(runs.drop_last()) + runs.last().num_moves as nat
    }
}

proof fn lemma_moves_pushed(runs: Seq<RunView>, run: RunView)
    ensures
        moves_in(runs.push(run)) == moves_in(runs) + run.num_moves,
{
    assert(runs.push(run).drop_last() == runs);
}

/// Every move is counted once, in the last run; the runs before it never change again.
pub proof fn moves_are_counted_once(v: StateView, p: PlannerView, op: PlanningOperation<Seq<char>>)
    requires
        moves_in(v.runs) < u64::MAX,
    ensures
        moves_in(v.with_operation(p, op).runs) == moves_in(v.runs) + if op is Move {
            1int
        } else {
            0
        },
        v.runs.len() <= v.with_operation(p, op).runs.len() <= v.runs.len() + 1,
        v.runs.len() > 0 ==> v.with_operation(p, op).runs.take(v.runs.len() - 1)
            == v.runs.drop_last(),
{
    let w = v.with_operation(p, op);
    lemma_moves_pushed(v.runs, RunView::empty());
    if v.runs.len() > 0 {
        assert(v.runs.drop_last().push(v.runs.last()) == v.runs);
        lemma_moves_pushed(v.runs.drop_last(), v.runs.last());
    }
    if w.runs.len() > 0 {
        lemma_moves_pushed(w.runs.drop_last(), w.runs.last());
        assert(w.runs.drop_last().push(w.runs.last()) == w.runs);
        if w.runs.len() == v.runs.len() {
            assert(w.runs.drop_last() == v.runs.drop_last());
        } else {
            assert(w.runs.drop_last() == v.runs);
        }
        if v.runs.len() > 0 {
            assert(w.runs.take(v.runs.len() - 1) == v.runs.drop_last());
        }
    }
}

/// Retractions count as such alone, and so does filament that is pushed out.
pub proof fn filament_keeps_its_sign(e: ExtruderEstimation, delta: Double)
    ensures
        delta < num(ZERO) ==> e.plus(delta).extruded_distance == e.extruded_distance,
        delta > num(ZERO) ==> e.plus(delta).retracted_distance == e.retracted_distance,
        e.plus(delta).net_distance == e.net_distance + delta,
{
}

/// The part of a time in whole units, if there is more than one unit, and the rest.
pub open spec fn unit_part(t: Double, unit: u64, mark: Seq<char>) -> (Seq<char>, Double) {
    if t > num(unit) {
        (fixed((t / num(unit)).floor(), 0) + mark, t.rem(num(unit)))
    } else {
        (Seq::empty(), t)
    }
}

/// A time in days, hours, minutes and seconds.
pub open spec fn time_text(seconds: Double) -> Seq<char> {
    let (d, a) = unit_part(seconds, DAY, "d"@);
    let (h, b) = unit_part(a, HOUR, "h"@);
    let (m, c) = unit_part(b, MINUTE, "m"@);
    let s = if c > num(ZERO) {
        fixed(c, 3) + "s"@
    } else {
        Seq::empty()
    };
    let all = d + h + m + s;
    if all.len() == 0 {
        "0s"@
    } else {
        all
    }
}

fn add_unit(out: &mut String, t: Double, unit: u64, mark: &str) -> (r: Double)
    ensures
        ({
            let (part, rest) = unit_part(t, unit, mark@);
            final(out)@ == old(out)@ + part && r == rest
        }),
{
    let ghost before = out@;
    if t > num(unit) {
        out.append(format_fixed((t / num(unit)).floor(), 0).as_str());
        out.append(mark);
        assert(out@ == before + (fixed((t / num(unit)).floor(), 0) + mark@));
        t.rem(num(unit))
    } else {
        assert(before + Seq::<char>::empty() == before);
        t
    }
}

/// A time in days, hours, minutes and seconds.
pub fn format_time(seconds: Double) -> (r: String)
    ensures
        r@ == time_text(seconds),
{
    let mut out: String = String::new();
    let a: Double = add_unit(&mut out, seconds, DAY, "d");
    let b: Double = add_unit(&mut out, a, HOUR, "h");
    let c: Double = add_unit(&mut out, b, MINUTE, "m");
    let ghost before = out@;
    if c > num(ZERO) {
        out.append(format_fixed(c, 3).as_str());
        out.append("s");
        assert(out@ == before + (fixed(c, 3) + "s"@));
    } else {
        assert(before + Seq::<char>::empty() == before);
    }
    proof {
        let (d, x) = unit_part(seconds, DAY, "d"@);
        assert(Seq::<char>::empty() + d == d);
    }
    if out.as_str().unicode_len() == 0 {
        return "0s".to_owned();
    }
    out
}

} // verus!
