//! Durations by what they are spent on.

use vstd::prelude::*;

use crate::constants::QUARTER;
use crate::delay::Delay;
use crate::double::num;
use crate::double::Double;
use crate::double::ZERO;
use crate::kinds::KindView;
use crate::limits::DurationContractCategory;
use crate::limits::UnknownDurationCategory;
use crate::operations::PlanningOperation;
use crate::planner::Planner;
use crate::planning_move::Kind;
use crate::table::inserted;
use crate::table::lemma_lookup_inserted;
use crate::table::lookup;
use crate::table::Table;
use crate::text::same;

verus! {

/// A command whose duration is not part of an estimate.
#[derive(Clone, Debug)]
pub struct OmittedDurationComponent<S = String> {
    pub command: S,
    pub category: UnknownDurationCategory,
    pub reason: S,
}

impl View for OmittedDurationComponent {
    type V = OmittedDurationComponent<Seq<char>>;

    open spec fn view(&self) -> OmittedDurationComponent<Seq<char>> {
        OmittedDurationComponent {
            command: self.command@,
            category: self.category,
            reason: self.reason@,
        }
    }
}

impl OmittedDurationComponent {
    fn matches(&self, other: &OmittedDurationComponent) -> (r: bool)
        ensures
            r == (self@ == other@),
    {
        same(self.command.as_str(), other.command.as_str()) && self.category == other.category
            && same(self.reason.as_str(), other.reason.as_str())
    }
}

/// How long a print takes: moves, everything of known duration, and everything expected.
#[derive(Clone, Debug)]
pub struct DurationEstimate {
    pub motion_time: Double,
    pub deterministic_time: Double,
    pub expected_total_time: Double,
    /// The same as the expected total.
    pub total_time: Double,
    pub duration_components: Table<Double>,
    pub omitted_duration_components: Vec<OmittedDurationComponent>,
    /// Whether the next move starts from rest with an empty lookahead.
    pub needs_lookahead_flush: bool,
}

pub type Times = Seq<(Seq<char>, Double)>;

#[verifier::ext_equal]
pub struct EstimateView {
    pub motion: Double,
    pub deterministic: Double,
    pub expected: Double,
    pub total: Double,
    pub components: Times,
    pub omitted: Seq<OmittedDurationComponent<Seq<char>>>,
    pub needs_flush: bool,
}

pub open spec fn omissions(v: Seq<OmittedDurationComponent>) -> Seq<
    OmittedDurationComponent<Seq<char>>,
> {
    Seq::new(v.len(), |i: int| v[i]@)
}

impl View for DurationEstimate {
    type V = EstimateView;

    open spec fn view(&self) -> EstimateView {
        EstimateView {
            motion: self.motion_time,
            deterministic: self.deterministic_time,
            expected: self.expected_total_time,
            total: self.total_time,
            components: self.duration_components@,
            omitted: omissions(self.omitted_duration_components@),
            needs_flush: self.needs_lookahead_flush,
        }
    }
}

/// The time under a name, or none.
pub open spec fn time_of(t: Times, name: Seq<char>) -> Double {
    match lookup(t, name) {
        Some(x) => x,
        None => num(ZERO),
    }
}

/// The times with one increased.
pub open spec fn with_time(t: Times, name: Seq<char>, d: Double) -> Times {
    inserted(t, name, time_of(t, name) + d)
}

/// Increases a time.
pub fn add_time(t: &mut Table<Double>, name: &str, d: Double)
    ensures
        final(t)@ == with_time(old(t)@, name@, d),
        old(t).well_formed() ==> final(t).well_formed(),
{
    let known: Double = match t.get(name) {
        Some(x) => *x,
        None => num(ZERO),
    };
    t.insert(name, known + d);
}

/// Increasing a time leaves every other time alone.
pub proof fn times_are_separate(t: Times, name: Seq<char>, d: Double, other: Seq<char>)
    ensures
        time_of(with_time(t, name, d), other) == if other == name {
            time_of(t, name) + d
        } else {
            time_of(t, other)
        },
{
    lemma_lookup_inserted(t, name, time_of(t, name) + d, other);
}

/// The component of a declared duration.
pub open spec fn contract_component(category: DurationContractCategory) -> Seq<char> {
    match category {
        DurationContractCategory::Macro => "macro_contract"@,
        DurationContractCategory::Homing => "homing_model"@,
        DurationContractCategory::Probing => "probing_model"@,
        DurationContractCategory::Other => "command_contract"@,
    }
}

fn contract_category(category: DurationContractCategory) -> (r: &'static str)
    ensures
        r@ == contract_component(category),
{
    match category {
        DurationContractCategory::Macro => "macro_contract",
        DurationContractCategory::Homing => "homing_model",
        DurationContractCategory::Probing => "probing_model",
        DurationContractCategory::Other => "command_contract",
    }
}

/// The component of an added time.
pub open spec fn addition_component(kinds: KindView, kind: Option<Kind>) -> Seq<char> {
    match kinds.name_of(kind) {
        Some(name) => "estimator_addition:"@ + name,
        None => "estimator_addition"@,
    }
}

fn addition_category(planner: &Planner, kind: Option<Kind>) -> (r: String)
    ensures
        r@ == addition_component(planner.kind_tracker@, kind),
{
    match planner.kind_str(kind) {
        Some(name) => {
            let mut r: String = "estimator_addition:".to_owned();
            r.append(name);
            r
        },
        None => "estimator_addition".to_owned(),
    }
}

pub open spec fn omission(command: Seq<char>, category: UnknownDurationCategory) -> OmittedDurationComponent<
    Seq<char>,
> {
    OmittedDurationComponent {
        command,
        category,
        reason: "duration is unknown and was not included"@,
    }
}

impl EstimateView {
    pub open spec fn empty() -> EstimateView {
        EstimateView {
            motion: num(ZERO),
            deterministic: num(ZERO),
            expected: num(ZERO),
            total: num(ZERO),
            components: Seq::empty(),
            omitted: Seq::empty(),
            needs_flush: true,
        }
    }

    /// The estimate with a time that is certain.
    pub open spec fn with_deterministic(self, name: Seq<char>, d: Double) -> EstimateView {
        EstimateView {
            deterministic: self.deterministic + d,
            expected: self.expected + d,
            total: self.expected + d,
            components: with_time(self.components, name, d),
            ..self
        }
    }

    /// The estimate with a time that is expected.
    pub open spec fn with_expected(self, name: Seq<char>, d: Double) -> EstimateView {
        EstimateView {
            expected: self.expected + d,
            total: self.expected + d,
            components: with_time(self.components, name, d),
            ..self
        }
    }

    /// The estimate with a command whose duration is unknown; each is noted once.
    pub open spec fn with_omitted(self, o: OmittedDurationComponent<Seq<char>>) -> EstimateView {
        if self.omitted.contains(o) {
            self
        } else {
            EstimateView { omitted: self.omitted.push(o), ..self }
        }
    }

    pub open spec fn flushing(self) -> EstimateView {
        EstimateView { needs_flush: true, ..self }
    }

    /// The estimate with a move. The first move after an interruption waits for the lookahead.
    pub open spec fn with_move(self, d: Double) -> EstimateView {
        let ready = if self.needs_flush {
            EstimateView {
                needs_flush: false,
                ..self.with_deterministic("lookahead_flush"@, num(QUARTER))
            }
        } else {
            self
        };
        EstimateView { motion: ready.motion + d, ..ready }.with_deterministic("motion"@, d)
    }

    /// The estimate with an operation.
    pub open spec fn with_operation(self, kinds: KindView, op: PlanningOperation<Seq<char>>) -> EstimateView {
        match op {
            PlanningOperation::Move(m) => self.with_move(m.total_time()),
            PlanningOperation::Delay(Delay::Dwell(d)) => self.with_deterministic(
                "dwell"@,
                d.as_secs(),
            ),
            PlanningOperation::Delay(Delay::Contract { duration, category, .. }) =>
                self.with_deterministic(contract_component(category), duration.as_secs()).flushing(),
            PlanningOperation::Delay(Delay::EstimatorAddition { duration, kind }) =>
                self.with_expected(addition_component(kinds, kind), duration.as_secs()).flushing(),
            PlanningOperation::Delay(Delay::Unknown { command, category }) => self.with_omitted(
                omission(command, category),
            ).flushing(),
            PlanningOperation::Fill => self,
        }
    }
}

impl Default for DurationEstimate {
    fn default() -> (r: DurationEstimate)
        ensures
            r@ == EstimateView::empty(),
    {
        let r = DurationEstimate {
            motion_time: num(ZERO),
            deterministic_time: num(ZERO),
            expected_total_time: num(ZERO),
            total_time: num(ZERO),
            duration_components: Table::new(),
            omitted_duration_components: Vec::new(),
            needs_lookahead_flush: true,
        };
        assert(r@.omitted == Seq::<OmittedDurationComponent<Seq<char>>>::empty());
        r
    }
}

impl DurationEstimate {
    /// Adds an operation.
    pub fn add_operation(&mut self, planner: &Planner, operation: &PlanningOperation)
        ensures
            final(self)@ == old(self)@.with_operation(planner@.kinds, operation@),
    {
        match operation {
            PlanningOperation::Move(m) => self.add_move_time(m.total_time()),
            PlanningOperation::Delay(Delay::Dwell(d)) => self.add_deterministic(
                "dwell",
                d.as_secs(),
            ),
            PlanningOperation::Delay(Delay::Contract { duration, category, .. }) => {
                self.add_deterministic(contract_category(*category), duration.as_secs());
                self.needs_lookahead_flush = true;
            },
            PlanningOperation::Delay(Delay::EstimatorAddition { duration, kind }) => {
                let component: String = addition_category(planner, *kind);
                self.add_expected(component.as_str(), duration.as_secs());
                self.needs_lookahead_flush = true;
            },
            PlanningOperation::Delay(Delay::Unknown { command, category }) => {
                self.omit(command.as_str(), *category);
                self.needs_lookahead_flush = true;
            },
            PlanningOperation::Fill => {},
        }
    }

    fn add_move_time(&mut self, d: Double)
        ensures
            final(self)@ == old(self)@.with_move(d),
    {
        if self.needs_lookahead_flush {
            self.add_deterministic("lookahead_flush", num(QUARTER));
            self.needs_lookahead_flush = false;
        }
        self.motion_time = self.motion_time + d;
        self.add_deterministic("motion", d);
    }

    fn omit(&mut self, command: &str, category: UnknownDurationCategory)
        ensures
            final(self)@ == old(self)@.with_omitted(omission(command@, category)),
    {
        let omitted: OmittedDurationComponent = OmittedDurationComponent {
            command: command.to_owned(),
            category,
            reason: "duration is unknown and was not included".to_owned(),
        };
        let ghost v = self@;
        let mut i: usize = 0;
        while i < self.omitted_duration_components.len()
            invariant
                i <= self.omitted_duration_components@.len(),
                self@ == v,
                v == old(self)@,
                omitted@ == omission(command@, category),
                forall|k: int| 0 <= k < i ==> v.omitted[k] != omitted@,
            decreases self.omitted_duration_components.len() - i,
        {
            if self.omitted_duration_components[i].matches(&omitted) {
                assert(v.omitted[i as int] == omitted@);
                return;
            }
            i = i + 1;
        }
        let ghost o = omitted@;
        self.omitted_duration_components.push(omitted);
        assert(self@.omitted == v.omitted.push(o));
    }

    /// Adds a time that is certain.
    pub fn add_deterministic(&mut self, category: &str, duration: Double)
        ensures
            final(self)@ == old(self)@.with_deterministic(category@, duration),
    {
        self.deterministic_time = self.deterministic_time + duration;
        self.add_expected(category, duration);
    }

    /// Adds a time that is expected.
    pub fn add_expected(&mut self, category: &str, duration: Double)
        ensures
            final(self)@ == old(self)@.with_expected(category@, duration),
    {
        self.expected_total_time = self.expected_total_time + duration;
        self.total_time = self.expected_total_time;
        add_time(&mut self.duration_components, category, duration);
    }
}

/// The total is the expected total after any operation, if it was before.
pub proof fn total_is_expected(v: EstimateView, kinds: KindView, op: PlanningOperation<Seq<char>>)
    requires
        v.total == v.expected,
    ensures
        v.with_operation(kinds, op).total == v.with_operation(kinds, op).expected,
{
}

/// Certain and expected time differ only by added times: every other operation adds the same to
/// both.
pub proof fn only_additions_are_uncertain(
    v: EstimateView,
    kinds: KindView,
    op: PlanningOperation<Seq<char>>,
)
    requires
        v.deterministic == v.expected,
        !(op matches PlanningOperation::Delay(Delay::EstimatorAddition { .. })),
    ensures
        v.with_operation(kinds, op).deterministic == v.with_operation(kinds, op).expected,
{
}

/// No time is ever taken for an unknown duration, and none is lost without a note.
pub proof fn unknown_durations_are_noted(
    v: EstimateView,
    kinds: KindView,
    command: Seq<char>,
    category: UnknownDurationCategory,
)
    ensures
        ({
            let op = PlanningOperation::Delay(Delay::Unknown { command, category });
            let after = v.with_operation(kinds, op);
            after.expected == v.expected && after.deterministic == v.deterministic
                && after.components == v.components && after.omitted.contains(
                omission(command, category),
            )
        }),
{
    let o = omission(command, category);
    if !v.omitted.contains(o) {
        assert(v.omitted.push(o).last() == o);
    }
}

} // verus!
