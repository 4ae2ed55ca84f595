//! What delays add to an estimate.

use vstd::arithmetic::div_mod::lemma_fundamental_div_mod;
use vstd::arithmetic::power2::lemma_pow2_pos;
use vstd::prelude::*;

use crate::constants::BILLION;
use crate::delay::Delay;
use crate::delay::Duration;
use crate::double::num;
use crate::double::one_units;
use crate::double::units;
use crate::double::Double;
use crate::double::ZERO;
use crate::duration::time_of;
use crate::duration::times_are_separate;
use crate::duration::EstimateView;
use crate::estimate::RunView;
use crate::estimate::StateView;
use crate::limits::DurationContractCategory;
use crate::kinds::KindView;
use crate::operations::PlanningOperation;
use crate::planner::PlannerView;
use crate::progress_laws::lemma_half_even;

verus! {

/// A span of time holds its seconds to half a nanosecond.
pub proof fn spans_hold_their_seconds(seconds: Double)
    ensures
        Duration::of_seconds(seconds) matches Some(d) ==> {
            let held = (d.secs * 1_000_000_000 + d.nanos) * one_units();
            let meant = units(seconds.magnitude()) * 1_000_000_000;
            &&& d.nanos < 1_000_000_000
            &&& 2 * held <= 2 * meant + one_units()
            &&& 2 * held + one_units() >= 2 * meant
        },
        seconds < num(ZERO) ==> Duration::of_seconds(seconds) is None,
        !seconds.finite() ==> Duration::of_seconds(seconds) is None,
{
    lemma_pow2_pos(1074);
    let n = crate::delay::nanoseconds(seconds);
    lemma_half_even(units(seconds.magnitude()) * 1_000_000_000, one_units());
    lemma_fundamental_div_mod(n as int, 1_000_000_000);
    if Duration::of_seconds(seconds) is Some {
        let d = Duration::of_seconds(seconds)->0;
        assert(d.secs * 1_000_000_000 + d.nanos == n);
    }
}

/// Certain delays count as certain and as expected time, added ones as expected time only. Each
/// counts under its name, and moves after a delay that is not a pause wait for the lookahead.
pub proof fn delays_count_as_they_are_known(
    v: EstimateView,
    kinds: KindView,
    d: Delay<Seq<char>>,
    span: Duration,
)
    requires
        d matches Delay::Dwell(t) ==> t == span,
        d matches Delay::Contract { duration, .. } ==> duration == span,
        d matches Delay::EstimatorAddition { duration, .. } ==> duration == span,
        !(d is Unknown),
    ensures
        ({
            let r = v.with_operation(kinds, PlanningOperation::Delay(d));
            let t = Double::from_u64(span.secs) + Double::from_u64(span.nanos as u64) / num(
                BILLION,
            );
            let name = match d {
                Delay::Dwell(_) => "dwell"@,
                Delay::Contract { category, .. } => match category {
                    DurationContractCategory::Macro => "macro_contract"@,
                    DurationContractCategory::Homing => "homing_model"@,
                    DurationContractCategory::Probing => "probing_model"@,
                    DurationContractCategory::Other => "command_contract"@,
                },
                Delay::EstimatorAddition { kind, .. } => match kinds.name_of(kind) {
                    Some(kind) => "estimator_addition:"@ + kind,
                    None => "estimator_addition"@,
                },
                Delay::Unknown { .. } => Seq::empty(),
            };
            &&& r.expected == v.expected + t
            &&& r.total == v.expected + t
            &&& r.deterministic == if d is EstimatorAddition {
                v.deterministic
            } else {
                v.deterministic + t
            }
            &&& r.motion == v.motion
            &&& r.omitted == v.omitted
            &&& time_of(r.components, name) == time_of(v.components, name) + t
            &&& r.needs_flush == (v.needs_flush || !(d is Dwell))
        }),
{
    let t = span.as_secs();
    times_are_separate(v.components, "dwell"@, t, "dwell"@);
    match d {
        Delay::Contract { category, .. } => {
            let name = crate::duration::contract_component(category);
            times_are_separate(v.components, name, t, name);
        },
        Delay::EstimatorAddition { kind, .. } => {
            let name = crate::duration::addition_component(kinds, kind);
            times_are_separate(v.components, name, t, name);
        },
        _ => {},
    }
}

/// The run that an operation is added to: the last one, or a new one where there is none. Time
/// that is added, or not known, begins a new run after moves.
pub open spec fn run_for(s: StateView, d: Delay<Seq<char>>) -> RunView {
    if s.runs.len() == 0 {
        RunView::empty()
    } else if (d is EstimatorAddition || d is Unknown) && s.runs.last().num_moves != 0 {
        RunView::empty()
    } else {
        s.runs.last()
    }
}

/// A delay counts in the whole and in one run, which is the last, and leaves the others alone.
/// Pauses and added times count among the kinds of moves too.
pub proof fn delays_count_in_one_run(
    s: StateView,
    p: PlannerView,
    d: Delay<Seq<char>>,
    kind: Seq<char>,
)
    ensures
        ({
            let op = PlanningOperation::Delay(d);
            let r = s.with_operation(p, op);
            let before = run_for(s, d);
            let after = r.runs.last();
            &&& r.duration == s.duration.with_operation(p.kinds, op)
            &&& r.diagnostics == s.diagnostics
            &&& r.runs.len() > 0
            &&& r.runs.len() == s.runs.len() || r.runs.len() == s.runs.len() + 1
            &&& forall|i: int| 0 <= i < r.runs.len() - 1 ==> #[trigger] r.runs[i] == s.runs[i]
            &&& after.duration == before.duration.with_operation(p.kinds, op)
            &&& after.num_moves == before.num_moves
            &&& after.total_distance == before.total_distance
            &&& after.layer_times == before.layer_times
            &&& d matches Delay::Dwell(t) ==> time_of(after.kind_times, kind) == if kind
                == "Dwell"@ {
                time_of(before.kind_times, kind) + t.as_secs()
            } else {
                time_of(before.kind_times, kind)
            }
            &&& d matches Delay::EstimatorAddition { duration, kind: k } ==> time_of(
                after.kind_times,
                kind,
            ) == if kind == (match p.kinds.name_of(k) {
                Some(name) => name,
                None => "Other"@,
            }) {
                time_of(before.kind_times, kind) + duration.as_secs()
            } else {
                time_of(before.kind_times, kind)
            }
            &&& (d is Contract || d is Unknown) ==> after.kind_times == before.kind_times
        }),
{
    let before = run_for(s, d);
    match d {
        Delay::Dwell(t) => {
            times_are_separate(before.kind_times, "Dwell"@, t.as_secs(), kind);
        },
        Delay::EstimatorAddition { duration, kind: k } => {
            let name = match p.kinds.name_of(k) {
                Some(name) => name,
                None => "Other"@,
            };
            times_are_separate(before.kind_times, name, duration.as_secs(), kind);
        },
        _ => {},
    }
}

} // verus!
