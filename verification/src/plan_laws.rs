//! How queued moves are planned together.

use vstd::prelude::*;

use crate::constants::HALF;
use crate::corner_laws::within;
use crate::double::num;
use crate::double::Double;
use crate::double::ZERO;
use crate::limit_laws::smaller_of;
use crate::limits::PrinterLimits;
use crate::lookahead::cruise_at;
use crate::lookahead::junction_at;
use crate::lookahead::pass_at;
use crate::lookahead::planned_at;
use crate::lookahead::SequenceOperation;
use crate::lookahead::SequenceView;
use crate::planning_move::PlanningMove;
use crate::toolhead::ToolheadView;

verus! {

/// The square of the speed at which the move at an index starts, before its cruise speed is known;
/// behind the last move, everything rests.
pub open spec fn start_of(moves: Seq<PlanningMove>, i: int, lazy: bool) -> Double {
    if i < moves.len() {
        junction_at(moves, i, lazy).start_v2
    } else {
        num(ZERO)
    }
}

/// Every move starts as fast as its junction allows and as it can slow down from until the move
/// behind it starts, and ends at the speed at which that one starts. The last one ends at rest.
pub proof fn moves_start_as_fast_as_they_can_slow_down(
    moves: Seq<PlanningMove>,
    i: int,
    lazy: bool,
)
    requires
        0 <= i < moves.len(),
        !moves[i].max_start_v2.nan(),
    ensures
        smaller_of(
            start_of(moves, i, lazy),
            moves[i].max_start_v2,
            start_of(moves, i + 1, lazy) + moves[i].delta_v2,
        ),
        junction_at(moves, i, lazy).end_v2 == start_of(moves, i + 1, lazy),
{
}

/// As before, for the acceleration that is left for moves that only speed up and slow down.
pub open spec fn short_start_of(moves: Seq<PlanningMove>, i: int) -> Double
    decreases moves.len() - i,
{
    if i < moves.len() {
        let reach = short_start_of(moves, i + 1) + moves[i].mcr_delta_v2;
        if moves[i].max_mcr_start_v2.nan() || reach < moves[i].max_mcr_start_v2 {
            reach
        } else {
            moves[i].max_mcr_start_v2
        }
    } else {
        num(ZERO)
    }
}

/// Whether a move starts slower than it could slow down from: it is where a run of moves that slow
/// down begins.
pub open spec fn slows_down_from(moves: Seq<PlanningMove>, i: int) -> bool {
    short_start_of(moves, i) < short_start_of(moves, i + 1) + moves[i].mcr_delta_v2
}

/// The square of the speed that is reached between speeding up from the start of a move and
/// slowing down to its end, with the acceleration for short moves.
pub open spec fn short_peak_of(moves: Seq<PlanningMove>, i: int) -> Double {
    (short_start_of(moves, i) + (short_start_of(moves, i + 1) + moves[i].mcr_delta_v2)) * num(HALF)
}

proof fn lemma_short_starts(moves: Seq<PlanningMove>, i: int, lazy: bool)
    requires
        0 <= i,
    ensures
        pass_at(moves, i, lazy).next_mcr_start_v2 == short_start_of(moves, i),
        pass_at(moves, i, lazy).next_start_v2 == start_of(moves, i, lazy),
    decreases moves.len() - i,
{
    if i < moves.len() {
        lemma_short_starts(moves, i + 1, lazy);
    }
}

/// The peak that a pass has come upon belongs to a move from which moves slow down.
proof fn lemma_peak(moves: Seq<PlanningMove>, i: int, lazy: bool)
    requires
        0 <= i,
    ensures
        ({
            let peak = pass_at(moves, i, lazy).peak_cruise_v2;
            ||| peak == num(ZERO) && forall|k: int|
                i <= k < moves.len() && #[trigger] slows_down_from(moves, k) ==> !(short_start_of(
                    moves,
                    k,
                ) + moves[k].mcr_delta_v2 > short_start_of(moves, k + 1))
            ||| exists|k: int|
                i <= k < moves.len() && #[trigger] slows_down_from(moves, k) && peak
                    == short_peak_of(moves, k)
        }),
    decreases moves.len() - i,
{
    if i < moves.len() {
        lemma_peak(moves, i + 1, lazy);
        lemma_short_starts(moves, i, lazy);
        lemma_short_starts(moves, i + 1, lazy);
        let p = pass_at(moves, i + 1, lazy);
        assert(p.bounded(moves[i]) == slows_down_from(moves, i));
        if p.peaks(moves[i]) {
            assert(slows_down_from(moves, i) && p.next_peak(moves[i]) == short_peak_of(moves, i));
        }
    }
}

/// Whether a number is the smallest one of three bounds.
pub open spec fn smallest_of(c: Double, reach: Double, limit: Double, peak: Double) -> bool {
    &&& within(c, reach)
    &&& c <= limit
    &&& within(c, peak)
    &&& c == reach || c == limit || c == peak
}

/// The square of the speed that is reached between speeding up from the start of a move and
/// slowing down to its end.
pub open spec fn reach_of(moves: Seq<PlanningMove>, i: int, lazy: bool) -> Double {
    (start_of(moves, i, lazy) + (start_of(moves, i + 1, lazy) + moves[i].delta_v2)) * num(HALF)
}

/// A move from which moves slow down cruises as fast as it may, as it can reach from its start
/// and slow down from to its end, and as the peak of its run allows. That peak is its own if it
/// could also speed up past its end. Any other move goes on as the one before it, no faster than
/// it starts.
pub proof fn moves_cruise_as_fast_as_they_may(moves: Seq<PlanningMove>, i: int, lazy: bool)
    requires
        0 <= i < moves.len(),
        !moves[i].max_cruise_v2.nan(),
    ensures
        ({
            let c = cruise_at(moves, i, lazy);
            let s = start_of(moves, i, lazy);
            let reach = reach_of(moves, i, lazy);
            let limit = moves[i].max_cruise_v2;
            &&& slows_down_from(moves, i) && short_start_of(moves, i) + moves[i].mcr_delta_v2
                > short_start_of(moves, i + 1) ==> smallest_of(
                c,
                reach,
                limit,
                short_peak_of(moves, i),
            )
            &&& slows_down_from(moves, i) ==> smallest_of(c, reach, limit, num(ZERO)) || exists|
                k: int,
            |
                i <= k < moves.len() && #[trigger] slows_down_from(moves, k) && smallest_of(
                    c,
                    reach,
                    limit,
                    short_peak_of(moves, k),
                )
            &&& !slows_down_from(moves, i) && !s.nan() && i > 0 ==> c <= s && (c == s || c
                == cruise_at(moves, i - 1, lazy))
        }),
{
    lemma_short_starts(moves, i, lazy);
    lemma_short_starts(moves, i + 1, lazy);
    let p = pass_at(moves, i + 1, lazy);
    assert(p.bounded(moves[i]) == slows_down_from(moves, i));
    lemma_peak(moves, i, lazy);
    let peak = p.next_peak(moves[i]);
    assert(pass_at(moves, i, lazy).peak_cruise_v2 == peak);
    if slows_down_from(moves, i) {
        assert(smallest_of(
            cruise_at(moves, i, lazy),
            reach_of(moves, i, lazy),
            moves[i].max_cruise_v2,
            peak,
        ));
    }
}

/// The planned speeds are the roots of those squares, and no end of a move is faster than its
/// middle.
pub proof fn planned_speeds_are_the_roots(moves: Seq<PlanningMove>, i: int, lazy: bool)
    requires
        0 <= i < moves.len(),
        !cruise_at(moves, i, lazy).nan(),
        !start_of(moves, i, lazy).nan(),
        !start_of(moves, i + 1, lazy).nan(),
    ensures
        ({
            let m = planned_at(moves, i, lazy);
            let c = cruise_at(moves, i, lazy);
            let s = start_of(moves, i, lazy);
            let e = start_of(moves, i + 1, lazy);
            &&& m.cruise_v == c.sqrt()
            &&& m.start_v == if s <= c {
                s.sqrt()
            } else {
                c.sqrt()
            }
            &&& m.end_v == if e <= c {
                e.sqrt()
            } else {
                c.sqrt()
            }
            &&& m == PlanningMove {
                start_v: m.start_v,
                cruise_v: m.cruise_v,
                end_v: m.end_v,
                ..moves[i]
            }
        }),
{
    lemma_short_starts(moves, i + 1, lazy);
}

/// A move that is added to a queue comes last in it, joined to the last move that is not final;
/// one without length only keeps its place.
pub proof fn moves_queue_up_in_order(v: SequenceView, m: PlanningMove, limits: PrinterLimits)
    requires
        0 <= v.flush_count <= v.ops.len() < usize::MAX,
    ensures
        ({
            let r = v.with_move(m, limits);
            let last = r.ops.last();
            &&& r.ops.len() == v.ops.len() + 1
            &&& m.distance.magnitude() == 0 ==> last is Fill && r.ops.drop_last() == v.ops
            &&& m.distance.magnitude() > 0 ==> {
                &&& last is Move
                &&& v.pending().len() == 0 ==> last->Move_0 == m && r.ops.drop_last() == v.ops
                &&& v.pending().len() > 0 ==> {
                    let p = v.pending().last();
                    let j = m.joined(p, limits.extruder_junction(m, p));
                    last->Move_0 == PlanningMove {
                        start_v: last->Move_0.start_v,
                        cruise_v: last->Move_0.cruise_v,
                        end_v: last->Move_0.end_v,
                        ..j
                    }
                }
            }
        }),
{
    if !m.distance.equals(num(ZERO)) && v.pending().len() > 0 {
        let joined = v.connected(m, limits);
        let waiting = SequenceView {
            ops: v.ops.push(SequenceOperation::Move(joined)),
            junction_flush: v.junction_flush - joined.min_move_time(),
            ..v
        };
        crate::lookahead::planning_changes_speeds_only(waiting, true, waiting.ops.len() - 1);
    }
    assert(v.ops.push(SequenceOperation::Fill).drop_last() == v.ops);
    assert(v.ops.push(SequenceOperation::Move(m)).drop_last() == v.ops);
}

/// The physical moves of a logical one follow each other without a gap, from where the toolhead is
/// along the transformed path, at the requested velocity and under the same kind.
pub proof fn physical_moves_form_a_chain(t: ToolheadView, logical: PlanningMove, i: int)
    requires
        0 <= i < t.physical_moves(logical).len(),
    ensures
        ({
            let path = t.transforms.path(logical.start, logical.end);
            let start = if i > 0 {
                path[i - 1]
            } else if t.planner_has_moved {
                t.planner_position
            } else {
                t.transforms.transformed(logical.start)
            };
            let v = logical.requested_velocity;
            &&& t.physical_moves(logical).len() == path.len()
            &&& t.physical_moves(logical)[i] == t.checked(
                PlanningMove {
                    kind: logical.kind,
                    requested_velocity: v,
                    max_cruise_v2: v * v,
                    ..PlanningMove::new(start, path[i], t.settings_at(t.velocity))
                },
            )
        }),
{
}

} // verus!
