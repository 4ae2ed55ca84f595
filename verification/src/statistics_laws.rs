//! How the statistics of a print add up.

use vstd::prelude::*;

use crate::constants::EPSILON;
use crate::constants::PI;
use crate::constants::QUARTER;
use crate::constants::THOUSAND;
use crate::double::num;
use crate::double::Double;
use crate::double::ZERO;
use crate::duration::times_are_separate;
use crate::duration::time_of;
use crate::duration::EstimateView;
use crate::estimate::kind_name;
use crate::estimate::layer_index;
use crate::estimate::layer_slot;
use crate::estimate::tool_name;
use crate::estimate::tool_radius;
use crate::estimate::with_layer;
use crate::estimate::LayerTimes;
use crate::estimate::RunView;
use crate::planner::PlannerView;
use crate::planning_move::PlanningMove;
use crate::table::lemma_lookup_inserted;
use crate::table::lookup;

verus! {

/// The time that is listed for a height, or none.
pub open spec fn time_at(l: LayerTimes, z: Double) -> Option<Double>
    decreases l.len(),
{
    if l.len() == 0 {
        None
    } else if l.last().0.equals(z) {
        Some(l.last().1)
    } else {
        time_at(l.drop_last(), z)
    }
}

/// Whether heights are listed once each, from the bottom up.
pub open spec fn rising(l: LayerTimes) -> bool {
    forall|i: int, j: int| 0 <= i < j < l.len() ==> (#[trigger] l[i]).0 < (#[trigger] l[j]).0
}

/// A listed time is that of the one entry with its height.
proof fn lemma_time_at(l: LayerTimes, z: Double, i: int)
    requires
        rising(l),
        0 <= i < l.len(),
        l[i].0.equals(z),
    ensures
        time_at(l, z) == Some(l[i].1),
    decreases l.len(),
{
    if i < l.len() - 1 {
        assert(l[i].0 < l[l.len() - 1].0);
        let rest = l.drop_last();
        assert forall|a: int, b: int| 0 <= a < b < rest.len() implies (#[trigger] rest[a]).0 < (
        #[trigger] rest[b]).0 by {
            assert(rest[a] == l[a] && rest[b] == l[b]);
        }
        lemma_time_at(rest, z, i);
    }
}

/// A height without an entry has no time.
proof fn lemma_no_time_at(l: LayerTimes, z: Double)
    requires
        forall|i: int| 0 <= i < l.len() ==> !(#[trigger] l[i]).0.equals(z),
    ensures
        time_at(l, z) is None,
    decreases l.len(),
{
    if l.len() > 0 {
        let rest = l.drop_last();
        assert forall|i: int| 0 <= i < rest.len() implies !(#[trigger] rest[i]).0.equals(z) by {
            assert(rest[i] == l[i]);
        }
        assert(!l[l.len() - 1].0.equals(z));
        lemma_no_time_at(rest, z);
    }
}

proof fn lemma_layer_index(l: LayerTimes, z: Double)
    ensures
        0 <= layer_index(l, z) <= l.len(),
        layer_index(l, z) < l.len() ==> l[layer_index(l, z)].0.equals(z),
        forall|i: int| 0 <= i < layer_index(l, z) ==> !(#[trigger] l[i]).0.equals(z),
    decreases l.len(),
{
    if l.len() > 0 && !l[0].0.equals(z) {
        lemma_layer_index(l.skip(1), z);
        let k = layer_index(l.skip(1), z);
        if k < l.len() - 1 {
            assert(l.skip(1)[k] == l[k + 1]);
        }
        assert forall|i: int| 0 <= i < k + 1 implies !(#[trigger] l[i]).0.equals(z) by {
            if i > 0 {
                assert(l.skip(1)[i - 1] == l[i]);
            }
        }
    }
}

proof fn lemma_layer_slot(l: LayerTimes, z: Double)
    ensures
        0 <= layer_slot(l, z) <= l.len(),
        layer_slot(l, z) < l.len() ==> !(l[layer_slot(l, z)].0 < z),
        forall|i: int| 0 <= i < layer_slot(l, z) ==> (#[trigger] l[i]).0 < z,
    decreases l.len(),
{
    if l.len() > 0 && l[0].0 < z {
        lemma_layer_slot(l.skip(1), z);
        let k = layer_slot(l.skip(1), z);
        if k < l.len() - 1 {
            assert(l.skip(1)[k] == l[k + 1]);
        }
        assert forall|i: int| 0 <= i < k + 1 implies (#[trigger] l[i]).0 < z by {
            if i > 0 {
                assert(l.skip(1)[i - 1] == l[i]);
            }
        }
    }
}

/// The height that a move stays at, in whole micrometres.
pub open spec fn height_of(m: PlanningMove) -> Double {
    (m.start.z * num(THOUSAND)).round() / num(THOUSAND)
}

/// Whether a move stays at its height.
pub open spec fn is_level(m: PlanningMove) -> bool {
    (m.start.z - m.end.z).abs() < num(EPSILON)
}

/// A known time, or zero.
pub open spec fn or_zero(t: Option<Double>) -> Double {
    match t {
        Some(x) => x,
        None => num(ZERO),
    }
}

proof fn lemma_with_layer(l: LayerTimes, z: Double, t: Double, y: Double)
    requires
        rising(l),
        !z.nan(),
        forall|i: int| 0 <= i < l.len() ==> !(#[trigger] l[i]).0.nan(),
    ensures
        rising(with_layer(l, z, t)),
        forall|i: int| 0 <= i < with_layer(l, z, t).len() ==> !(#[trigger] with_layer(l, z, t)[i]).0.nan(),
        time_at(with_layer(l, z, t), z) == Some(or_zero(time_at(l, z)) + t),
        !y.equals(z) ==> time_at(with_layer(l, z, t), y) == time_at(l, y),
{
    let r = with_layer(l, z, t);
    let i = layer_index(l, z);
    lemma_layer_index(l, z);
    lemma_layer_slot(l, z);
    if i < l.len() {
        assert(rising(r)) by {
            assert forall|a: int, b: int| 0 <= a < b < r.len() implies (#[trigger] r[a]).0 < (
            #[trigger] r[b]).0 by {
                assert(l[a].0 < l[b].0);
            }
        }
        assert forall|a: int| 0 <= a < r.len() implies !(#[trigger] r[a]).0.nan() by {
            assert(!l[a].0.nan());
        }
        lemma_time_at(l, z, i);
        lemma_time_at(r, z, i);
        if exists|a: int| 0 <= a < l.len() && (#[trigger] l[a]).0.equals(y) {
            let a = choose|a: int| 0 <= a < l.len() && (#[trigger] l[a]).0.equals(y);
            if !y.equals(z) {
                assert(a != i);
                assert(r[a] == l[a]);
                lemma_time_at(l, y, a);
                lemma_time_at(r, y, a);
            }
        } else {
            lemma_no_time_at(l, y);
            assert forall|a: int| 0 <= a < r.len() implies !(#[trigger] r[a]).0.equals(y) by {
                assert(!l[a].0.equals(y));
                assert(r[a].0 == l[a].0);
            }
            lemma_no_time_at(r, y);
        }
    } else {
        let k = layer_slot(l, z);
        lemma_no_time_at(l, z);
        assert(rising(r)) by {
            assert forall|a: int, b: int| 0 <= a < b < r.len() implies (#[trigger] r[a]).0 < (
            #[trigger] r[b]).0 by {
                if k < l.len() {
                    assert(!(l[k].0 < z) && !l[k].0.equals(z) && !l[k].0.nan());
                    assert(z < l[k].0);
                }
                if a < k && b == k {
                    assert(r[a] == l[a]);
                } else if a < k && b > k {
                    assert(r[a] == l[a] && r[b] == l[b - 1]);
                    assert(l[a].0 < l[b - 1].0);
                } else if a < k {
                    assert(r[a] == l[a] && r[b] == l[b]);
                } else if a == k {
                    assert(r[b] == l[b - 1]);
                    if b - 1 > k {
                        assert(l[k].0 < l[b - 1].0);
                    }
                } else {
                    assert(r[a] == l[a - 1] && r[b] == l[b - 1]);
                }
            }
        }
        assert forall|a: int| 0 <= a < r.len() implies !(#[trigger] r[a]).0.nan() by {
            if a < k {
                assert(r[a] == l[a]);
            } else if a > k {
                assert(r[a] == l[a - 1]);
            }
        }
        assert(r[k] == (z, num(ZERO) + t));
        lemma_time_at(r, z, k);
        if exists|a: int| 0 <= a < l.len() && (#[trigger] l[a]).0.equals(y) {
            let a = choose|a: int| 0 <= a < l.len() && (#[trigger] l[a]).0.equals(y);
            lemma_time_at(l, y, a);
            let b = if a < k {
                a
            } else {
                a + 1
            };
            assert(r[b] == l[a]);
            lemma_time_at(r, y, b);
        } else {
            lemma_no_time_at(l, y);
            if !y.equals(z) {
                assert forall|a: int| 0 <= a < r.len() implies !(#[trigger] r[a]).0.equals(y) by {
                    if a < k {
                        assert(r[a] == l[a]);
                    } else if a > k {
                        assert(r[a] == l[a - 1]);
                    }
                }
                lemma_no_time_at(r, y);
            }
        }
    }
}

/// Whether the listed heights are numbers, listed once each from the bottom up.
pub open spec fn sound_layers(l: LayerTimes) -> bool {
    &&& rising(l)
    &&& forall|i: int| 0 <= i < l.len() ==> !(#[trigger] l[i]).0.nan()
}

/// A level move adds its time to what its height had, from zero on; the times of all other heights
/// stay as they are, and so do all of them with a move that goes up or down.
pub proof fn heights_gain_the_times_of_their_moves(
    run: RunView,
    p: PlannerView,
    m: PlanningMove,
    y: Double,
)
    requires
        sound_layers(run.layer_times),
        is_level(m) ==> !height_of(m).nan(),
    ensures
        ({
            let before = run.layer_times;
            let after = run.with_move(p, m).layer_times;
            &&& sound_layers(after)
            &&& is_level(m) ==> time_at(after, height_of(m)) == Some(
                or_zero(time_at(before, height_of(m))) + m.total_time(),
            )
            &&& is_level(m) && !y.equals(height_of(m)) ==> time_at(after, y) == time_at(before, y)
            &&& !is_level(m) ==> after == before
        }),
{
    if is_level(m) {
        lemma_with_layer(run.layer_times, height_of(m), m.total_time(), y);
    }
}

/// A run after moves.
pub open spec fn run_after(run: RunView, p: PlannerView, moves: Seq<PlanningMove>) -> RunView
    decreases moves.len(),
{
    if moves.len() == 0 {
        run
    } else {
        run_after(run, p, moves.drop_last()).with_move(p, moves.last())
    }
}

/// The times of the moves at a height, added up in order; none without such a move.
pub open spec fn sum_at(moves: Seq<PlanningMove>, z: Double) -> Option<Double>
    decreases moves.len(),
{
    if moves.len() == 0 {
        None
    } else {
        let before = sum_at(moves.drop_last(), z);
        if is_level(moves.last()) && height_of(moves.last()).equals(z) {
            Some(or_zero(before) + moves.last().total_time())
        } else {
            before
        }
    }
}

proof fn lemma_equal_heights(l: LayerTimes, a: Double, b: Double)
    requires
        a.equals(b),
    ensures
        time_at(l, a) == time_at(l, b),
    decreases l.len(),
{
    if l.len() > 0 {
        lemma_equal_heights(l.drop_last(), a, b);
    }
}

/// The time of a height is the sum of the times of all moves at that height.
pub proof fn heights_have_the_times_of_all_their_moves(
    p: PlannerView,
    moves: Seq<PlanningMove>,
    z: Double,
)
    requires
        forall|i: int|
            0 <= i < moves.len() && is_level(#[trigger] moves[i]) ==> !height_of(moves[i]).nan(),
    ensures
        sound_layers(run_after(RunView::empty(), p, moves).layer_times),
        time_at(run_after(RunView::empty(), p, moves).layer_times, z) == sum_at(moves, z),
    decreases moves.len(),
{
    if moves.len() > 0 {
        let rest = moves.drop_last();
        let m = moves.last();
        assert(m == moves[moves.len() - 1]);
        assert forall|i: int|
            0 <= i < rest.len() && is_level(#[trigger] rest[i]) implies !height_of(rest[i]).nan() by {
            assert(rest[i] == moves[i]);
        }
        heights_have_the_times_of_all_their_moves(p, rest, z);
        let before = run_after(RunView::empty(), p, rest);
        heights_gain_the_times_of_their_moves(before, p, m, z);
        if is_level(m) && height_of(m).equals(z) {
            lemma_equal_heights(before.layer_times, height_of(m), z);
            lemma_equal_heights(before.with_move(p, m).layer_times, height_of(m), z);
        }
    }
}

/// Whether a number is the larger one of a value and what there was before, if anything.
pub open spec fn larger_of(r: Option<Double>, known: Option<Double>, x: Double) -> bool {
    r matches Some(m) && m >= or_zero(known) && m >= x && (m == x || m == or_zero(known))
}

/// Every move counts once, with its way, its filament and its time. Its time counts as that of
/// speeding up, cruising and slowing down, under its kind, under the one thing that the move
/// does, and either at its height or as a change of height.
pub proof fn moves_add_up(run: RunView, p: PlannerView, m: PlanningMove, other: Seq<char>)
    requires
        run.num_moves < u64::MAX,
    ensures
        ({
            let r = run.with_move(p, m);
            let t = m.total_time();
            let filament = m.end.w - m.start.w;
            let extrudes = filament.abs() >= num(EPSILON);
            let travels = !(m.start.x.equals(m.end.x) && m.start.y.equals(m.end.y)
                && m.start.z.equals(m.end.z));
            &&& r.num_moves == run.num_moves + 1
            &&& r.total_distance == run.total_distance + m.distance
            &&& r.total_extrude_distance == run.total_extrude_distance + filament
            &&& r.phase_times.acceleration == run.phase_times.acceleration + m.accel_time()
            &&& r.phase_times.cruise == run.phase_times.cruise + m.cruise_time()
            &&& r.phase_times.deceleration == run.phase_times.deceleration + m.decel_time()
            &&& time_of(r.kind_times, kind_name(p, m)) == time_of(run.kind_times, kind_name(p, m))
                + t
            &&& other != kind_name(p, m) ==> lookup(r.kind_times, other) == lookup(
                run.kind_times,
                other,
            )
            &&& r.total_output_time == if extrudes && travels {
                run.total_output_time + t
            } else {
                run.total_output_time
            }
            &&& r.total_extrude_only_time == if extrudes && !travels {
                run.total_extrude_only_time + t
            } else {
                run.total_extrude_only_time
            }
            &&& r.total_travel_time == if !extrudes && travels {
                run.total_travel_time + t
            } else {
                run.total_travel_time
            }
            &&& r.total_z_time == if is_level(m) {
                run.total_z_time
            } else {
                run.total_z_time + t
            }
            &&& extrudes && travels ==> {
                let radius = tool_radius(p, m);
                let flow = filament * radius * radius * num(PI) / t;
                !flow.nan() && !or_zero(run.max_flow).nan() ==> larger_of(
                    r.max_flow,
                    run.max_flow,
                    flow,
                )
            }
            &&& !(extrudes && travels) ==> r.max_flow == run.max_flow
            &&& !m.cruise_v.nan() && !or_zero(run.max_speed).nan() ==> larger_of(
                r.max_speed,
                run.max_speed,
                m.cruise_v,
            )
        }),
{
    times_are_separate(run.kind_times, kind_name(p, m), m.total_time(), kind_name(p, m));
    lemma_lookup_inserted(
        run.kind_times,
        kind_name(p, m),
        time_of(run.kind_times, kind_name(p, m)) + m.total_time(),
        other,
    );
}

/// The filament of a move goes to its own extruder alone: what is pushed out and what is drawn
/// back are added up apart, and both count in the balance.
pub proof fn filament_goes_to_its_extruder(
    run: RunView,
    p: PlannerView,
    m: PlanningMove,
    other: Seq<char>,
)
    ensures
        ({
            let r = run.with_move(p, m);
            let tool = tool_name(p, m);
            let filament = m.end.w - m.start.w;
            let extrudes = filament.abs() >= num(EPSILON);
            &&& !extrudes ==> r.extruders == run.extruders
            &&& other != tool ==> lookup(r.extruders, other) == lookup(run.extruders, other)
            &&& extrudes ==> (lookup(r.extruders, tool) matches Some(e) && {
                let known = lookup(run.extruders, tool);
                let net = match known {
                    Some(k) => k.net_distance,
                    None => num(ZERO),
                };
                let out = match known {
                    Some(k) => k.extruded_distance,
                    None => num(ZERO),
                };
                let back = match known {
                    Some(k) => k.retracted_distance,
                    None => num(ZERO),
                };
                &&& e.net_distance == net + filament
                &&& filament > num(ZERO) ==> e.extruded_distance == out + filament
                    && e.retracted_distance == back
                &&& filament < num(ZERO) ==> e.extruded_distance == out && e.retracted_distance
                    == back + filament
            })
        }),
{
    let delta = m.end.w - m.start.w;
    let tool = tool_name(p, m);
    let known = match lookup(run.extruders, tool) {
        Some(x) => x,
        None => crate::estimate::ExtruderEstimation::none(),
    };
    lemma_lookup_inserted(run.extruders, tool, known.plus(delta), tool);
    lemma_lookup_inserted(run.extruders, tool, known.plus(delta), other);
}

/// The time of a move counts as motion and in the total, once. The first move after an
/// interruption waits a quarter of a second before it, which counts as certain time of its own.
pub proof fn motion_counts_once(v: EstimateView, d: Double)
    ensures
        ({
            let r = v.with_move(d);
            let wait = num(QUARTER);
            &&& r.motion == v.motion + d
            &&& r.total == r.expected
            &&& !r.needs_flush
            &&& r.omitted == v.omitted
            &&& !v.needs_flush ==> r.expected == v.expected + d && r.deterministic
                == v.deterministic + d
            &&& v.needs_flush ==> r.expected == v.expected + wait + d && r.deterministic
                == v.deterministic + wait + d
            &&& time_of(r.components, "motion"@) == time_of(v.components, "motion"@) + d
            &&& time_of(r.components, "lookahead_flush"@) == if v.needs_flush {
                time_of(v.components, "lookahead_flush"@) + wait
            } else {
                time_of(v.components, "lookahead_flush"@)
            }
        }),
{
    reveal_strlit("motion");
    reveal_strlit("lookahead_flush");
    assert("motion"@.len() == 6 && "lookahead_flush"@.len() == 15);
    let ready = if v.needs_flush {
        crate::duration::with_time(v.components, "lookahead_flush"@, num(QUARTER))
    } else {
        v.components
    };
    times_are_separate(v.components, "lookahead_flush"@, num(QUARTER), "lookahead_flush"@);
    times_are_separate(v.components, "lookahead_flush"@, num(QUARTER), "motion"@);
    times_are_separate(ready, "motion"@, d, "motion"@);
    times_are_separate(ready, "motion"@, d, "lookahead_flush"@);
}

} // verus!
