//! What holds of planned speeds.

use vstd::arithmetic::div_mod::lemma_fundamental_div_mod;
use vstd::arithmetic::mul::lemma_mul_basics;
use vstd::arithmetic::power2::lemma2_to64;
use vstd::arithmetic::power2::lemma_pow2_adds;
use vstd::arithmetic::power2::lemma_pow2_pos;
use vstd::arithmetic::power2::lemma_pow2_unfold;
use vstd::arithmetic::power2::pow2;
use vstd::prelude::*;

use crate::constants::EXTRUDE_ONLY_ACCEL;
use crate::constants::HALF;
use crate::constants::QUARTER;
use crate::constants::TWO;
use crate::double::exponent_index;
use crate::double::floor_root;
use crate::double::lemma_root_exists;
use crate::double::magnitude_of;
use crate::double::nearest_root;
use crate::double::num;
use crate::double::one_units;
use crate::double::significand;
use crate::double::units;
use crate::double::Double;
use crate::double::ONE;
use crate::double::ZERO;
use crate::geometry::Vec4;
use crate::limits::PrinterLimits;
use crate::lookahead::count_moves;
use crate::lookahead::cruise_at;
use crate::lookahead::full_pass_plans_everything;
use crate::lookahead::junction_at;
use crate::lookahead::lemma_count_shift;
use crate::lookahead::lemma_move_index_range;
use crate::lookahead::lemma_moves_from;
use crate::lookahead::move_index;
use crate::lookahead::moves_from;
use crate::lookahead::pass_at;
use crate::lookahead::planned_at;
use crate::lookahead::planned_count;
use crate::lookahead::SequenceOperation;
use crate::lookahead::SequenceView;
use crate::motion_laws::junctions_stay_within_limits;
use crate::motion_laws::lemma_scale;
use crate::motion_laws::multiples_of_zero_are_zero;
use crate::motion_laws::planned_speeds_stay_within_limits;
use crate::motion_laws::products_commute;
use crate::planning_move::MotionSettings;
use crate::planning_move::PlanningMove;
use crate::rounding::divide_half_even;
use crate::rounding::lemma_two52;
use crate::rounding::nearest;
use crate::rounding::scale_of;
use crate::rounding::INFINITY_BITS;

verus! {

/// Rounded quotients keep the order of numbers.
pub proof fn lemma_divide_monotone(a: nat, b: nat, u: nat)
    requires
        a <= b,
        u > 0,
    ensures
        divide_half_even(a, u) <= divide_half_even(b, u),
{
    let p = a / u;
    let q = b / u;
    lemma_fundamental_div_mod(a as int, u as int);
    lemma_fundamental_div_mod(b as int, u as int);
    if p > q {
        assert(u * p >= u * q + u) by (nonlinear_arith)
            requires
                p >= q + 1,
                u > 0,
        ;
    }
}

proof fn lemma_divide_bounds(n: nat, u: nat, m: nat)
    requires
        u > 0,
    ensures
        n < u * m ==> divide_half_even(n, u) <= m,
        u * m <= n ==> m <= divide_half_even(n, u),
{
    let q = n / u;
    lemma_fundamental_div_mod(n as int, u as int);
    if n < u * m && q >= m {
        assert(u * q >= u * m) by (nonlinear_arith)
            requires
                q >= m,
                u > 0,
        ;
    }
    if u * m <= n && q < m {
        assert(u * m >= u * q + u) by (nonlinear_arith)
            requires
                m >= q + 1,
                u > 0,
        ;
    }
}

proof fn lemma_scale_monotone(a: nat, b: nat, d: nat)
    requires
        a <= b,
        d > 0,
    ensures
        scale_of(a, d) <= scale_of(b, d),
    decreases b - d,
{
    if b >= d * 0x20_0000_0000_0000 {
        lemma_scale_monotone(a, b, 2 * d);
    }
}

/// Rounding keeps the order of numbers.
pub proof fn rounding_is_monotone(a: nat, b: nat, d: nat)
    requires
        a <= b,
        d > 0,
    ensures
        nearest(a, d) <= nearest(b, d) <= INFINITY_BITS,
{
    let j = scale_of(a, d);
    let k = scale_of(b, d);
    lemma_scale_monotone(a, b, d);
    lemma_scale(a, d);
    lemma_scale(b, d);
    lemma_pow2_pos(j);
    lemma_pow2_pos(k);
    let u = d * pow2(j);
    let w = d * pow2(k);
    assert(u > 0 && w > 0) by (nonlinear_arith)
        requires
            u == d * pow2(j),
            w == d * pow2(k),
            d > 0,
            pow2(j) > 0,
            pow2(k) > 0,
    ;
    if j == k {
        lemma_divide_monotone(a, b, u);
    } else {
        lemma_divide_bounds(a, u, 0x20_0000_0000_0000);
        lemma_divide_bounds(b, w, 0x10_0000_0000_0000);
    }
}

/// A larger magnitude stands for more units.
pub proof fn lemma_units_monotone(a: nat, b: nat)
    requires
        a <= b,
    ensures
        units(a) <= units(b),
{
    let e = exponent_index(a);
    let f = exponent_index(b);
    let p = pow2(e);
    let q = pow2(f);
    let s = significand(a);
    let t = significand(b);
    lemma_pow2_pos(e);
    if e == f {
        assert(s * p <= t * p) by (nonlinear_arith)
            requires
                s <= t,
                p > 0,
        ;
    } else {
        assert(e < f);
        lemma_pow2_adds(e, (f - e) as nat);
        lemma_pow2_unfold((f - e) as nat);
        lemma_pow2_pos((f - e - 1) as nat);
        let r = pow2((f - e) as nat);
        assert(s * p <= t * q) by (nonlinear_arith)
            requires
                q == p * r,
                r >= 2,
                p > 0,
                s <= 0x20_0000_0000_0000,
                t >= 0x10_0000_0000_0000,
        ;
    }
}

proof fn lemma_floor_root_monotone(a: nat, b: nat)
    requires
        a <= b,
    ensures
        floor_root(a) <= floor_root(b),
        floor_root(a) * floor_root(a) <= a,
        floor_root(b) * floor_root(b) <= b,
{
    let s = lemma_root_exists(a);
    let t = lemma_root_exists(b);
    let x = floor_root(a);
    let y = floor_root(b);
    assert(x * x <= a && a < (x + 1) * (x + 1));
    assert(y * y <= b && b < (y + 1) * (y + 1));
    assert(x <= y) by (nonlinear_arith)
        requires
            x * x <= a,
            a <= b,
            b < (y + 1) * (y + 1),
    ;
}

proof fn lemma_nearest_root_monotone(v: nat, w: nat)
    requires
        v <= w,
    ensures
        nearest_root(v) <= nearest_root(w) <= INFINITY_BITS,
{
    let c = one_units() * pow2(120);
    let a = v * one_units() * pow2(120);
    let b = w * one_units() * pow2(120);
    assert(a <= b) by (nonlinear_arith)
        requires
            a == v * one_units() * pow2(120),
            b == w * one_units() * pow2(120),
            v <= w,
    ;
    lemma_floor_root_monotone(a, b);
    lemma_pow2_pos(61);
    let s = floor_root(a);
    let t = floor_root(b);
    let m: nat = if s * s == a {
        2 * s
    } else {
        2 * s + 1
    };
    let n: nat = if t * t == b {
        2 * t
    } else {
        2 * t + 1
    };
    rounding_is_monotone(m, n, pow2(61));
}

/// A number that is not below zero.
pub open spec fn not_negative(x: Double) -> bool {
    !x.nan() && x.rank() >= 0
}

/// The square root of a number that is not below zero is not below zero, and larger numbers have
/// roots that are at least as large.
pub proof fn roots_are_monotone(a: Double, b: Double)
    requires
        not_negative(a),
        a <= b,
    ensures
        not_negative(a.sqrt()),
        a.sqrt() <= b.sqrt(),
{
    reveal(Double::root);
    lemma_two52();
    lemma_units_monotone(a.magnitude(), b.magnitude());
    lemma_nearest_root_monotone(units(a.magnitude()), units(b.magnitude()));
}

proof fn lemma_sum(a: Double, b: Double)
    requires
        not_negative(a),
        not_negative(b),
    ensures
        not_negative(a + b),
{
    reveal(Double::spec_add);
    lemma_two52();
    assert(units(0) == 0) by {
        assert(significand(0) == 0);
        assert(0 * pow2(0) == 0);
    }
    if a.finite() && b.finite() {
        rounding_is_monotone(
            magnitude_of(a.value() + b.value()),
            magnitude_of(a.value() + b.value()),
            1,
        );
    }
}

proof fn lemma_product(a: Double, b: Double)
    requires
        not_negative(a),
        not_negative(b),
    ensures
        (a * b).nan() || not_negative(a * b),
        a.finite() && b.finite() ==> not_negative(a * b),
        a.infinite() && b.finite() && b.magnitude() > 0 ==> not_negative(a * b),
{
    reveal(Double::spec_mul);
    lemma_two52();
    lemma_pow2_pos(1074);
    if a.finite() && b.finite() {
        let n = units(a.magnitude()) * units(b.magnitude());
        rounding_is_monotone(n, n, one_units());
        if a.magnitude() == 0 {
            multiples_of_zero_are_zero(b, a);
        } else if b.magnitude() == 0 {
            multiples_of_zero_are_zero(a, b);
        }
    }
}

proof fn lemma_half(a: Double)
    requires
        not_negative(a),
    ensures
        not_negative(a * num(HALF)),
{
    lemma_product(a, num(HALF));
}

/// Whether the limits of a queued move are not below zero.
pub open spec fn sound_limits(m: PlanningMove) -> bool {
    &&& not_negative(m.max_start_v2)
    &&& not_negative(m.max_mcr_start_v2)
    &&& not_negative(m.max_cruise_v2)
    &&& not_negative(m.delta_v2)
    &&& not_negative(m.mcr_delta_v2)
}

pub open spec fn all_sound(moves: Seq<PlanningMove>) -> bool {
    forall|i: int| 0 <= i < moves.len() ==> sound_limits(#[trigger] moves[i])
}

proof fn lemma_pass(moves: Seq<PlanningMove>, i: int, lazy: bool)
    requires
        all_sound(moves),
        0 <= i,
    ensures
        not_negative(pass_at(moves, i, lazy).next_start_v2),
        not_negative(pass_at(moves, i, lazy).next_mcr_start_v2),
        not_negative(pass_at(moves, i, lazy).peak_cruise_v2),
    decreases moves.len() - i,
{
    if i < moves.len() {
        lemma_pass(moves, i + 1, lazy);
        let p = pass_at(moves, i + 1, lazy);
        let m = moves[i];
        assert(sound_limits(m));
        lemma_sum(p.next_start_v2, m.delta_v2);
        lemma_sum(p.next_mcr_start_v2, m.mcr_delta_v2);
        lemma_sum(p.mcr_start_v2(m), p.reachable_mcr(m));
        lemma_half(p.mcr_start_v2(m) + p.reachable_mcr(m));
    }
}

proof fn lemma_junction(moves: Seq<PlanningMove>, i: int, lazy: bool)
    requires
        all_sound(moves),
        0 <= i < moves.len(),
    ensures
        ({
            let j = junction_at(moves, i, lazy);
            &&& not_negative(j.start_v2)
            &&& not_negative(j.end_v2)
            &&& j.cruise_v2 matches Some(v) ==> not_negative(v)
        }),
{
    lemma_pass(moves, i + 1, lazy);
    lemma_pass(moves, i, lazy);
    let p = pass_at(moves, i + 1, lazy);
    let m = moves[i];
    assert(sound_limits(m));
    lemma_sum(p.next_start_v2, m.delta_v2);
    lemma_sum(p.start_v2(m), p.reachable(m));
    lemma_half(p.start_v2(m) + p.reachable(m));
}

proof fn lemma_cruise(moves: Seq<PlanningMove>, i: int, lazy: bool)
    requires
        all_sound(moves),
        i < moves.len(),
    ensures
        not_negative(cruise_at(moves, i, lazy)),
    decreases i + 1,
{
    if i >= 0 {
        lemma_junction(moves, i, lazy);
        lemma_cruise(moves, i - 1, lazy);
    }
}

/// Planned speeds are not negative, no faster at either end of a move than in between, and within
/// the limits of the move; the last of all moves ends at rest.
pub proof fn planned_velocities_stay_within_limits(
    moves: Seq<PlanningMove>,
    i: int,
    lazy: bool,
)
    requires
        0 <= i < moves.len(),
        all_sound(moves),
        moves[i].max_start_v2 <= moves[i].max_cruise_v2,
    ensures
        ({
            let p = planned_at(moves, i, lazy);
            &&& bounded_speeds(p)
            &&& i == moves.len() - 1 ==> p.end_v.equals(num(ZERO))
        }),
{
    let m = moves[i];
    assert(sound_limits(m));
    lemma_junction(moves, i, lazy);
    lemma_cruise(moves, i, lazy);
    planned_speeds_stay_within_limits(moves, i, lazy);
    let cruise = cruise_at(moves, i, lazy);
    let start = junction_at(moves, i, lazy).start_v2.min(cruise);
    let end = junction_at(moves, i, lazy).end_v2.min(cruise);
    roots_are_monotone(start, cruise);
    roots_are_monotone(end, cruise);
    roots_are_monotone(start, m.max_start_v2);
    roots_are_monotone(cruise, m.max_cruise_v2);
    if i == moves.len() - 1 {
        reveal(Double::root);
        assert(pass_at(moves, i + 1, lazy).next_start_v2 == num(ZERO));
        assert(end.rank() == 0);
    }
}

/// A number that is not below zero, or none at all.
spec fn unsigned(x: Double) -> bool {
    x.nan() || x.rank() >= 0
}

proof fn lemma_unsigned_product(a: Double, b: Double)
    requires
        unsigned(a),
        unsigned(b),
    ensures
        unsigned(a * b),
{
    if a.nan() || b.nan() {
        reveal(Double::spec_mul);
    } else {
        lemma_product(a, b);
    }
}

proof fn lemma_square(a: Double)
    ensures
        unsigned(a * a),
        !a.nan() ==> not_negative(a * a),
{
    reveal(Double::spec_mul);
    lemma_two52();
    lemma_pow2_pos(1074);
    let n = units(a.magnitude()) * units(a.magnitude());
    rounding_is_monotone(n, n, one_units());
}

proof fn lemma_unsigned_quotient(a: Double, b: Double)
    requires
        not_negative(a),
        b > num(ZERO),
    ensures
        unsigned(a / b),
{
    reveal(Double::over);
    lemma_two52();
    assert(units(0) == 0) by {
        assert(significand(0) == 0);
        assert(0 * pow2(0) == 0);
    }
    lemma_units_monotone(1, b.magnitude());
    assert(units(1) > 0) by {
        assert(significand(1) == 1);
        assert(exponent_index(1) == 0);
        lemma_pow2_pos(0);
        assert(1 * pow2(0) == pow2(0));
    }
    if a.finite() && b.finite() {
        let n = units(a.magnitude()) * one_units();
        rounding_is_monotone(n, n, units(b.magnitude()));
        if a.magnitude() == 0 {
            lemma_mul_basics(one_units() as int);
            assert(n == 0);
            assert(nearest(0, units(b.magnitude())) == 0) by {
                let u = units(b.magnitude());
                assert(scale_of(0, u) == 0);
                lemma2_to64();
                lemma_mul_basics(u as int);
                assert(0nat / u == 0 && 0nat % u == 0) by (nonlinear_arith)
                    requires
                        u > 0,
                ;
            }
        }
    }
}

proof fn lemma_half_root(x: Double)
    ensures
        not_negative(x.max(num(ZERO)).sqrt()),
{
    roots_are_monotone(x.max(num(ZERO)), x.max(num(ZERO)));
}

/// Whether a move has limits that planning can work with.
pub open spec fn sound(m: PlanningMove) -> bool {
    &&& sound_limits(m)
    &&& m.max_start_v2 <= m.max_cruise_v2
    &&& not_negative(m.next_junction_v2)
    &&& not_negative(m.junction_deviation)
    &&& not_negative(m.acceleration)
}

/// Whether all moves of a queue have sound limits.
pub open spec fn sound_queue(ops: Seq<SequenceOperation>) -> bool {
    forall|j: int| 0 <= j < ops.len() ==> (#[trigger] ops[j] matches SequenceOperation::Move(m) ==> sound(m))
}

proof fn lemma_junction_limit(m: PlanningMove, previous: PlanningMove, limits: PrinterLimits)
    requires
        sound(m),
        sound(previous),
    ensures
        not_negative(m.junction_limit(previous, limits.extruder_junction(m, previous))),
{
    let extruder = limits.extruder_junction(m, previous);
    lemma_square(
        limits.corner_velocity(m.extruder_index()) / (m.rate.w - previous.rate.w).abs(),
    );
    assert(unsigned(extruder));
    lemma_sum(previous.max_start_v2, previous.delta_v2);
    let cos_theta = m.rate.xyz().dot(previous.rate.xyz()).negated();
    lemma_half_root(num(HALF) * (num(ONE) - cos_theta));
    lemma_half_root(num(HALF) * (num(ONE) + cos_theta));
    let sin_half = (num(HALF) * (num(ONE) - cos_theta)).max(num(ZERO)).sqrt();
    let cos_half = (num(HALF) * (num(ONE) + cos_theta)).max(num(ZERO)).sqrt();
    let one_minus_sin = num(ONE) - sin_half;
    if one_minus_sin > num(ZERO) && cos_half > num(ZERO) {
        let r_jd = sin_half / one_minus_sin;
        let quarter = num(QUARTER) * sin_half;
        lemma_unsigned_quotient(sin_half, one_minus_sin);
        lemma_unsigned_product(r_jd, m.junction_deviation);
        lemma_unsigned_product(r_jd * m.junction_deviation, m.acceleration);
        lemma_unsigned_product(r_jd, previous.junction_deviation);
        lemma_unsigned_product(r_jd * previous.junction_deviation, previous.acceleration);
        lemma_product(sin_half, num(QUARTER));
        products_commute(sin_half, num(QUARTER));
        lemma_unsigned_quotient(quarter, cos_half);
        lemma_unsigned_product(m.delta_v2, quarter / cos_half);
        lemma_unsigned_product(previous.delta_v2, quarter / cos_half);
    }
}

proof fn lemma_joined(m: PlanningMove, previous: PlanningMove, limits: PrinterLimits)
    requires
        sound(m),
        sound(previous),
    ensures
        sound(m.joined(previous, limits.extruder_junction(m, previous))),
{
    if m.is_kinematic_move() && previous.is_kinematic_move() {
        lemma_junction_limit(m, previous, limits);
        lemma_sum(previous.max_mcr_start_v2, previous.mcr_delta_v2);
        junctions_stay_within_limits(m, previous, limits.extruder_junction(m, previous));
    }
}

proof fn lemma_pending(ops: Seq<SequenceOperation>, i: int)
    requires
        0 <= i <= ops.len(),
        sound_queue(ops),
    ensures
        forall|k: int| 0 <= k < moves_from(ops, i).len() ==> sound(#[trigger] moves_from(ops, i)[k]),
        all_sound(moves_from(ops, i)),
    decreases ops.len() - i,
{
    if i < ops.len() {
        lemma_pending(ops, i + 1);
        let rest = moves_from(ops, i + 1);
        if ops[i] is Move {
            assert forall|k: int| 0 <= k < moves_from(ops, i).len() implies sound(
                #[trigger] moves_from(ops, i)[k],
            ) by {
                if k > 0 {
                    assert(moves_from(ops, i)[k] == rest[k - 1]);
                }
            }
        }
    }
}

/// Planning a queue of sound moves leaves it sound.
pub proof fn planned_moves_stay_sound(v: SequenceView, lazy: bool)
    requires
        0 <= v.flush_count <= v.ops.len(),
        sound_queue(v.ops),
    ensures
        sound_queue(v.processed(lazy).ops),
{
    lemma_pending(v.ops, v.flush_count);
    let count = planned_count(v.pending(), lazy);
    assert forall|j: int| 0 <= j < v.ops.len() implies (#[trigger] v.planned_ops(count, lazy)[j] matches SequenceOperation::Move(m) ==> sound(m)) by {
        if j >= v.flush_count {
            lemma_moves_from(v.ops, v.flush_count, j);
        }
    }
}

/// The limits of queued moves stay sound: adding a sound move to a queue of sound moves gives one
/// again, with its junctions limited and its settled moves planned.
pub proof fn queued_moves_stay_sound(v: SequenceView, m: PlanningMove, limits: PrinterLimits)
    requires
        0 <= v.flush_count <= v.ops.len(),
        sound_queue(v.ops),
        sound(m),
    ensures
        sound_queue(v.with_move(m, limits).ops),
        all_sound(v.pending()),
        forall|k: int| 0 <= k < v.pending().len() ==> sound(#[trigger] v.pending()[k]),
{
    lemma_pending(v.ops, v.flush_count);
    if !m.distance.equals(num(ZERO)) {
        let joined = v.connected(m, limits);
        if v.pending().len() > 0 {
            lemma_joined(m, v.pending().last(), limits);
        }
        assert(sound(joined));
        let left = v.junction_flush - joined.min_move_time();
        let waiting = SequenceView {
            ops: v.ops.push(SequenceOperation::Move(joined)),
            junction_flush: left,
            ..v
        };
        assert(sound_queue(waiting.ops));
        planned_moves_stay_sound(waiting, true);
    }
}

/// A move before the `c`-th one has fewer than `c` moves before it.
proof fn lemma_before(ops: Seq<SequenceOperation>, i: int, c: int, j: int)
    requires
        0 <= i <= j < ops.len(),
        c >= 0,
        ops[j] is Move,
        j < move_index(ops, i, c),
    ensures
        count_moves(ops, i, j) < c,
    decreases j - i,
{
    if i < j {
        lemma_count_shift(ops, i, j);
        if ops[i] is Move {
            lemma_before(ops, i + 1, c - 1, j);
        } else {
            lemma_before(ops, i + 1, c, j);
        }
    }
}

/// Whether the planned speeds of a move are not negative, no faster at either end than in
/// between, and within its limits.
pub open spec fn bounded_speeds(m: PlanningMove) -> bool {
    let zero = num(ZERO);
    &&& m.start_v >= zero && m.cruise_v >= zero && m.end_v >= zero
    &&& m.start_v <= m.cruise_v && m.end_v <= m.cruise_v
    &&& m.start_v <= m.max_start_v2.sqrt()
    &&& m.cruise_v <= m.max_cruise_v2.sqrt()
}

/// Every move that a pass over a queue of sound moves releases has bounded speeds. A full pass
/// releases all of them, and the last one ends at rest.
pub proof fn released_moves_have_bounded_speeds(v: SequenceView, lazy: bool)
    requires
        0 <= v.flush_count <= v.ops.len() <= usize::MAX,
        sound_queue(v.ops),
    ensures
        forall|j: int|
            v.flush_count <= j < v.processed(lazy).flush_count ==> (
            #[trigger] v.processed(lazy).ops[j] matches SequenceOperation::Move(m)
                ==> bounded_speeds(m)),
        !lazy ==> v.processed(lazy).flush_count == v.ops.len(),
        !lazy && v.pending().len() > 0 ==> planned_at(
            v.pending(),
            v.pending().len() - 1,
            lazy,
        ).end_v.equals(num(ZERO)),
{
    let p = v.pending();
    let count = planned_count(p, lazy);
    lemma_pending(v.ops, v.flush_count);
    assert forall|j: int|
        v.flush_count <= j < v.processed(lazy).flush_count implies (
    #[trigger] v.processed(lazy).ops[j] matches SequenceOperation::Move(m)
        ==> bounded_speeds(m)) by {
        lemma_move_index_range(v.ops, v.flush_count, count);
        lemma_moves_from(v.ops, v.flush_count, j);
        if v.ops[j] is Move {
            lemma_before(v.ops, v.flush_count, count, j);
            let k = count_moves(v.ops, v.flush_count, j);
            planned_velocities_stay_within_limits(p, k, lazy);
        }
    }
    if !lazy {
        full_pass_plans_everything(v);
        if p.len() > 0 {
            planned_velocities_stay_within_limits(p, p.len() - 1, lazy);
        }
    }
}

/// The difference of two numbers is as large as the opposite difference.
pub proof fn distances_are_symmetric(a: Double, b: Double)
    ensures
        (a - b).abs() == (b - a).abs(),
{
    reveal(Double::spec_add);
    lemma_two52();
    if a.finite() && b.finite() {
        let v = a.value() - b.value();
        rounding_is_monotone(
            magnitude_of(v),
            magnitude_of(v),
            1,
        );
        assert(magnitude_of(v) == magnitude_of(-v));
    }
}

/// A new move within finite settings has sound limits.
pub proof fn new_moves_are_sound(start: Vec4, end: Vec4, settings: MotionSettings)
    requires
        (num(TWO) * PlanningMove::new(start, end, settings).distance).finite(),
        !settings.velocity.nan(),
        !settings.max_velocity.nan(),
        settings.max_acceleration.finite() && not_negative(settings.max_acceleration),
        settings.mcr_pseudo_accel.finite() && not_negative(settings.mcr_pseudo_accel),
        not_negative(settings.junction_deviation),
    ensures
        sound(PlanningMove::new(start, end, settings)),
{
    let m = PlanningMove::new(start, end, settings);
    lemma_square(settings.velocity);
    lemma_square(settings.velocity.min(settings.max_velocity));
    distances_are_symmetric(start.w, end.w);
    assert(!m.distance.nan()) by {
        reveal(Double::spec_mul);
    }
    if m.is_kinematic_move() {
        reveal(Double::root);
        lemma_two52();
    }
    assert(not_negative(m.distance));
    products_commute(num(TWO), m.distance);
    lemma_product(m.distance, num(TWO));
    lemma_product(num(TWO) * m.distance, settings.max_acceleration);
    lemma_product(num(TWO) * m.distance, settings.mcr_pseudo_accel);
    lemma_product(num(TWO) * m.distance, num(EXTRUDE_ONLY_ACCEL));
}

} // verus!
