//! What holds of the toolhead's state, of plans and of numbers.

use vstd::prelude::*;

use vstd::arithmetic::div_mod::lemma_fundamental_div_mod;
use vstd::arithmetic::div_mod::lemma_fundamental_div_mod_converse;
use vstd::arithmetic::power2::lemma_pow2_adds;
use vstd::arithmetic::power2::lemma_pow2_pos;
use vstd::arithmetic::power2::lemma_pow2_strictly_increases;
use vstd::arithmetic::power2::lemma_pow2_unfold;
use vstd::arithmetic::power2::pow2;

use crate::double::exponent_index;
use crate::double::num;
use crate::double::significand;
use crate::double::units;
use crate::double::Double;
use crate::double::ZERO;
use crate::geometry::Vec4;
use crate::lookahead::cruise_at;
use crate::lookahead::junction_at;
use crate::lookahead::planned_at;
use crate::motion_transform::fade_factor;
use crate::motion_transform::faded_height;
use crate::motion_transform::apply_skew;
use crate::motion_transform::SkewFactors;
use crate::motion_transform::TransformView;
use crate::planning_move::PlanningMove;
use crate::rounding::divide_half_even;
use crate::rounding::lemma_nearest_zero;
use crate::rounding::lemma_scale_is;
use crate::rounding::lemma_two52;
use crate::rounding::nearest;
use crate::rounding::scale_of;
use crate::rounding::HIDDEN_BIT;
use crate::rounding::INFINITY_BITS;
use crate::table::lemma_lookup_inserted;
use crate::table::lookup;
use crate::toolhead::ToolheadView;

verus! {

/// Each extruder keeps its own filament position while others are active.
pub proof fn tool_changes_keep_filament_positions(
    t: ToolheadView,
    first: Seq<char>,
    second: Seq<char>,
    target: Vec4,
)
    requires
        t.active_extruder == Some(first),
        first != second,
    ensures
        ({
            let away = t.with_extruder(second).moved_to(target);
            let back = away.with_extruder(first);
            &&& back.active_extruder == Some(first)
            &&& back.position.w == t.position.w
            &&& back.with_extruder(second).position.w == target.w
        }),
{
    let a = t.with_extruder(second);
    let away = a.moved_to(target);
    let back = away.with_extruder(first);
    lemma_lookup_inserted(t.extruder_positions, first, t.position.w, first);
    lemma_lookup_inserted(a.extruder_positions, second, target.w, first);
    lemma_lookup_inserted(away.extruder_positions, second, target.w, first);
    lemma_lookup_inserted(away.extruder_positions, second, target.w, second);
    lemma_lookup_inserted(back.extruder_positions, first, t.position.w, second);
}

/// A saved state is found under its name, and the others stay as they were.
pub proof fn saved_states_are_found(t: ToolheadView, name: Seq<char>, other: Seq<char>)
    ensures
        lookup(t.saved_as(name).saved_states, name) == Some(t.snapshot()),
        other != name ==> lookup(t.saved_as(name).saved_states, other) == lookup(
            t.saved_states,
            other,
        ),
{
    lemma_lookup_inserted(t.saved_states, name, t.snapshot(), name);
    lemma_lookup_inserted(t.saved_states, name, t.snapshot(), other);
}

/// Restoring a saved state brings back the modes, the speeds, the factors and the origins of X, Y
/// and Z, and moves nothing.
pub proof fn restored_states_are_the_saved_ones(t: ToolheadView, now: ToolheadView)
    ensures
        ({
            let r = now.restored(t.snapshot());
            &&& r.position_modes == t.position_modes
            &&& r.velocity == t.velocity
            &&& r.speed_factor == t.speed_factor
            &&& r.extrude_factor == t.extrude_factor
            &&& r.homing_position == t.homing_position
            &&& r.base_position.xyz() == t.base_position.xyz()
            &&& r.position == now.position
            &&& r.active_extruder == now.active_extruder
            &&& r.limits == now.limits
            &&& r.saved_states == now.saved_states
        }),
{
}

/// The smaller of two numbers is at most either of them.
proof fn lemma_min(a: Double, b: Double)
    ensures
        !a.nan() ==> a.min(b) <= a && !a.min(b).nan(),
        !b.nan() ==> a.min(b) <= b && !a.min(b).nan(),
{
}

/// The square of the planned cruise speed is within the limit of its move, and the squares of the
/// speeds at both ends are within that of the cruise speed; the first one also keeps to the limit
/// of the junction.
pub proof fn planned_speeds_stay_within_limits(moves: Seq<PlanningMove>, i: int, lazy: bool)
    requires
        0 <= i < moves.len(),
        moves[i].max_start_v2 <= moves[i].max_cruise_v2,
    ensures
        ({
            let cruise = cruise_at(moves, i, lazy);
            let start = junction_at(moves, i, lazy).start_v2.min(cruise);
            let end = junction_at(moves, i, lazy).end_v2.min(cruise);
            &&& planned_at(moves, i, lazy) == moves[i].planned(start, cruise, end)
            &&& cruise <= moves[i].max_cruise_v2
            &&& start <= cruise
            &&& end <= cruise
            &&& start <= moves[i].max_start_v2
        }),
{
    let m = moves[i];
    let pass = crate::lookahead::pass_at(moves, i + 1, lazy);
    let j = junction_at(moves, i, lazy);
    lemma_min(m.max_start_v2, pass.reachable(m));
    match j.cruise_v2 {
        Some(v) => {
            let wanted = (pass.start_v2(m) + pass.reachable(m)) * num(crate::constants::HALF);
            lemma_min(wanted, m.max_cruise_v2);
            lemma_min(wanted.min(m.max_cruise_v2), pass.next_peak(m));
        },
        None => {
            lemma_min(cruise_at(moves, i - 1, lazy), j.start_v2);
        },
    }
    let cruise = cruise_at(moves, i, lazy);
    lemma_min(j.start_v2, cruise);
    lemma_min(j.end_v2, cruise);
}

/// Two moves agree on the speed of the junction between them.
pub proof fn neighbours_agree_on_their_junction(moves: Seq<PlanningMove>, i: int, lazy: bool)
    requires
        0 <= i,
        i + 1 < moves.len(),
    ensures
        junction_at(moves, i, lazy).end_v2 == junction_at(moves, i + 1, lazy).start_v2,
{
}

/// A junction is no faster than the moves on both sides of it.
pub proof fn junctions_stay_within_limits(
    m: PlanningMove,
    previous: PlanningMove,
    extruder_v2: Double,
)
    requires
        !m.max_cruise_v2.nan(),
        !previous.max_cruise_v2.nan(),
        m.is_kinematic_move(),
        previous.is_kinematic_move(),
    ensures
        m.joined(previous, extruder_v2).max_start_v2 <= m.max_cruise_v2,
        m.joined(previous, extruder_v2).max_start_v2 <= previous.max_cruise_v2,
        m.joined(previous, extruder_v2).max_cruise_v2 == m.max_cruise_v2,
{
    let a = extruder_v2.min(m.max_cruise_v2);
    let b = a.min(previous.max_cruise_v2);
    let c = b.min(previous.next_junction_v2);
    let limit = c.min(previous.max_start_v2 + previous.delta_v2);
    lemma_min(extruder_v2, m.max_cruise_v2);
    lemma_min(a, previous.max_cruise_v2);
    lemma_min(b, previous.next_junction_v2);
    lemma_min(c, previous.max_start_v2 + previous.delta_v2);
    assert(forall|x: Double, y: Double| !x.nan() ==> #[trigger] x.min(y) <= x && !x.min(y).nan());
}

/// A limit only ever slows a move down, and is kept.
pub proof fn limits_only_tighten(m: PlanningMove, velocity: Double, acceleration: Double)
    requires
        !m.max_cruise_v2.nan(),
        !m.acceleration.nan(),
        !acceleration.nan(),
    ensures
        m.limited(velocity, acceleration).max_cruise_v2 <= m.max_cruise_v2,
        !(velocity * velocity).nan() ==> m.limited(velocity, acceleration).max_cruise_v2 <= velocity
            * velocity,
        m.limited(velocity, acceleration).acceleration <= m.acceleration,
        m.limited(velocity, acceleration).acceleration <= acceleration,
        m.limited(velocity, acceleration).start == m.start,
        m.limited(velocity, acceleration).end == m.end,
{
    lemma_min(m.acceleration, acceleration);
}

/// The order of the two parts of a sum does not matter.
pub proof fn sums_commute(a: Double, b: Double)
    ensures
        a + b == b + a,
{
    reveal(Double::spec_add);
    if a.infinite() && b.infinite() && a.negative() == b.negative() {
        assert(a.bits == b.bits);
    }
}

/// The order of the two factors of a product does not matter.
pub proof fn products_commute(a: Double, b: Double)
    ensures
        a * b == b * a,
{
    reveal(Double::spec_mul);
    let x = units(a.magnitude());
    let y = units(b.magnitude());
    assert(x * y == y * x) by (nonlinear_arith);
}

/// The number closest to a number is that number.
pub proof fn numbers_are_nearest_to_themselves(mag: nat)
    requires
        mag < INFINITY_BITS,
    ensures
        nearest(units(mag), 1) == mag,
{
    let k = exponent_index(mag);
    let s = significand(mag);
    let n = units(mag);
    lemma_two52();
    lemma_pow2_pos(k);
    let p = pow2(k);
    assert(mag == k * HIDDEN_BIT + s);
    assert(s < 0x20_0000_0000_0000);
    assert(k > 0 ==> s >= 0x10_0000_0000_0000);
    assert(n < 0x20_0000_0000_0000 * p) by (nonlinear_arith)
        requires
            n == s * p,
            s < 0x20_0000_0000_0000,
            p > 0,
    ;
    assert(k > 0 ==> 0x10_0000_0000_0000 * p <= n) by (nonlinear_arith)
        requires
            n == s * p,
            k > 0 ==> s >= 0x10_0000_0000_0000,
            p > 0,
    ;
    lemma_scale_is(n, 1, k);
    assert(1 * p == p);
    lemma_fundamental_div_mod_converse(n as int, p as int, s as int, 0);
    assert(divide_half_even(n, p) == s);
}

pub open spec fn distance(a: int, b: int) -> int {
    if a < b {
        b - a
    } else {
        a - b
    }
}

pub proof fn lemma_scale(n: nat, d: nat)
    requires
        d > 0,
    ensures
        n < d * pow2(scale_of(n, d)) * 0x20_0000_0000_0000,
        scale_of(n, d) > 0 ==> d * pow2(scale_of(n, d)) * 0x10_0000_0000_0000 <= n,
    decreases n - d,
{
    lemma_two52();
    if n < d * 0x20_0000_0000_0000 {
        assert(d * pow2(0) == d);
    } else {
        let k = scale_of(n, 2 * d);
        lemma_scale(n, 2 * d);
        lemma_pow2_unfold(k + 1);
        let p = pow2(k);
        assert(d * pow2(k + 1) == 2 * d * p) by (nonlinear_arith)
            requires
                pow2(k + 1) == 2 * p,
        ;
        if k == 0 {
            assert(2 * d * p == 2 * d) by (nonlinear_arith)
                requires
                    p == 1,
            ;
        }
    }
}

/// The units of a magnitude, by its significand and its doublings.
pub proof fn lemma_packed_units(k: nat, q: nat)
    requires
        q <= 0x20_0000_0000_0000,
        k > 0 ==> q >= 0x10_0000_0000_0000,
    ensures
        units(k * HIDDEN_BIT as nat + q) == q * pow2(k),
{
    lemma_two52();
    let mag = k * HIDDEN_BIT as nat + q;
    if q == 0x20_0000_0000_0000 {
        assert(mag == (k + 2) * HIDDEN_BIT);
        assert(exponent_index(mag) == k + 1);
        assert(significand(mag) == HIDDEN_BIT);
        lemma_pow2_unfold(k + 1);
        let p = pow2(k);
        assert(0x10_0000_0000_0000 * (2 * p) == 0x20_0000_0000_0000 * p);
    } else if q >= 0x10_0000_0000_0000 {
        assert(mag / (HIDDEN_BIT as nat) == k + 1);
        assert(exponent_index(mag) == k);
    } else {
        assert(mag / (HIDDEN_BIT as nat) == 0);
    }
}

proof fn lemma_half_even_is_closest(n: nat, u: nat, j: int)
    requires
        u > 0,
    ensures
        distance((divide_half_even(n, u) * u) as int, n as int) <= distance(j * u, n as int),
{
    let q = n / u;
    let r = n % u;
    lemma_fundamental_div_mod(n as int, u as int);
    assert(q * u == u * q) by (nonlinear_arith);
    assert((q + 1) * u == q * u + u) by (nonlinear_arith);
    assert(j <= q ==> j * u <= q * u) by (nonlinear_arith)
        requires
            u > 0,
    ;
    assert(j >= q + 1 ==> j * u >= (q + 1) * u) by (nonlinear_arith)
        requires
            u > 0,
    ;
}

/// No number is closer to a ratio than the one that is called nearest to it.
pub proof fn nearest_is_closest(n: nat, d: nat, other: nat)
    requires
        d > 0,
        nearest(n, d) < INFINITY_BITS,
        other < INFINITY_BITS,
    ensures
        distance((units(nearest(n, d)) * d) as int, n as int) <= distance(
            (units(other) * d) as int,
            n as int,
        ),
{
    lemma_two52();
    let k = scale_of(n, d);
    let p = pow2(k);
    let u = d * p;
    let q = divide_half_even(n, u);
    lemma_pow2_pos(k);
    assert(u > 0) by (nonlinear_arith)
        requires
            u == d * p,
            d > 0,
            p > 0,
    ;
    lemma_scale(n, d);
    lemma_fundamental_div_mod(n as int, u as int);
    let whole = n / u;
    assert(whole < 0x20_0000_0000_0000) by (nonlinear_arith)
        requires
            n < u * 0x20_0000_0000_0000,
            n >= u * whole,
            u > 0,
    ;
    assert(k > 0 ==> whole >= 0x10_0000_0000_0000) by (nonlinear_arith)
        requires
            k > 0 ==> u * 0x10_0000_0000_0000 <= n,
            n < u * whole + u,
            u > 0,
    ;
    lemma_packed_units(k, q);
    assert(q * p * d == q * u) by (nonlinear_arith)
        requires
            u == d * p,
    ;
    let e = exponent_index(other);
    let s = significand(other);
    assert(s < 0x20_0000_0000_0000);
    lemma_pow2_pos(e);
    if e >= k {
        let f = pow2((e - k) as nat);
        lemma_pow2_adds((e - k) as nat, k);
        let j = s * f;
        lemma_half_even_is_closest(n, u, j as int);
        let g = pow2(e);
        assert(s * g * d == j * u) by (nonlinear_arith)
            requires
                g == f * p,
                j == s * f,
                u == d * p,
        ;
    } else {
        lemma_half_even_is_closest(n, u, 0x10_0000_0000_0000);
        lemma_pow2_unfold(k);
        let h = pow2((k - 1) as nat);
        if e < k - 1 {
            lemma_pow2_strictly_increases(e, (k - 1) as nat);
        }
        let g = pow2(e);
        assert(s * g * d <= 0x10_0000_0000_0000 * u) by (nonlinear_arith)
            requires
                s < 0x20_0000_0000_0000,
                g <= h,
                p == 2 * h,
                u == d * p,
                d > 0,
                g > 0,
        ;
    }
}

/// Adding a zero changes no number.
pub proof fn adding_zero_changes_nothing(x: Double, z: Double)
    requires
        !x.nan(),
        z.magnitude() == 0,
    ensures
        (x + z).equals(x),
{
    reveal(Double::spec_add);
    lemma_two52();
    assert(units(0) == 0) by {
        assert(significand(0) == 0);
        assert(0 * pow2(0) == 0);
    }
    if x.finite() {
        let mag = x.magnitude();
        numbers_are_nearest_to_themselves(mag);
        assert(x.value() + z.value() == x.value());
        if x.value() == 0 {
            lemma_no_units(mag);
        }
    }
}

proof fn lemma_no_units(mag: nat)
    requires
        units(mag) == 0,
        mag < INFINITY_BITS,
    ensures
        mag == 0,
{
    lemma_pow2_pos(exponent_index(mag));
    numbers_are_nearest_to_themselves(mag);
    lemma_nearest_zero(1);
}

/// A finite number times zero is zero.
pub proof fn multiples_of_zero_are_zero(x: Double, z: Double)
    requires
        x.finite(),
        z.magnitude() == 0,
    ensures
        (x * z).magnitude() == 0,
        (z * x).magnitude() == 0,
{
    reveal(Double::spec_mul);
    lemma_two52();
    assert(units(0) == 0) by {
        assert(significand(0) == 0);
        assert(0 * pow2(0) == 0);
    }
    lemma_pow2_pos(1074);
    lemma_nearest_zero(crate::double::one_units());
    let u = units(x.magnitude());
    assert(u * 0 == 0 && 0 * u == 0);
}

/// Without skew, positions stay as they are.
pub proof fn without_skew_positions_stay(p: Vec4)
    requires
        p.x.finite(),
        p.y.finite(),
        p.z.finite(),
    ensures
        ({
            let q = apply_skew(p, SkewFactors::none());
            q.x.equals(p.x) && q.y.equals(p.y) && q.z == p.z && q.w == p.w
        }),
{
    let zero = num(ZERO);
    let product = zero * zero;
    multiples_of_zero_are_zero(zero, zero);
    adding_zero_changes_nothing(zero, product.negated());
    let factor = zero - product;
    assert(factor.magnitude() == 0);
    multiples_of_zero_are_zero(p.y, zero);
    multiples_of_zero_are_zero(p.z, zero);
    multiples_of_zero_are_zero(p.z, factor);
    adding_zero_changes_nothing(p.x, (p.y * zero).negated());
    adding_zero_changes_nothing(p.x - p.y * zero, (p.z * factor).negated());
    adding_zero_changes_nothing(p.y, (p.z * zero).negated());
}

/// Without a mesh and without skew, a move ends where it was meant to end.
pub proof fn inactive_transforms_leave_paths_unchanged(t: TransformView, start: Vec4, end: Vec4)
    requires
        t.active_profile() is None,
        t.skew == SkewFactors::none(),
        end.x.finite(),
        end.y.finite(),
        end.z.finite(),
    ensures
        t.path(start, end).len() == 1,
        t.path(start, end)[0].x.equals(end.x),
        t.path(start, end)[0].y.equals(end.y),
        t.path(start, end)[0].z == end.z,
        t.path(start, end)[0].w == end.w,
{
    without_skew_positions_stay(end);
}

/// Only numbers have a finite difference.
proof fn lemma_finite_difference(a: Double, b: Double)
    requires
        (a - b).finite(),
    ensures
        a.finite(),
        b.finite(),
{
    reveal(Double::spec_add);
}

/// Equal parts give equal sums.
proof fn lemma_equal_sums(x: Double, a: Double, b: Double)
    requires
        !x.nan(),
        a.equals(b),
        a.finite(),
    ensures
        (x + a).equals(x + b),
{
    if a.magnitude() == 0 {
        adding_zero_changes_nothing(x, a);
        adding_zero_changes_nothing(x, b);
    } else {
        assert(a == b);
        lemma_sum_is_a_number(x, a);
    }
}

proof fn lemma_sum_is_a_number(x: Double, a: Double)
    requires
        !x.nan(),
        a.finite(),
    ensures
        !(x + a).nan(),
{
    reveal(Double::spec_add);
}

/// A move ends at the transformed position of its end. Where no mesh is in effect, it is led there
/// directly. At heights at which the mesh has faded out, the mesh must be finite.
pub proof fn paths_end_at_the_transformed_end(t: TransformView, start: Vec4, end: Vec4)
    requires
        !apply_skew(end, t.skew).z.nan(),
        t.active_profile() matches Some((config, profile)) ==> {
            let e = apply_skew(end, t.skew);
            fade_factor(config.fade_start, config.fade_end, e.z, t.tool_offset).equals(num(ZERO))
                ==> (profile.height_at(
                e.x + t.mesh_offsets[0],
                e.y + t.mesh_offsets[1],
            ) - faded_height(config, profile)).finite()
        },
    ensures
        ({
            let last = t.path(start, end).last();
            let goal = t.transformed(end);
            &&& t.path(start, end).len() >= 1
            &&& t.active_profile() is None ==> t.path(start, end).len() == 1
            &&& last.x == goal.x && last.y == goal.y && last.w == goal.w
            &&& last.z == goal.z || last.z.equals(goal.z)
        }),
{
    let e = apply_skew(end, t.skew);
    if let Some((config, profile)) = t.active_profile() {
        let factor = fade_factor(config.fade_start, config.fade_end, e.z, t.tool_offset);
        if factor.equals(num(ZERO)) {
            let target = faded_height(config, profile);
            let height = profile.height_at(e.x + t.mesh_offsets[0], e.y + t.mesh_offsets[1]);
            let d = height - target;
            let product = factor * d;
            assert(factor.magnitude() == 0);
            lemma_finite_difference(height, target);
            multiples_of_zero_are_zero(d, factor);
            sums_commute(product, target);
            adding_zero_changes_nothing(target, product);
            lemma_equal_sums(e.z, target, product + target);
        }
    }
}

} // verus!
