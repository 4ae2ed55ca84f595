//! What bed meshes and skew correction do to positions.

use vstd::arithmetic::div_mod::lemma_div_multiples_vanish;
use vstd::arithmetic::div_mod::lemma_mod_multiples_basic;
use vstd::prelude::*;

use crate::arc_laws::lemma_equal_sums;
use crate::double::num;
use crate::double::units;
use crate::double::Double;
use crate::double::ONE;
use crate::double::ZERO;
use crate::geometry::Vec4;
use crate::motion_laws::adding_zero_changes_nothing;
use crate::motion_laws::multiples_of_zero_are_zero;
use crate::motion_transform::apply_skew;
use crate::motion_transform::basis;
use crate::motion_transform::chosen_algorithm;
use crate::motion_transform::fade_factor;
use crate::motion_transform::is_grid;
use crate::motion_transform::lerp;
use crate::motion_transform::linear_index;
use crate::motion_transform::mesh;
use crate::motion_transform::split_points;
use crate::motion_transform::unapply_skew;
use crate::motion_transform::BedMeshConfig;
use crate::motion_transform::BedMeshProfile;
use crate::motion_transform::MeshAlgorithm;
use crate::motion_transform::SkewFactors;
use crate::motion_transform::TransformView;
use crate::order_laws::differences_are_monotone;
use crate::order_laws::lemma_value_monotone;
use crate::order_laws::numbers_over_themselves_are_one;
use crate::order_laws::quotients_are_monotone;
use crate::speed_laws::not_negative;

verus! {

proof fn lemma_multiple(i: int, m: int, n: int)
    requires
        0 <= i < n,
        m > 0,
    ensures
        (i * m) % m == 0,
        (i * m) / m == i,
        0 <= i * m < (n - 1) * m + 1,
{
    lemma_mod_multiples_basic(i, m);
    lemma_div_multiples_vanish(i, m);
    assert(m * i == i * m) by (nonlinear_arith);
    assert(0 <= i * m <= (n - 1) * m) by (nonlinear_arith)
        requires
            0 <= i <= n - 1,
            m > 0,
    ;
}

proof fn lemma_mesh(
    algorithm: MeshAlgorithm,
    points: Seq<Seq<Double>>,
    min: [Double; 2],
    max: [Double; 2],
    pps: [usize; 2],
    tension: Double,
    i: int,
    j: int,
)
    requires
        is_grid(points),
        0 <= i < points[0].len(),
        0 <= j < points.len(),
        algorithm is Direct ==> pps[0] == 0 && pps[1] == 0,
    ensures
        ({
            let grid = mesh(algorithm, points, min, max, pps, tension);
            &&& grid.len() == (points.len() - 1) * (pps[1] + 1) + 1
            &&& grid[j * (pps[1] + 1)].len() == (points[0].len() - 1) * (pps[0] + 1) + 1
            &&& grid[j * (pps[1] + 1)][i * (pps[0] + 1)] == points[j][i]
        }),
{
    let m = pps[0] + 1;
    let k = pps[1] + 1;
    lemma_multiple(i, m, points[0].len() as int);
    lemma_multiple(j, k, points.len() as int);
    assert(points[j].len() == points[0].len());
}

/// However many points are interpolated between the probed ones, a mesh passes through every
/// probed point, and has the points in between at even steps.
pub proof fn meshes_pass_through_their_probed_points(
    min: [Double; 2],
    max: [Double; 2],
    points: Seq<Seq<Double>>,
    pps: [usize; 2],
    name: Seq<char>,
    tension: Double,
    i: int,
    j: int,
)
    requires
        is_grid(points),
        0 <= i < points[0].len(),
        0 <= j < points.len(),
    ensures
        BedMeshProfile::interpolated(min, max, points, pps, name, tension) matches Some(grid) ==> {
            &&& grid.len() == (points.len() - 1) * (pps[1] + 1) + 1
            &&& grid[j * (pps[1] + 1)].len() == (points[0].len() - 1) * (pps[0] + 1) + 1
            &&& grid[j * (pps[1] + 1)][i * (pps[0] + 1)] == points[j][i]
        },
{
    match chosen_algorithm(name, points, pps) {
        Some(algorithm) => lemma_mesh(algorithm, points, min, max, pps, tension, i, j),
        None => {},
    }
}

proof fn lemma_basis(points: Seq<Double>, i: int, j: int, n: int)
    requires
        0 <= i < points.len(),
        0 <= j < points.len(),
        0 <= n <= points.len(),
        forall|k: int, l: int|
            0 <= k < points.len() && 0 <= l < points.len() ==> (#[trigger] points[k]
                - #[trigger] points[l]).finite(),
        forall|k: int| 0 <= k < points.len() ==> (#[trigger] points[k]).finite(),
        forall|k: int|
            0 <= k <= points.len() ==> (#[trigger] basis(points, points[j], i, k)).0.finite(),
    ensures
        i == j ==> basis(points, points[j], i, n).0 == basis(points, points[j], i, n).1,
        i != j && j < n ==> basis(points, points[j], i, n).0.magnitude() == 0,
    decreases n,
{
    if n > 0 {
        lemma_basis(points, i, j, n - 1);
        let before = basis(points, points[j], i, n - 1).0;
        assert(before.finite());
        if n - 1 != i {
            if n - 1 == j {
                let z = points[j] - points[j];
                assert(z.magnitude() == 0) by {
                    reveal(Double::spec_add);
                    crate::rounding::lemma_two52();
                }
                multiples_of_zero_are_zero(before, z);
            } else if i != j && j < n - 1 {
                multiples_of_zero_are_zero(points[j] - points[n - 1], before);
            }
        }
    }
}

/// Between probed points, a curve weighs every point so that it counts alone where it was probed:
/// its weight there is a number over itself, and that of any other point is nothing.
pub proof fn points_count_alone_where_they_were_probed(points: Seq<Double>, i: int, j: int)
    requires
        0 <= i < points.len(),
        0 <= j < points.len(),
        forall|k: int, l: int|
            0 <= k < points.len() && 0 <= l < points.len() ==> (#[trigger] points[k]
                - #[trigger] points[l]).finite(),
        forall|k: int| 0 <= k < points.len() ==> (#[trigger] points[k]).finite(),
        forall|k: int|
            0 <= k <= points.len() ==> (#[trigger] basis(points, points[j], i, k)).0.finite(),
    ensures
        ({
            let (n, d) = basis(points, points[j], i, points.len() as int);
            &&& i == j ==> n == d
            &&& i != j ==> n.magnitude() == 0
        }),
{
    lemma_basis(points, i, j, points.len() as int);
}

proof fn lemma_level(t: Double, h: Double)
    requires
        h.finite(),
        t.finite(),
    ensures
        lerp(t, h, h).equals(h),
{
    assert((h - h).magnitude() == 0) by {
        reveal(Double::spec_add);
        crate::rounding::lemma_two52();
    }
    multiples_of_zero_are_zero(t, h - h);
    adding_zero_changes_nothing(h, (h - h) * t);
}

proof fn lemma_start(t: Double, a: Double, b: Double)
    requires
        a.finite(),
        (b - a).finite(),
        t.magnitude() == 0,
    ensures
        lerp(t, a, b).equals(a),
{
    multiples_of_zero_are_zero(b - a, t);
    adding_zero_changes_nothing(a, (b - a) * t);
}

proof fn lemma_before(value: Double, min: Double, max: Double, count: usize)
    requires
        count >= 2,
        value.finite(),
        min.finite(),
        value <= min,
        ((max - min) / Double::from_u64((count - 1) as u64)).finite(),
        (max - min) / Double::from_u64((count - 1) as u64) > num(ZERO),
    ensures
        linear_index(value, min, max, count).0.magnitude() == 0,
        linear_index(value, min, max, count).1 == 0,
{
    crate::rounding::lemma_two52();
    let distance = (max - min) / Double::from_u64((count - 1) as u64);
    let below = value - min;
    let raw = (below / distance).floor();
    lemma_not_above(value, min);
    lemma_share(below, distance);
    assert(raw.max(num(ZERO)).magnitude() == 0 || raw.max(num(ZERO)) == num(ZERO));
    let top = Double::from_u64((count - 2) as u64);
    let kept = raw.max(num(ZERO)).min(top);
    assert(kept.to_u64() == 0) by {
        reveal(Double::as_integer);
        reveal(Double::of_integer);
        crate::order_laws::lemma_some_units(1);
        vstd::arithmetic::power2::lemma_pow2_pos(1074);
        vstd::arithmetic::div_mod::lemma_basic_div(0, crate::double::one_units() as int);
        crate::speed_laws::rounding_is_monotone(
            (count - 2) as nat * crate::double::one_units(),
            (count - 2) as nat * crate::double::one_units(),
            1,
        );
    }
    let nothing = distance * Double::from_u64(0);
    assert(Double::from_u64(0).magnitude() == 0) by {
        reveal(Double::of_integer);
        assert(0 * crate::double::one_units() == 0);
        crate::rounding::lemma_nearest_zero(1);
    }
    multiples_of_zero_are_zero(distance, Double::from_u64(0));
    adding_zero_changes_nothing(min, nothing);
    let start = min + nothing;
    lemma_not_above(value, start);
    lemma_share(value - start, distance);
}

proof fn lemma_not_above(a: Double, b: Double)
    requires
        a.finite(),
        b.finite(),
        a <= b,
    ensures
        a - b <= num(ZERO),
{
    crate::rounding::lemma_two52();
    assert(!(a - b).nan() && !(b - b).nan() && (b - b).magnitude() == 0) by {
        reveal(Double::spec_add);
        let v = a.value() + b.negated().value();
        crate::speed_laws::rounding_is_monotone(
            crate::double::magnitude_of(v),
            crate::double::magnitude_of(v),
            1,
        );
    }
    crate::order_laws::sums_are_monotone(a, b, b.negated());
}

proof fn lemma_share(a: Double, b: Double)
    requires
        a <= num(ZERO),
        b.finite(),
        b > num(ZERO),
    ensures
        a / b <= num(ZERO),
        (a / b).floor() <= num(ZERO),
{
    reveal(Double::over);
    reveal(Double::rounded_down);
    crate::rounding::lemma_two52();
    crate::order_laws::lemma_some_units(b.magnitude());
    crate::order_laws::lemma_some_units(1);
    let n = units(a.magnitude()) * crate::double::one_units();
    crate::speed_laws::rounding_is_monotone(n, n, units(b.magnitude()));
    if a.magnitude() == 0 {
        assert(n == 0) by (nonlinear_arith)
            requires
                n == 0 * crate::double::one_units(),
        ;
        crate::rounding::lemma_nearest_zero(units(b.magnitude()));
    }
    let q = a / b;
    if q.finite() {
        crate::whole_laws::numbers_round_down(q);
        crate::order_laws::lemma_value_monotone(q, num(ZERO));
        if q.floor() > num(ZERO) {
            lemma_strict(num(ZERO), q.floor());
        }
    }
}

proof fn lemma_near(a: Double, b: Double, c: Double, d: Double)
    requires
        a.equals(c),
        b.equals(d),
        c.finite(),
        d.finite(),
        (c - d).finite(),
    ensures
        a.finite(),
        b.finite(),
        (a - b).finite(),
{
    crate::rounding::lemma_two52();
    lemma_equal_sums(a, c, b.negated());
    lemma_equal_sums(b.negated(), d.negated(), c);
    crate::motion_laws::sums_commute(c, b.negated());
    crate::motion_laws::sums_commute(c, d.negated());
}

/// Before its first corner a mesh has the height of that corner.
pub proof fn meshes_begin_at_their_first_corner(profile: BedMeshProfile, x: Double, y: Double)
    requires
        profile.valid(),
        profile.grid()[0].len() <= usize::MAX,
        profile.grid().len() <= usize::MAX,
        x.finite(),
        y.finite(),
        profile.min[0].finite(),
        profile.min[1].finite(),
        x <= profile.min[0],
        y <= profile.min[1],
        ({
            let g = profile.grid();
            let a = (profile.max[0] - profile.min[0]) / Double::from_u64((g[0].len() - 1) as u64);
            let b = (profile.max[1] - profile.min[1]) / Double::from_u64((g.len() - 1) as u64);
            &&& a.finite() && a > num(ZERO)
            &&& b.finite() && b > num(ZERO)
            &&& (g[0][1] - g[0][0]).finite()
            &&& (g[1][1] - g[1][0]).finite()
            &&& (g[1][0] - g[0][0]).finite()
        }),
    ensures
        profile.height_at(x, y).equals(profile.grid()[0][0]),
{
    let g = profile.grid();
    let columns = g[0].len() as usize;
    let rows = g.len() as usize;
    assert(g[1].len() == g[0].len());
    assert(g[0][0].finite() && g[0][1].finite() && g[1][0].finite() && g[1][1].finite());
    lemma_before(x, profile.min[0], profile.max[0], columns);
    lemma_before(y, profile.min[1], profile.max[1], rows);
    let tx = linear_index(x, profile.min[0], profile.max[0], columns).0;
    let ty = linear_index(y, profile.min[1], profile.max[1], rows).0;
    lemma_start(tx, g[0][0], g[0][1]);
    lemma_start(tx, g[1][0], g[1][1]);
    let a = lerp(tx, g[0][0], g[0][1]);
    let b = lerp(tx, g[1][0], g[1][1]);
    lemma_near(b, a, g[1][0], g[0][0]);
    lemma_start(ty, a, b);
}

/// A level mesh has its height everywhere.
pub proof fn level_meshes_are_level(profile: BedMeshProfile, x: Double, y: Double, h: Double)
    requires
        profile.valid(),
        profile.grid()[0].len() <= usize::MAX,
        profile.grid().len() <= usize::MAX,
        forall|j: int, i: int|
            0 <= j < profile.grid().len() && 0 <= i < profile.grid()[j].len() ==> (
            #[trigger] profile.grid()[j][i]) == h,
        linear_index(x, profile.min[0], profile.max[0], profile.grid()[0].len() as usize).0.finite(),
        linear_index(y, profile.min[1], profile.max[1], profile.grid().len() as usize).0.finite(),
    ensures
        profile.height_at(x, y).equals(h),
{
    let g = profile.grid();
    let (tx, xi) = linear_index(x, profile.min[0], profile.max[0], g[0].len() as usize);
    let (ty, yi) = linear_index(y, profile.min[1], profile.max[1], g.len() as usize);
    assert(g[yi as int].len() == g[0].len() && g[yi + 1].len() == g[0].len());
    assert(g[yi as int][xi as int] == h && g[yi as int][xi + 1] == h);
    assert(g[yi + 1][xi as int] == h && g[yi + 1][xi + 1] == h);
    assert(g[0][0].finite());
    crate::rounding::lemma_two52();
    lemma_level(tx, h);
    lemma_level(ty, lerp(tx, h, h));
}

/// A mesh applies in full below the height at which it begins to fade, and not at all from the
/// height on at which it has faded. In between, less of it applies the higher the tool is.
pub proof fn meshes_fade_with_height(
    start: Double,
    end: Double,
    low: Double,
    high: Double,
    offset: Double,
)
    requires
        start.finite(),
        end.finite(),
        (end - start).finite(),
        (low + offset).finite(),
        (high + offset).finite(),
        low + offset <= high + offset,
    ensures
        end <= start ==> fade_factor(start, end, low, offset) == num(ONE),
        start < end && low + offset <= start && start <= low + offset ==> fade_factor(
            start,
            end,
            low,
            offset,
        ) == num(ONE),
        low + offset < start ==> fade_factor(start, end, low, offset) == num(ONE),
        start < end && low + offset >= end ==> fade_factor(start, end, low, offset) == num(ZERO),
        fade_factor(start, end, high, offset) <= fade_factor(start, end, low, offset),
        num(ZERO) <= fade_factor(start, end, high, offset),
        fade_factor(start, end, low, offset) <= num(ONE),
{
    let a = low + offset;
    let b = high + offset;
    let span = end - start;
    if start < end {
        lemma_gap(start, end);
        numbers_over_themselves_are_one(span);
        if a >= start && a < end {
            lemma_fade(start, end, a);
        }
        if b >= start && b < end {
            lemma_fade(start, end, b);
        }
        if a >= start && b < end {
            lemma_gap(a, end);
            lemma_gap(b, end);
            differences_are_monotone(a, b, end);
            quotients_are_monotone(end - b, end - a, span);
        }
        if a <= start && start <= a {
            assert(end - a == span) by {
                lemma_same_difference(end, start, a);
            }
        }
    }
}

proof fn lemma_same_difference(x: Double, a: Double, b: Double)
    requires
        x.finite(),
        a.finite(),
        b.finite(),
        a <= b,
        b <= a,
        a < x,
    ensures
        x - a == x - b,
{
    reveal(Double::spec_add);
    lemma_value_monotone(a, b);
    lemma_value_monotone(b, a);
    lemma_gap(a, x);
}

proof fn lemma_gap(a: Double, b: Double)
    requires
        a.finite(),
        b.finite(),
        a < b,
    ensures
        b - a > num(ZERO),
        b.value() - a.value() > 0,
        not_negative(b - a),
{
    reveal(Double::spec_add);
    crate::rounding::lemma_two52();
    crate::order_laws::lemma_value_monotone(a, b);
    lemma_strict(a, b);
    let v = b.value() - a.value();
    crate::order_laws::lemma_some_units(1);
    crate::motion_laws::numbers_are_nearest_to_themselves(1);
    crate::speed_laws::rounding_is_monotone(1, v as nat, 1);
}

proof fn lemma_strict(a: Double, b: Double)
    requires
        a.finite(),
        b.finite(),
        a < b,
    ensures
        a.value() < b.value(),
{
    crate::order_laws::lemma_value_monotone(a, b);
    crate::order_laws::lemma_some_units(1);
    if a.value() == b.value() {
        lemma_distinct(a.magnitude(), b.magnitude());
        if a.magnitude() > 0 {
            crate::order_laws::lemma_some_units(a.magnitude());
        }
        if b.magnitude() > 0 {
            crate::order_laws::lemma_some_units(b.magnitude());
        }
    }
}

proof fn lemma_distinct(a: nat, b: nat)
    requires
        a < crate::rounding::INFINITY_BITS,
        b < crate::rounding::INFINITY_BITS,
        crate::double::units(a) == crate::double::units(b),
    ensures
        a == b,
{
    crate::motion_laws::numbers_are_nearest_to_themselves(a);
    crate::motion_laws::numbers_are_nearest_to_themselves(b);
}

proof fn lemma_fade(start: Double, end: Double, z: Double)
    requires
        start.finite(),
        end.finite(),
        (end - start).finite(),
        z.finite(),
        start < end,
        start <= z,
        z < end,
    ensures
        not_negative((end - z) / (end - start)),
        !((end - z) / (end - start)).nan(),
        num(ZERO) <= (end - z) / (end - start),
        (end - z) / (end - start) <= num(ONE),
{
    lemma_gap(start, end);
    lemma_gap(z, end);
    differences_are_monotone(start, z, end);
    numbers_over_themselves_are_one(end - start);
    reveal(Double::over);
    crate::rounding::lemma_two52();
    assert(!((end - z) / (end - start)).nan());
    quotients_are_monotone(end - z, end - start, end - start);
}

/// Neither a mesh nor a skew moves filament, and a mesh moves a point up or down only. Where the
/// mesh has faded, points are raised by the height at which it fades; where it applies in full,
/// by the height of the mesh.
pub proof fn meshes_move_points_up_and_down(
    v: TransformView,
    config: BedMeshConfig,
    profile: BedMeshProfile,
    position: Vec4,
)
    requires
        v.active_profile() == Some((config, profile)),
    ensures
        v.transformed(position).x == apply_skew(position, v.skew).x,
        v.transformed(position).y == apply_skew(position, v.skew).y,
        v.transformed(position).w == position.w,
        ({
            let height = profile.height_at(
                apply_skew(position, v.skew).x + v.mesh_offsets[0],
                apply_skew(position, v.skew).y + v.mesh_offsets[1],
            );
            config.fade_end <= config.fade_start && height.finite() && height.magnitude() > 0
                ==> v.transformed(position).z == position.z + height
        }),
        ({
            let height = profile.height_at(
                apply_skew(position, v.skew).x + v.mesh_offsets[0],
                apply_skew(position, v.skew).y + v.mesh_offsets[1],
            );
            let target = match config.fade_target {
                Some(target) => target,
                None => profile.mean(),
            };
            config.fade_start < config.fade_end && position.z + v.tool_offset >= config.fade_end
                && (height - target).finite() && target.finite() && target.magnitude() > 0
                ==> v.transformed(position).z == position.z + target
        }),
{
    let p = apply_skew(position, v.skew);
    let height = profile.height_at(p.x + v.mesh_offsets[0], p.y + v.mesh_offsets[1]);
    if config.fade_end <= config.fade_start && height.finite() && height.magnitude() > 0 {
        let d = height - num(ZERO);
        adding_zero_changes_nothing(height, num(ZERO).negated());
        lemma_same(d, height);
        crate::right_angle_laws::ones_change_nothing(height);
        crate::motion_laws::products_commute(num(ONE), height);
        adding_zero_changes_nothing(height, num(ZERO));
        lemma_same(height + num(ZERO), height);
    }
    let target = match config.fade_target {
        Some(target) => target,
        None => profile.mean(),
    };
    if config.fade_start < config.fade_end && position.z + v.tool_offset >= config.fade_end && (
    height - target).finite() && target.finite() && target.magnitude() > 0 {
        let nothing = num(ZERO) * (height - target);
        lemma_nothing(num(ZERO), height - target);
        adding_zero_changes_nothing(target, nothing);
        crate::motion_laws::sums_commute(target, nothing);
        lemma_same(nothing + target, target);
    }
}

proof fn lemma_same(a: Double, b: Double)
    requires
        a.equals(b),
        b.finite(),
        b.magnitude() > 0,
    ensures
        a == b,
{
}

/// Skew correction leaves heights and filament as they are. At the height zero it moves points
/// along X alone, and the points of the X axis stay where they are.
pub proof fn skew_moves_points_sideways(p: Vec4, f: SkewFactors)
    requires
        !p.x.nan(),
        !p.y.nan(),
        f.xy.finite(),
        f.xz.finite(),
        f.yz.finite(),
        (f.xz - f.xy * f.yz).finite(),
    ensures
        apply_skew(p, f).z == p.z,
        apply_skew(p, f).w == p.w,
        unapply_skew(p, f).z == p.z,
        unapply_skew(p, f).w == p.w,
        p.z.magnitude() == 0 ==> apply_skew(p, f).y.equals(p.y) && unapply_skew(p, f).y.equals(
            p.y,
        ),
        p.z.magnitude() == 0 && p.y.magnitude() == 0 ==> apply_skew(p, f).x.equals(p.x)
            && unapply_skew(p, f).x.equals(p.x),
{
    if p.z.magnitude() == 0 {
        lemma_nothing(p.z, f.yz);
        adding_zero_changes_nothing(p.y, (p.z * f.yz).negated());
        adding_zero_changes_nothing(p.y, p.z * f.yz);
        if p.y.magnitude() == 0 {
            let g = f.xz - f.xy * f.yz;
            lemma_nothing(p.y, f.xy);
            lemma_nothing(p.z, f.xz);
            lemma_nothing(p.z, g);
            let a = p.x - p.y * f.xy;
            adding_zero_changes_nothing(p.x, (p.y * f.xy).negated());
            adding_zero_changes_nothing(a, (p.z * g).negated());
            adding_zero_changes_nothing(p.y * f.xy, p.z * f.xz);
            adding_zero_changes_nothing(p.x, p.y * f.xy + p.z * f.xz);
        }
    }
}

proof fn lemma_nothing(z: Double, x: Double)
    requires
        z.magnitude() == 0,
        x.finite(),
    ensures
        (z * x).magnitude() == 0,
{
    multiples_of_zero_are_zero(x, z);
    crate::motion_laws::products_commute(x, z);
}

/// The point at some distance along a straight line.
pub open spec fn along(start: Vec4, end: Vec4, at: Double) -> Vec4 {
    let delta = end.minus(start);
    start.plus(delta.times(at / delta.xyz().length()))
}

/// The point at some distance along a straight line, raised by the mesh there.
pub open spec fn raised(
    v: TransformView,
    config: BedMeshConfig,
    profile: BedMeshProfile,
    factor: Double,
    start: Vec4,
    end: Vec4,
    at: Double,
) -> Vec4 {
    let flat = along(start, end, at);
    Vec4 { z: flat.z + v.mesh_offset(config, profile, factor, flat), ..flat }
}

/// Whether a point is that of a straight line between its ends, raised by the mesh.
pub open spec fn on_the_way(
    v: TransformView,
    config: BedMeshConfig,
    profile: BedMeshProfile,
    factor: Double,
    start: Vec4,
    end: Vec4,
    p: Vec4,
) -> bool {
    exists|at: Double|
        num(ZERO) < at && at < end.minus(start).xyz().length() && p == #[trigger] raised(
            v,
            config,
            profile,
            factor,
            start,
            end,
            at,
        )
}

proof fn lemma_on_the_way(
    v: TransformView,
    config: BedMeshConfig,
    profile: BedMeshProfile,
    factor: Double,
    start: Vec4,
    end: Vec4,
    checked: Double,
    last_offset: Double,
    k: int,
)
    requires
        num(ZERO) <= checked,
        0 <= k < split_points(
            v,
            config,
            profile,
            factor,
            start,
            end.minus(start),
            end.minus(start).xyz().length(),
            checked,
            last_offset,
        ).len(),
    ensures
        on_the_way(
            v,
            config,
            profile,
            factor,
            start,
            end,
            split_points(
                v,
                config,
                profile,
                factor,
                start,
                end.minus(start),
                end.minus(start).xyz().length(),
                checked,
                last_offset,
            )[k],
        ),
    decreases end.minus(start).xyz().length().rank() - checked.rank(),
{
    let delta = end.minus(start);
    let distance = delta.xyz().length();
    let next = checked + config.move_check_distance;
    let position = start.plus(delta.times(next / distance));
    let offset = v.mesh_offset(config, profile, factor, position);
    if (offset - last_offset).abs() >= config.split_delta_z {
        if k == 0 {
            assert(raised(v, config, profile, factor, start, end, next) == (Vec4 {
                z: position.z + offset,
                ..position
            }));
        } else {
            lemma_on_the_way(v, config, profile, factor, start, end, next, offset, k - 1);
        }
    } else {
        lemma_on_the_way(v, config, profile, factor, start, end, next, last_offset, k);
    }
}

/// A move over a mesh follows its straight line, raised at every point by the height of the mesh
/// there, as much of it as applies at the end of the move.
pub proof fn moves_follow_the_mesh(
    v: TransformView,
    config: BedMeshConfig,
    profile: BedMeshProfile,
    from: Vec4,
    to: Vec4,
    k: int,
)
    requires
        v.active_profile() == Some((config, profile)),
        0 <= k < v.path(from, to).len() - 1,
    ensures
        ({
            let start = apply_skew(from, v.skew);
            let end = apply_skew(to, v.skew);
            let factor = fade_factor(config.fade_start, config.fade_end, end.z, v.tool_offset);
            on_the_way(v, config, profile, factor, start, end, v.path(from, to)[k])
        }),
{
    let start = apply_skew(from, v.skew);
    let end = apply_skew(to, v.skew);
    let factor = fade_factor(config.fade_start, config.fade_end, end.z, v.tool_offset);
    crate::rounding::lemma_two52();
    lemma_on_the_way(
        v,
        config,
        profile,
        factor,
        start,
        end,
        num(ZERO),
        v.mesh_offset(config, profile, factor, start),
        k,
    );
}

/// Whether the mesh has one height along a straight line, but for its end.
pub open spec fn level_along(
    v: TransformView,
    config: BedMeshConfig,
    profile: BedMeshProfile,
    factor: Double,
    start: Vec4,
    end: Vec4,
    height: Double,
) -> bool {
    &&& height.finite()
    &&& v.mesh_offset(config, profile, factor, start) == height
    &&& forall|at: Double|
        num(ZERO) < at && at < end.minus(start).xyz().length() ==> v.mesh_offset(
            config,
            profile,
            factor,
            #[trigger] along(start, end, at),
        ) == height
}

proof fn lemma_unsplit(
    v: TransformView,
    config: BedMeshConfig,
    profile: BedMeshProfile,
    factor: Double,
    start: Vec4,
    end: Vec4,
    checked: Double,
    height: Double,
)
    requires
        config.split_delta_z > num(ZERO),
        num(ZERO) <= checked,
        level_along(v, config, profile, factor, start, end, height),
    ensures
        split_points(
            v,
            config,
            profile,
            factor,
            start,
            end.minus(start),
            end.minus(start).xyz().length(),
            checked,
            height,
        ).len() == 0,
    decreases end.minus(start).xyz().length().rank() - checked.rank(),
{
    let next = checked + config.move_check_distance;
    if next < end.minus(start).xyz().length() && checked < next {
        let p = along(start, end, next);
        assert(v.mesh_offset(config, profile, factor, p) == height);
        assert(!((height - height).abs() >= config.split_delta_z)) by {
            reveal(Double::spec_add);
            crate::rounding::lemma_two52();
        }
        lemma_unsplit(v, config, profile, factor, start, end, next, height);
    }
}

/// A move stays in one piece where the mesh is level along it.
pub proof fn level_meshes_split_no_moves(
    v: TransformView,
    config: BedMeshConfig,
    profile: BedMeshProfile,
    from: Vec4,
    to: Vec4,
    height: Double,
)
    requires
        v.active_profile() == Some((config, profile)),
        config.split_delta_z > num(ZERO),
        level_along(
            v,
            config,
            profile,
            fade_factor(
                config.fade_start,
                config.fade_end,
                apply_skew(to, v.skew).z,
                v.tool_offset,
            ),
            apply_skew(from, v.skew),
            apply_skew(to, v.skew),
            height,
        ),
    ensures
        v.path(from, to).len() == 1,
{
    let start = apply_skew(from, v.skew);
    let end = apply_skew(to, v.skew);
    let factor = fade_factor(config.fade_start, config.fade_end, end.z, v.tool_offset);
    crate::rounding::lemma_two52();
    lemma_unsplit(v, config, profile, factor, start, end, num(ZERO), height);
}

} // verus!
