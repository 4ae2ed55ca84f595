//! What holds of calibration whatever the order of its samples.

use vstd::arithmetic::div_mod::lemma_div_is_ordered;
use vstd::arithmetic::div_mod::lemma_fundamental_div_mod;
use vstd::arithmetic::power2::lemma2_to64;
use vstd::arithmetic::power2::lemma_pow2_adds;
use vstd::arithmetic::power2::lemma_pow2_pos;
use vstd::arithmetic::power2::pow2;
use vstd::prelude::*;
use vstd::relations::sorted_by;
use vstd::relations::total_ordering;

use crate::calibration::capped;
use crate::calibration::distances;
use crate::calibration::extreme_end;
use crate::calibration::fitted;
use crate::calibration::in_increasing_order;
use crate::calibration::number_slot;
use crate::calibration::quantile_of;
use crate::calibration::residuals_of;
use crate::calibration::squares;
use crate::calibration::CalibrationSample;
use crate::calibration::Counts;
use crate::constants::HALF;
use crate::constants::NINE_TENTHS;
use crate::constants::TENTH;
use crate::double::exponent_index;
use crate::double::num;
use crate::double::one_units;
use crate::double::signed;
use crate::double::significand;
use crate::double::units;
use crate::double::whole_part;
use crate::double::Double;
use crate::double::ONE;
use crate::double::ZERO;
use crate::motion_laws::adding_zero_changes_nothing;
use crate::motion_laws::multiples_of_zero_are_zero;
use crate::motion_laws::numbers_are_nearest_to_themselves;
use crate::motion_laws::sums_commute;
use crate::rounding::lemma_two52;
use crate::rounding::nearest;
use crate::shortest::rounding_depends_on_the_ratio;
use crate::speed_laws::lemma_units_monotone;
use crate::speed_laws::rounding_is_monotone;

verus! {

/// A total order of numbers: by their value, then by their bits.
spec fn at_most() -> spec_fn(Double, Double) -> bool {
    |a: Double, b: Double| a.rank() < b.rank() || (a.rank() == b.rank() && a.bits <= b.bits)
}

proof fn lemma_at_most()
    ensures
        total_ordering(at_most()),
{
}

/// Inserting an item adds it once.
pub proof fn lemma_inserted<A>(s: Seq<A>, k: int, x: A)
    requires
        0 <= k <= s.len(),
    ensures
        s.insert(k, x).to_multiset() == s.to_multiset().insert(x),
{
    broadcast use vstd::multiset::group_multiset_axioms;

    let a = s.take(k);
    let b = s.skip(k);
    assert(s == a + b);
    assert(s.insert(k, x) == a.push(x) + b);
    vstd::seq_lib::lemma_multiset_commutative(a, b);
    vstd::seq_lib::lemma_multiset_commutative(a.push(x), b);
    vstd::seq_lib::to_multiset_build(a, x);
    assert(a.to_multiset().insert(x).add(b.to_multiset()) =~= a.to_multiset().add(
        b.to_multiset(),
    ).insert(x));
}

proof fn lemma_slot(s: Seq<Double>, x: Double)
    ensures
        0 <= number_slot(s, x) <= s.len(),
        forall|k: int| 0 <= k < number_slot(s, x) ==> !(x < #[trigger] s[k]),
        number_slot(s, x) < s.len() ==> x < s[number_slot(s, x)],
    decreases s.len(),
{
    if s.len() > 0 && !(x < s[0]) {
        let t = s.skip(1);
        lemma_slot(t, x);
        assert forall|k: int| 0 <= k < number_slot(s, x) implies !(x < #[trigger] s[k]) by {
            if k > 0 {
                assert(t[k - 1] == s[k]);
            }
        }
        if number_slot(s, x) < s.len() {
            assert(t[number_slot(t, x)] == s[number_slot(s, x)]);
        }
    }
}

/// Whether numbers are finite and differ in value where they differ at all.
spec fn distinct_values(s: Seq<Double>) -> bool {
    &&& forall|i: int| 0 <= i < s.len() ==> (#[trigger] s[i]).finite()
    &&& forall|i: int, j: int|
        0 <= i < s.len() && 0 <= j < s.len() && (#[trigger] s[i]).equals(#[trigger] s[j]) ==> s[i]
            == s[j]
}

/// Sorting keeps the numbers and puts them in order.
proof fn lemma_sorted(s: Seq<Double>, n: int)
    requires
        distinct_values(s),
        0 <= n <= s.len(),
    ensures
        in_increasing_order(s, n).to_multiset() == s.take(n).to_multiset(),
        sorted_by(in_increasing_order(s, n), at_most()),
        forall|k: int|
            0 <= k < in_increasing_order(s, n).len() ==> s.contains(
                #[trigger] in_increasing_order(s, n)[k],
            ),
    decreases n,
{
    if n == 0 {
        assert(s.take(0) == in_increasing_order(s, 0));
    } else {
        lemma_sorted(s, n - 1);
        let prior = in_increasing_order(s, n - 1);
        let x = s[n - 1];
        let at = number_slot(prior, x);
        let all = in_increasing_order(s, n);
        lemma_slot(prior, x);
        lemma_inserted(prior, at, x);
        assert(s.take(n) == s.take(n - 1).push(x));
        vstd::seq_lib::to_multiset_build(s.take(n - 1), x);
        let leq = at_most();
        assert forall|k: int| 0 <= k < all.len() implies s.contains(#[trigger] all[k]) by {
            if k < at {
                assert(all[k] == prior[k]);
            } else if k == at {
                assert(all[k] == s[n - 1]);
            } else {
                assert(all[k] == prior[k - 1]);
            }
        }
        assert forall|i: int, j: int| 0 <= i < j < all.len() implies #[trigger] leq(
            all[i],
            all[j],
        ) by {
            if j < at {
                assert(all[i] == prior[i] && all[j] == prior[j]);
                assert(leq(prior[i], prior[j]));
            } else if i > at {
                assert(all[i] == prior[i - 1] && all[j] == prior[j - 1]);
                assert(leq(prior[i - 1], prior[j - 1]));
            } else if j == at {
                assert(all[i] == prior[i]);
                assert(s.contains(all[i]));
                let p = s.index_of(all[i]);
                assert(s[p].finite() && s[n - 1].finite());
                if all[i].rank() == x.rank() {
                    assert(s[p].equals(s[n - 1]));
                }
            } else if i == at {
                assert(all[j] == prior[j - 1]);
                if j - 1 > at {
                    assert(leq(prior[at], prior[j - 1]));
                }
            } else {
                assert(all[i] == prior[i] && all[j] == prior[j - 1]);
                assert(leq(prior[i], prior[j - 1]));
            }
        }
    }
}

proof fn lemma_residuals(a: Seq<CalibrationSample>, b: Seq<CalibrationSample>)
    requires
        a.to_multiset() == b.to_multiset(),
    ensures
        residuals_of(a).to_multiset() == residuals_of(b).to_multiset(),
    decreases a.len(),
{
    broadcast use vstd::multiset::group_multiset_axioms;
    broadcast use vstd::seq_lib::group_to_multiset_ensures;

    vstd::seq_lib::to_multiset_len(a);
    vstd::seq_lib::to_multiset_len(b);
    if a.len() == 0 {
        assert(residuals_of(a) == residuals_of(b));
    } else {
        let x = a.last();
        assert(a.contains(x));
        assert(b.to_multiset().count(x) > 0);
        let j = b.index_of(x);
        let less = a.drop_last();
        let rest = b.remove(j);
        assert(a == less.push(x));
        assert(less.push(x).to_multiset() == less.to_multiset().insert(x));
        assert(less.to_multiset() =~= a.to_multiset().remove(x));
        assert(rest.to_multiset() == b.to_multiset().remove(x));
        lemma_residuals(less, rest);
        assert(residuals_of(a) == residuals_of(less).push(x.residual));
        assert(residuals_of(b) == residuals_of(rest).insert(j, x.residual));
        lemma_inserted(residuals_of(rest), j, x.residual);
    }
}

proof fn lemma_extreme(s: Seq<CalibrationSample>, latest: bool, i: int)
    requires
        1 <= i <= s.len(),
    ensures
        exists|k: int| 0 <= k < i && (#[trigger] s[k]).end_time == extreme_end(s, latest, i),
        forall|k: int|
            0 <= k < i ==> if latest {
                (#[trigger] s[k]).end_time <= extreme_end(s, latest, i)
            } else {
                s[k].end_time >= extreme_end(s, latest, i)
            },
    decreases i,
{
    if i == 1 {
        assert(s[0].end_time == extreme_end(s, latest, 1));
    } else {
        lemma_extreme(s, latest, i - 1);
        let prior = extreme_end(s, latest, i - 1);
        let k = choose|k: int| 0 <= k < i - 1 && (#[trigger] s[k]).end_time == prior;
        assert(s[i - 1].end_time == extreme_end(s, latest, i) || s[k].end_time == extreme_end(
            s,
            latest,
            i,
        ));
    }
}

proof fn lemma_same_extreme(a: Seq<CalibrationSample>, b: Seq<CalibrationSample>, latest: bool)
    requires
        a.to_multiset() == b.to_multiset(),
        a.len() > 0,
    ensures
        b.len() == a.len(),
        extreme_end(a, latest, a.len() as int) == extreme_end(b, latest, b.len() as int),
{
    broadcast use vstd::multiset::group_multiset_axioms;
    broadcast use vstd::seq_lib::group_to_multiset_ensures;

    let n = a.len() as int;
    vstd::seq_lib::to_multiset_len(a);
    vstd::seq_lib::to_multiset_len(b);
    lemma_extreme(a, latest, n);
    lemma_extreme(b, latest, n);
    let i = choose|k: int| 0 <= k < n && (#[trigger] a[k]).end_time == extreme_end(a, latest, n);
    let j = choose|k: int| 0 <= k < n && (#[trigger] b[k]).end_time == extreme_end(b, latest, n);
    assert(a.contains(a[i]) && b.contains(b[j]));
    assert(b.to_multiset().count(a[i]) > 0);
    assert(a.to_multiset().count(b[j]) > 0);
    let p = b.index_of(a[i]);
    let q = a.index_of(b[j]);
    assert(b[p].end_time == a[i].end_time);
    assert(a[q].end_time == b[j].end_time);
}

/// A number with the sign of a zero dropped.
spec fn plain(x: Double) -> Double {
    if x.magnitude() == 0 {
        num(ZERO)
    } else {
        x
    }
}

spec fn all_plain(s: Seq<Double>) -> Seq<Double> {
    Seq::new(s.len(), |i: int| plain(s[i]))
}

/// Whether all numbers are finite.
pub open spec fn all_finite(s: Seq<Double>) -> bool {
    forall|i: int| 0 <= i < s.len() ==> (#[trigger] s[i]).finite()
}

/// Whether numbers stand in increasing order.
pub open spec fn ranked(s: Seq<Double>) -> bool {
    forall|i: int, j: int| 0 <= i <= j < s.len() ==> (#[trigger] s[i]).rank() <= (#[trigger] s[j]).rank()
}

/// Plain numbers that are equal are the same.
proof fn lemma_plain(s: Seq<Double>)
    requires
        all_finite(s),
    ensures
        distinct_values(all_plain(s)),
{
    lemma_two52();
    let t = all_plain(s);
    assert forall|i: int| 0 <= i < t.len() implies (#[trigger] t[i]).finite() by {
        assert(s[i].finite());
    }
    assert forall|i: int, j: int|
        0 <= i < t.len() && 0 <= j < t.len() && (#[trigger] t[i]).equals(
            #[trigger] t[j],
        ) implies t[i] == t[j] by {
        assert(s[i].finite() && s[j].finite());
    }
}

/// The sign of a zero does not change where a number belongs.
proof fn lemma_plain_slot(s: Seq<Double>, x: Double)
    ensures
        number_slot(all_plain(s), plain(x)) == number_slot(s, x),
    decreases s.len(),
{
    lemma_two52();
    if s.len() > 0 {
        lemma_plain_slot(s.skip(1), x);
        assert(all_plain(s).skip(1) == all_plain(s.skip(1)));
    }
}

proof fn lemma_plain_order(s: Seq<Double>, n: int)
    requires
        0 <= n <= s.len(),
    ensures
        in_increasing_order(all_plain(s), n) == all_plain(in_increasing_order(s, n)),
    decreases n,
{
    if n == 0 {
        assert(in_increasing_order(all_plain(s), n) == all_plain(in_increasing_order(s, n)));
    } else {
        lemma_plain_order(s, n - 1);
        let prior = in_increasing_order(s, n - 1);
        lemma_plain_slot(prior, s[n - 1]);
        lemma_slot(prior, s[n - 1]);
        let at = number_slot(prior, s[n - 1]);
        assert(all_plain(prior.insert(at, s[n - 1])) == all_plain(prior).insert(
            at,
            plain(s[n - 1]),
        ));
    }
}

/// Numbers in increasing order stay so without the signs of their zeros.
pub proof fn lemma_ranked(s: Seq<Double>, n: int)
    requires
        all_finite(s),
        0 <= n <= s.len(),
    ensures
        ranked(in_increasing_order(s, n)),
        all_finite(in_increasing_order(s, n)),
        in_increasing_order(s, n).len() == n,
{
    lemma_two52();
    let t = all_plain(s);
    let o = in_increasing_order(s, n);
    lemma_plain(s);
    lemma_sorted(t, n);
    lemma_plain_order(s, n);
    let c = all_plain(o);
    assert(c.len() == o.len());
    vstd::seq_lib::to_multiset_len(c);
    vstd::seq_lib::to_multiset_len(t.take(n));
    let leq = at_most();
    assert forall|i: int, j: int| 0 <= i <= j < o.len() implies (#[trigger] o[i]).rank() <= (
    #[trigger] o[j]).rank() by {
        if i < j {
            assert(leq(c[i], c[j]));
        }
    }
    assert forall|i: int| 0 <= i < o.len() implies (#[trigger] o[i]).finite() by {
        assert(t.contains(c[i]));
        let k = t.index_of(c[i]);
        assert(t[k].finite());
    }
}

proof fn lemma_no_value(z: Double)
    requires
        z.magnitude() == 0,
    ensures
        z.value() == 0,
        units(0) == 0,
{
    assert(units(0) == 0) by {
        assert(significand(0) == 0);
        assert(0 * pow2(0) == 0);
    }
}

/// A zero added to another number leaves that number.
proof fn lemma_zero_added(z: Double, x: Double)
    requires
        z.magnitude() == 0,
        !x.nan(),
        x.magnitude() > 0,
    ensures
        z + x == x,
        x + z == x,
{
    lemma_two52();
    sums_commute(z, x);
    adding_zero_changes_nothing(x, z);
}

/// The product of numbers without a sign has none.
proof fn lemma_unsigned(b: Double, f: Double)
    requires
        b.finite(),
        f.finite(),
        !b.negative(),
        !f.negative(),
    ensures
        !(b * f).nan(),
        !(b * f).negative(),
{
    reveal(Double::spec_mul);
    lemma_two52();
    lemma_pow2_pos(1074);
    let n = units(b.magnitude()) * units(f.magnitude());
    rounding_is_monotone(n, n, one_units());
}

/// Between two zeros lies the plain zero.
proof fn lemma_zeros(a: Double, b: Double, f: Double)
    requires
        a.magnitude() == 0,
        b.magnitude() == 0,
        f.finite(),
        !f.negative(),
    ensures
        a + (b - a) * f == num(ZERO),
{
    lemma_two52();
    lemma_no_value(a);
    lemma_no_value(b);
    lemma_no_value(a.negated());
    let d = b - a;
    assert(d == signed(b.negative() && !a.negative(), 0)) by {
        reveal(Double::spec_add);
    }
    let t = d * f;
    multiples_of_zero_are_zero(f, d);
    assert(t.negative() == d.negative()) by {
        reveal(Double::spec_mul);
        assert(t.magnitude() == 0);
    }
    lemma_no_value(t);
    reveal(Double::spec_add);
}

/// Between two numbers, the sign of a zero does not show.
proof fn lemma_between(a: Double, b: Double, f: Double)
    requires
        a.finite(),
        b.finite(),
        a.rank() <= b.rank(),
        f.finite(),
        !f.negative(),
    ensures
        plain(a) + (plain(b) - plain(a)) * f == a + (b - a) * f,
{
    lemma_two52();
    let zero = num(ZERO);
    if a.magnitude() == 0 && b.magnitude() == 0 {
        lemma_zeros(a, b, f);
        lemma_zeros(zero, zero, f);
    } else if a.magnitude() == 0 {
        lemma_zero_added(a.negated(), b);
        lemma_zero_added(zero.negated(), b);
        lemma_unsigned(b, f);
        let t = b * f;
        if t.magnitude() == 0 {
            reveal(Double::spec_add);
            lemma_no_value(a);
            lemma_no_value(t);
            lemma_no_value(zero);
        } else {
            lemma_zero_added(a, t);
            lemma_zero_added(zero, t);
        }
    } else if b.magnitude() == 0 {
        lemma_zero_added(b, a.negated());
        lemma_zero_added(zero, a.negated());
    }
}

/// An integer of 64 bits is a finite number.
proof fn lemma_integer(n: u64)
    ensures
        Double::from_u64(n).finite(),
        !Double::from_u64(n).negative(),
        Double::from_u64(n).magnitude() == nearest(n as nat * one_units(), 1),
{
    reveal(Double::of_integer);
    lemma_two52();
    let big = 0x43f0_0000_0000_0000nat;
    let one = one_units();
    assert(units(big) == pow2(64) * one) by {
        assert(exponent_index(big) == 1086);
        assert(significand(big) == 0x10_0000_0000_0000);
        lemma_pow2_adds(52, 1086);
        lemma_pow2_adds(64, 1074);
    }
    numbers_are_nearest_to_themselves(big);
    lemma2_to64();
    assert(n * one <= pow2(64) * one) by (nonlinear_arith)
        requires
            n <= pow2(64),
    ;
    rounding_is_monotone(n as nat * one, units(big), 1);
}

/// A part of an integer is a finite number.
proof fn lemma_position(q: u64, n: u64)
    requires
        q <= ONE,
    ensures
        (num(q) * Double::from_u64(n)).finite(),
        !(num(q) * Double::from_u64(n)).negative(),
{
    reveal(Double::spec_mul);
    lemma_two52();
    lemma_integer(n);
    let x = Double::from_u64(n);
    let one = one_units();
    let m = units(x.magnitude());
    lemma_pow2_pos(1074);
    assert(units(ONE as nat) == one) by {
        assert(exponent_index(ONE as nat) == 1022);
        assert(significand(ONE as nat) == 0x10_0000_0000_0000);
        lemma_pow2_adds(52, 1022);
    }
    lemma_units_monotone(q as nat, ONE as nat);
    let u = units(q as nat);
    assert(u * m <= m * one) by (nonlinear_arith)
        requires
            u <= one,
    ;
    rounding_is_monotone(u * m, m * one, one);
    rounding_depends_on_the_ratio(m, 1, one);
    assert(1 * one == one);
    numbers_are_nearest_to_themselves(x.magnitude());
}

/// The integers around a position: the lower one is not above it, and not above the upper one.
proof fn lemma_around(p: Double)
    requires
        p.finite(),
        !p.negative(),
    ensures
        ({
            let lower = p.floor().to_u64();
            let f = p - Double::from_u64(lower);
            &&& lower <= p.ceil().to_u64()
            &&& f.finite()
            &&& !f.negative()
        }),
{
    reveal(Double::rounded_down);
    reveal(Double::rounded_up);
    reveal(Double::as_integer);
    lemma_two52();
    lemma_pow2_pos(1074);
    let one = one_units();
    let mag = p.magnitude();
    let u = units(mag);
    let w = whole_part(mag);
    let low = nearest(w * one, 1);
    let high = nearest((w + 1) * one, 1);
    numbers_are_nearest_to_themselves(mag);
    lemma_fundamental_div_mod(u as int, one as int);
    assert(w * one <= u) by (nonlinear_arith)
        requires
            u == one * w + u % one,
            u % one >= 0,
    ;
    assert(w * one <= (w + 1) * one) by (nonlinear_arith);
    rounding_is_monotone(w * one, u, 1);
    rounding_is_monotone(w * one, (w + 1) * one, 1);
    assert(p.floor().magnitude() == low && !p.floor().negative());
    assert(p.floor().finite());
    let lower = p.floor().to_u64();
    lemma_units_monotone(low, high);
    lemma_div_is_ordered(units(low) as int, units(high) as int, one as int);
    // the lower integer, as a number
    lemma_fundamental_div_mod(units(low) as int, one as int);
    let k = whole_part(low);
    assert(lower <= k);
    assert(lower * one <= units(low)) by (nonlinear_arith)
        requires
            units(low) == one * k + units(low) % one,
            units(low) % one >= 0,
            lower <= k,
    ;
    lemma_integer(lower);
    numbers_are_nearest_to_themselves(low);
    rounding_is_monotone(lower as nat * one, units(low), 1);
    let x = Double::from_u64(lower);
    lemma_units_monotone(x.magnitude(), mag);
    reveal(Double::spec_add);
    let v = (u - units(x.magnitude())) as nat;
    rounding_is_monotone(v, u, 1);
}

/// A quantile does not depend on the signs of zeros.
proof fn lemma_quantile(s: Seq<Double>, q: u64)
    requires
        0 < s.len() <= u64::MAX,
        all_finite(s),
        ranked(s),
        q <= ONE,
    ensures
        quantile_of(all_plain(s), q) == quantile_of(s, q),
{
    let position = num(q) * Double::from_u64((s.len() - 1) as u64);
    lemma_position(q, (s.len() - 1) as u64);
    lemma_around(position);
    let lower = position.floor().to_u64();
    let i = capped(lower, s.len());
    let j = capped(position.ceil().to_u64(), s.len());
    assert(0 <= i <= j < s.len());
    assert(s[i].finite() && s[j].finite());
    lemma_between(s[i], s[j], position - Double::from_u64(lower));
}

/// How far a number lies from another one does not depend on the sign of a zero.
proof fn lemma_distance(a: Double, x: Double)
    requires
        a.finite(),
    ensures
        (plain(a) - x).abs() == (a - x).abs(),
        (plain(a) - x).squared() == (a - x).squared(),
{
    lemma_two52();
    let zero = num(ZERO);
    if a.magnitude() == 0 {
        let n = x.negated();
        if x.nan() {
            reveal(Double::spec_add);
        } else if x.magnitude() > 0 {
            lemma_zero_added(a, n);
            lemma_zero_added(zero, n);
        } else {
            reveal(Double::spec_add);
            lemma_no_value(a);
            lemma_no_value(zero);
            lemma_no_value(n);
            let s = a - x;
            let t = zero - x;
            assert(s.magnitude() == 0 && t.magnitude() == 0);
            reveal(Double::spec_mul);
        }
    }
}

proof fn lemma_squares(s: Seq<Double>, x: Double, i: int)
    requires
        0 <= i <= s.len(),
        all_finite(s),
    ensures
        squares(all_plain(s), x, i) == squares(s, x, i),
    decreases i,
{
    if i > 0 {
        lemma_squares(s, x, i - 1);
        assert(s[i - 1].finite());
        lemma_distance(s[i - 1], x);
    }
}

/// A model does not depend on the signs of residuals that are zero.
proof fn lemma_model(samples: Seq<CalibrationSample>)
    requires
        0 < samples.len() <= u64::MAX,
        all_finite(residuals_of(samples)),
    ensures
        ({
            let n = samples.len() as int;
            let s = in_increasing_order(residuals_of(samples), n);
            let t = in_increasing_order(all_plain(residuals_of(samples)), n);
            let median = quantile_of(s, HALF);
            &&& quantile_of(t, HALF) == median
            &&& quantile_of(t, TENTH) == quantile_of(s, TENTH)
            &&& quantile_of(t, NINE_TENTHS) == quantile_of(s, NINE_TENTHS)
            &&& distances(t, median) == distances(s, median)
            &&& squares(t, median, n) == squares(s, median, n)
        }),
{
    let n = samples.len() as int;
    let r = residuals_of(samples);
    let s = in_increasing_order(r, n);
    lemma_ranked(r, n);
    lemma_plain_order(r, n);
    lemma_quantile(s, HALF);
    lemma_quantile(s, TENTH);
    lemma_quantile(s, NINE_TENTHS);
    let median = quantile_of(s, HALF);
    lemma_squares(s, median, n);
    assert forall|i: int| 0 <= i < n implies (plain(#[trigger] s[i]) - median).abs() == (s[i]
        - median).abs() by {
        assert(s[i].finite());
        lemma_distance(s[i], median);
    }
    assert(distances(all_plain(s), median) == distances(s, median));
}

/// The report does not depend on the order of the samples.
pub proof fn the_order_of_samples_does_not_matter(
    a: Seq<CalibrationSample>,
    b: Seq<CalibrationSample>,
    rejected: Counts,
    configuration: Seq<char>,
    min_samples: usize,
    now: u64,
)
    requires
        a.to_multiset() == b.to_multiset(),
        a.len() <= u64::MAX,
        forall|i: int| 0 <= i < a.len() ==> (#[trigger] a[i]).residual.finite(),
    ensures
        fitted(a, rejected, configuration, min_samples, now) == fitted(
            b,
            rejected,
            configuration,
            min_samples,
            now,
        ),
{
    broadcast use vstd::multiset::group_multiset_axioms;
    broadcast use vstd::seq_lib::group_to_multiset_ensures;

    let n = a.len() as int;
    vstd::seq_lib::to_multiset_len(a);
    vstd::seq_lib::to_multiset_len(b);
    if n > 0 {
        let x = residuals_of(a);
        let y = residuals_of(b);
        lemma_residuals(a, b);
        assert(all_finite(y)) by {
            assert forall|i: int| 0 <= i < y.len() implies (#[trigger] y[i]).finite() by {
                assert(y.contains(y[i]));
                assert(x.to_multiset().count(y[i]) > 0);
                let k = x.index_of(y[i]);
                assert(x[k] == a[k].residual);
            }
        }
        assert(all_finite(x));
        let u = all_plain(x);
        let v = all_plain(y);
        lemma_plain_multiset(x, y);
        lemma_plain(x);
        lemma_plain(y);
        lemma_sorted(u, n);
        lemma_sorted(v, n);
        assert(u.take(n) == u && v.take(n) == v);
        lemma_at_most();
        vstd::seq_lib::lemma_sorted_unique(
            in_increasing_order(u, n),
            in_increasing_order(v, n),
            at_most(),
        );
        lemma_model(a);
        lemma_model(b);
        lemma_same_extreme(a, b, true);
        lemma_same_extreme(a, b, false);
    }
}

proof fn lemma_plain_multiset(a: Seq<Double>, b: Seq<Double>)
    requires
        a.to_multiset() == b.to_multiset(),
    ensures
        all_plain(a).to_multiset() == all_plain(b).to_multiset(),
    decreases a.len(),
{
    broadcast use vstd::multiset::group_multiset_axioms;
    broadcast use vstd::seq_lib::group_to_multiset_ensures;

    vstd::seq_lib::to_multiset_len(a);
    vstd::seq_lib::to_multiset_len(b);
    if a.len() == 0 {
        assert(all_plain(a) == all_plain(b));
    } else {
        let x = a.last();
        assert(a.contains(x));
        assert(b.to_multiset().count(x) > 0);
        let j = b.index_of(x);
        let less = a.drop_last();
        let rest = b.remove(j);
        assert(a == less.push(x));
        assert(less.push(x).to_multiset() == less.to_multiset().insert(x));
        assert(less.to_multiset() =~= a.to_multiset().remove(x));
        assert(rest.to_multiset() == b.to_multiset().remove(x));
        lemma_plain_multiset(less, rest);
        assert(all_plain(a) == all_plain(less).push(plain(x)));
        assert(all_plain(b) == all_plain(rest).insert(j, plain(x)));
        lemma_inserted(all_plain(rest), j, plain(x));
    }
}

} // verus!
