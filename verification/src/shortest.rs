//! The shortest notation of a number that reads as that number.

use vstd::arithmetic::div_mod::lemma_div_denominator;
use vstd::arithmetic::div_mod::lemma_fundamental_div_mod;
use vstd::arithmetic::power2::lemma_pow2_adds;
use vstd::arithmetic::power2::lemma_pow2_pos;
use vstd::arithmetic::power2::lemma_pow2_strictly_increases;
use vstd::arithmetic::power2::lemma_pow2_unfold;
use vstd::arithmetic::power2::pow2;
use vstd::prelude::*;

use crate::big::big;
use crate::big::divide_by_ten;
use crate::big::from_u32;
use crate::big::is_zero;
use crate::big::scale;
use crate::decimal::big_decimal;
use crate::decimal::decimal_bits;
use crate::decimal::last_digits;
use crate::decimal::lemma_nearest_huge;
use crate::decimal::lemma_pow10_adds;
use crate::decimal::lemma_pow10_bounds;
use crate::decimal::lemma_pow10_monotone;
use crate::decimal::lemma_pow10_pos;
use crate::decimal::nearest_decimal;
use crate::decimal::pow10;
use crate::decimal::with_point;
use crate::double::exponent_index;
use crate::double::magnitude_bits;
use crate::double::one_units;
use crate::double::parts;
use crate::double::significand;
use crate::double::units;
use crate::double::Double;
use crate::double::SIGN_BIT;
use crate::motion_laws::lemma_scale;
use crate::motion_laws::numbers_are_nearest_to_themselves;
use crate::rounding::lemma_divide_scaled;
use crate::rounding::lemma_nearest_zero;
use crate::rounding::lemma_scale_is;
use crate::rounding::lemma_two52;
use crate::rounding::nearest;
use crate::rounding::scale_of;
use crate::rounding::INFINITY_BITS;
use crate::speed_laws::rounding_is_monotone;
use crate::text::decimal;

verus! {

/// `5^k`.
pub open spec fn pow5(k: nat) -> nat
    decreases k,
{
    if k == 0 {
        1
    } else {
        5 * pow5((k - 1) as nat)
    }
}

/// How often `10^-1074` goes into a magnitude, which it does exactly: a unit is
/// `2^-1074 == 5^1074 * 10^-1074`.
pub open spec fn expanded(mag: nat) -> nat {
    units(mag) * pow5(1074)
}

/// How often `10^(k - 1074)` goes into a magnitude.
pub open spec fn cut(mag: nat, k: nat) -> nat {
    expanded(mag) / pow10(k)
}

/// Whether `n * 10^(k - 1074)` reads as the magnitude.
pub open spec fn reads_as(n: nat, k: nat, mag: nat) -> bool {
    nearest_decimal(n, k - 1074) == mag
}

/// Whether the magnitude can be told in multiples of `10^(k - 1074)`.
pub open spec fn tellable(mag: nat, k: nat) -> bool {
    reads_as(cut(mag, k), k, mag) || reads_as(cut(mag, k) + 1, k, mag)
}

/// The number of digits that can be left out, from `k` on.
pub open spec fn dropped(mag: nat, k: nat) -> nat
    decreases 1800 - k,
{
    if k < 1800 && tellable(mag, k + 1) {
        dropped(mag, k + 1)
    } else {
        k
    }
}

/// The digits that are left when `k` are left out: of the two multiples around the magnitude the
/// closer one, if both read as the magnitude.
pub open spec fn told(mag: nat, k: nat) -> nat {
    let below = cut(mag, k);
    let close = k == 0 || cut(mag, (k - 1) as nat) % 10 < 5;
    if reads_as(below, k, mag) && (close || !reads_as(below + 1, k, mag)) {
        below
    } else {
        below + 1
    }
}

/// The notation of `n * 10^(k - 1074)`.
pub open spec fn notation(n: nat, k: nat) -> Seq<char> {
    if k >= 1074 {
        decimal(n) + Seq::new((k - 1074) as nat, |i: int| '0')
    } else {
        with_point(n, (1074 - k) as nat)
    }
}

/// The shortest notation of a number: as many digits as it takes to read as that number again.
pub open spec fn shortest(x: Double) -> Seq<char> {
    if x.nan() {
        "NaN"@
    } else {
        let mag = x.magnitude();
        let body = if x.infinite() {
            "inf"@
        } else if mag == 0 {
            "0"@
        } else {
            notation(told(mag, dropped(mag, 0)), dropped(mag, 0))
        };
        if x.negative() {
            seq!['-'] + body
        } else {
            body
        }
    }
}

/// Rounding depends on the ratio alone.
pub proof fn rounding_depends_on_the_ratio(n: nat, d: nat, c: nat)
    requires
        d > 0,
        c > 0,
    ensures
        nearest(n * c, d * c) == nearest(n, d),
{
    let k = scale_of(n, d);
    let p = pow2(k);
    lemma_scale(n, d);
    lemma_pow2_pos(k);
    assert(d * c > 0) by (nonlinear_arith)
        requires
            d > 0,
            c > 0,
    ;
    assert(n * c < d * c * p * 0x20_0000_0000_0000) by (nonlinear_arith)
        requires
            n < d * p * 0x20_0000_0000_0000,
            c > 0,
    ;
    if k > 0 {
        assert(d * c * p * 0x10_0000_0000_0000 <= n * c) by (nonlinear_arith)
            requires
                d * p * 0x10_0000_0000_0000 <= n,
                c > 0,
        ;
    }
    assert(n * c < d * c * 0x20_0000_0000_0000 * p) by (nonlinear_arith)
        requires
            n * c < d * c * p * 0x20_0000_0000_0000,
    ;
    if k > 0 {
        assert(d * c * 0x10_0000_0000_0000 * p <= n * c) by (nonlinear_arith)
            requires
                d * c * p * 0x10_0000_0000_0000 <= n * c,
        ;
    }
    lemma_scale_is(n * c, d * c, k);
    assert(d * p > 0) by (nonlinear_arith)
        requires
            d > 0,
            p > 0,
    ;
    lemma_divide_scaled(n, d * p, c);
    assert((d * p) * c == d * c * p) by (nonlinear_arith);
}

proof fn lemma_pow5_pos(k: nat)
    ensures
        pow5(k) > 0,
    decreases k,
{
    if k > 0 {
        lemma_pow5_pos((k - 1) as nat);
    }
}

proof fn lemma_tens(k: nat)
    ensures
        pow10(k) == pow2(k) * pow5(k),
    decreases k,
{
    lemma_two52();
    if k > 0 {
        let h = (k - 1) as nat;
        lemma_tens(h);
        lemma_pow2_unfold(k);
        let a = pow2(h);
        let b = pow5(h);
        assert(10 * (a * b) == (2 * a) * (5 * b)) by (nonlinear_arith);
    } else {
        assert(1 * 1 == 1);
    }
}

/// A multiple that is exact reads as the magnitude.
proof fn lemma_exact(n: nat, k: nat, mag: nat)
    requires
        mag < INFINITY_BITS,
        n * pow10(k) == expanded(mag),
    ensures
        reads_as(n, k, mag),
{
    let u = units(mag);
    let one = one_units();
    let five = pow5(1074);
    numbers_are_nearest_to_themselves(mag);
    lemma_pow5_pos(1074);
    lemma_tens(1074);
    lemma_pow10_pos(1074);
    lemma_pow10_pos(k);
    if k >= 1074 {
        let e = (k - 1074) as nat;
        lemma_pow10_adds(e, 1074);
        let p = pow10(e);
        assert((n * p * one) * five == u * five) by (nonlinear_arith)
            requires
                n * pow10(k) == u * five,
                pow10(k) == p * pow10(1074),
                pow10(1074) == one * five,
        ;
        assert(n * p * one == u) by (nonlinear_arith)
            requires
                (n * p * one) * five == u * five,
                five > 0,
        ;
    } else {
        let e = (1074 - k) as nat;
        let c = pow10(k);
        lemma_pow10_adds(e, k);
        lemma_pow10_pos(e);
        rounding_depends_on_the_ratio(n * one, pow10(e), c);
        rounding_depends_on_the_ratio(u, 1, pow10(1074));
        assert((n * one) * c == u * pow10(1074)) by (nonlinear_arith)
            requires
                n * c == u * five,
                pow10(1074) == one * five,
        ;
        assert(1 * pow10(1074) == pow10(1074));
    }
}

/// The number of decimal digits of a number; none for zero.
fn count_digits(v: &Vec<u32>) -> (r: usize)
    requires
        big(v@) < pow10(3000),
    ensures
        big(v@) < pow10(r as nat),
        r > 0 ==> big(v@) >= pow10((r - 1) as nat),
        r <= 3000,
{
    let mut rest: Vec<u32> = v.clone();
    assert(rest@ == v@);
    let ghost n = big(v@);
    let mut r: usize = 0;
    assert(n / 1 == n);
    while !is_zero(&rest)
        invariant
            n == big(v@),
            n < pow10(3000),
            r <= 3000,
            big(rest@) == n / pow10(r as nat),
            r > 0 ==> n >= pow10((r - 1) as nat),
        decreases big(rest@),
    {
        proof {
            let p = pow10(r as nat);
            lemma_pow10_pos(r as nat);
            lemma_fundamental_div_mod(n as int, p as int);
            let q = n / p;
            assert(n >= p) by (nonlinear_arith)
                requires
                    n == p * q + n % p,
                    q >= 1,
                    n % p >= 0,
                    p > 0,
            ;
            lemma_div_denominator(n as int, p as int, 10);
            assert(p * 10 == pow10((r + 1) as nat));
            if r == 3000 {
                assert(false);
            }
        }
        divide_by_ten(&mut rest);
        r = r + 1;
    }
    proof {
        let p = pow10(r as nat);
        lemma_pow10_pos(r as nat);
        lemma_fundamental_div_mod(n as int, p as int);
        assert(p * (n / p) == 0) by (nonlinear_arith)
            requires
                n / p == 0,
        ;
    }
    r
}

fn reads(v: &Vec<u32>, k: usize, mag: u64) -> (r: bool)
    requires
        big(v@) < pow10(3000),
        k <= 1800,
    ensures
        r == reads_as(big(v@), k as nat, mag as nat),
{
    let count: usize = count_digits(v);
    let d: Vec<u32> = v.clone();
    assert(d@ == v@);
    decimal_bits(d, count, k as i128 - 1074, Ghost(k - 1074)) == mag
}

/// The magnitude in multiples of `10^-1074`.
fn expand(mag: u64) -> (v: Vec<u32>)
    requires
        mag < INFINITY_BITS,
    ensures
        big(v@) == expanded(mag as nat),
{
    let (m, shift) = parts(mag);
    let mut v: Vec<u32> = from_u32((m / 0x1_0000_0000) as u32);
    scale(&mut v, 0x8000_0000, 0);
    scale(&mut v, 2, 0);
    scale(&mut v, 1, (m % 0x1_0000_0000) as u32);
    assert(big(v@) == m);
    proof {
        lemma_two52();
        assert(m * pow2(0) == m) by (nonlinear_arith)
            requires
                pow2(0) == 1,
        ;
    }
    let mut i: u32 = 0;
    while i < shift
        invariant
            i <= shift,
            big(v@) == m * pow2(i as nat),
        decreases shift - i,
    {
        proof {
            lemma_pow2_unfold((i + 1) as nat);
            let g = pow2(i as nat);
            assert(m * (2 * g) == (m * g) * 2) by (nonlinear_arith);
        }
        scale(&mut v, 2, 0);
        i = i + 1;
    }
    let ghost u = big(v@);
    assert(u * pow5(0) == u) by (nonlinear_arith)
        requires
            pow5(0) == 1,
    ;
    let mut i: u32 = 0;
    while i < 1074
        invariant
            i <= 1074,
            big(v@) == u * pow5(i as nat),
        decreases 1074 - i,
    {
        proof {
            let g = pow5(i as nat);
            assert(u * (5 * g) == (u * g) * 5) by (nonlinear_arith);
        }
        scale(&mut v, 5, 0);
        i = i + 1;
    }
    v
}

proof fn lemma_expanded_bound(mag: u64)
    requires
        mag < INFINITY_BITS,
    ensures
        expanded(mag as nat) + 1 < pow10(3000),
{
    let m = significand(mag as nat);
    let e = exponent_index(mag as nat);
    let u = units(mag as nat);
    let a = pow10(700);
    let b = pow10(1074);
    let five = pow5(1074);
    lemma_two52();
    assert(e <= 2045 && m < 0x20_0000_0000_0000);
    lemma_pow2_pos(e);
    if e < 2047 {
        lemma_pow2_strictly_increases(e, 2047);
    }
    lemma_pow2_adds(53, 2047);
    let p = pow2(2047);
    assert(u <= pow2(2100)) by (nonlinear_arith)
        requires
            u == m * pow2(e),
            m < 0x20_0000_0000_0000,
            pow2(e) < p,
            pow2(53) == 0x20_0000_0000_0000,
            pow2(2100) == pow2(53) * p,
    ;
    lemma_pow10_bounds(700);
    lemma_tens(1074);
    lemma_pow2_pos(1074);
    let t = pow2(1074);
    assert(five <= b) by (nonlinear_arith)
        requires
            b == t * five,
            t >= 1,
    ;
    lemma_pow10_adds(700, 1074);
    assert(u * five <= a * b) by (nonlinear_arith)
        requires
            u <= a,
            five <= b,
    ;
    lemma_pow10_monotone(1775, 3000);
    lemma_pow10_pos(1774);
}

/// A digit less is a cut more.
proof fn lemma_cut(mag: nat, k: nat)
    ensures
        cut(mag, k + 1) == cut(mag, k) / 10,
        cut(mag, k) <= expanded(mag),
        cut(mag, 0) == expanded(mag),
{
    lemma_pow10_pos(k);
    let n = expanded(mag);
    let p = pow10(k);
    lemma_div_denominator(n as int, p as int, 10);
    assert(p * 10 == pow10(k + 1));
    lemma_fundamental_div_mod(n as int, p as int);
    assert(n / p <= n) by (nonlinear_arith)
        requires
            n == p * (n / p) + n % p,
            n % p >= 0,
            p >= 1,
    ;
    assert(n / 1 == n);
}

/// The digits that are left when as many as possible are left out, and how many that are.
fn tell(mag: u64) -> (r: (Vec<u32>, usize))
    requires
        0 < mag < INFINITY_BITS,
    ensures
        r.1 == dropped(mag as nat, 0),
        r.1 <= 1800,
        big(r.0@) == told(mag as nat, r.1 as nat),
{
    let ghost m = mag as nat;
    let mut v: Vec<u32> = expand(mag);
    let mut k: usize = 0;
    let mut digit: u32 = 0;
    let mut exact: bool = true;
    proof {
        lemma_expanded_bound(mag);
        lemma_cut(m, 0);
        assert(expanded(m) * 1 == expanded(m));
    }
    loop
        invariant
            m == mag,
            mag < INFINITY_BITS,
            k <= 1800,
            big(v@) == cut(m, k as nat),
            big(v@) + 1 < pow10(3000),
            expanded(m) + 1 < pow10(3000),
            dropped(m, 0) == dropped(m, k as nat),
            k > 0 ==> digit == cut(m, (k - 1) as nat) % 10,
            k == 0 ==> digit == 0,
            exact ==> big(v@) * pow10(k as nat) == expanded(m),
        ensures
            k <= 1800,
            big(v@) == cut(m, k as nat),
            big(v@) + 1 < pow10(3000),
            k == dropped(m, 0),
            k > 0 ==> digit == cut(m, (k - 1) as nat) % 10,
            k == 0 ==> digit == 0,
        decreases 1800 - k,
    {
        if k == 1800 {
            break;
        }
        let mut next: Vec<u32> = v.clone();
        assert(next@ == v@);
        let last: u32 = divide_by_ten(&mut next);
        let still: bool = exact && last == 0;
        proof {
            lemma_cut(m, k as nat);
            lemma_cut(m, (k + 1) as nat);
            if still {
                let p = pow10(k as nat);
                let q = big(next@);
                assert(q * (10 * p) == (10 * q) * p) by (nonlinear_arith);
                lemma_exact(q, (k + 1) as nat, m);
            }
        }
        if !still && !reads(&next, k + 1, mag) {
            let mut up: Vec<u32> = next.clone();
            assert(up@ == next@);
            scale(&mut up, 1, 1);
            assert(big(up@) == big(next@) + 1);
            if !reads(&up, k + 1, mag) {
                break;
            }
        }
        v = next;
        digit = last;
        exact = still;
        k = k + 1;
    }
    if reads(&v, k, mag) {
        if digit < 5 {
            return (v, k);
        }
        let mut up: Vec<u32> = v.clone();
        assert(up@ == v@);
        scale(&mut up, 1, 1);
        assert(big(up@) == big(v@) + 1);
        if reads(&up, k, mag) {
            (up, k)
        } else {
            (v, k)
        }
    } else {
        scale(&mut v, 1, 1);
        (v, k)
    }
}

/// The number with a point before its last `k` digits.
fn pointed(v: Vec<u32>, k: usize) -> (r: String)
    ensures
        r@ == decimal(big(v@) / pow10(k as nat)).push('.') + last_digits(big(v@), k as nat),
    decreases k,
{
    let ghost n = big(v@);
    if k == 0 {
        let mut r: String = big_decimal(v);
        r.push('.');
        proof {
            assert(n / 1 == n);
            assert(r@ == decimal(n).push('.') + last_digits(n, 0));
        }
        r
    } else {
        let mut v: Vec<u32> = v;
        let d: u32 = divide_by_ten(&mut v);
        let mut r: String = pointed(v, k - 1);
        r.push((48 + d as u8) as char);
        proof {
            let p = pow10((k - 1) as nat);
            lemma_pow10_pos((k - 1) as nat);
            lemma_div_denominator(n as int, 10, p as int);
            assert(r@ == decimal(n / pow10(k as nat)).push('.') + last_digits(n, k as nat));
        }
        r
    }
}

/// The shortest notation of a number.
pub fn format_shortest(x: Double) -> (r: String)
    ensures
        r@ == shortest(x),
{
    if x.is_nan() {
        return "NaN".to_owned();
    }
    let mag: u64 = magnitude_bits(x);
    let body: String = if mag == INFINITY_BITS {
        "inf".to_owned()
    } else if mag == 0 {
        "0".to_owned()
    } else {
        let (v, k): (Vec<u32>, usize) = tell(mag);
        if k >= 1074 {
            let mut body: String = big_decimal(v);
            let ghost digits = body@;
            let mut i: usize = 1074;
            assert(digits + Seq::new(0, |i: int| '0') == digits);
            while i < k
                invariant
                    1074 <= i <= k,
                    body@ == digits + Seq::new((i - 1074) as nat, |i: int| '0'),
                decreases k - i,
            {
                body.push('0');
                i = i + 1;
                assert(body@ == digits + Seq::new((i - 1074) as nat, |i: int| '0'));
            }
            body
        } else {
            pointed(v, 1074 - k)
        }
    };
    if x.bits >= SIGN_BIT {
        let mut r: String = String::new();
        r.push('-');
        r.append(body.as_str());
        assert(r@ == seq!['-'] + body@);
        r
    } else {
        body
    }
}

/// `n * 10^(k - 1074)` in units, over `10^1074`.
proof fn lemma_reading(n: nat, k: nat)
    ensures
        nearest_decimal(n, k - 1074) == nearest(n * pow10(k) * one_units(), pow10(1074)),
{
    let one = one_units();
    lemma_pow10_pos(k);
    lemma_pow10_pos(1074);
    if k >= 1074 {
        let e = (k - 1074) as nat;
        lemma_pow10_adds(e, 1074);
        rounding_depends_on_the_ratio(n * pow10(e) * one, 1, pow10(1074));
        let p = pow10(e);
        let c = pow10(1074);
        assert((n * p * one) * c == n * (p * c) * one) by (nonlinear_arith);
        assert(1 * c == c);
    } else {
        let e = (1074 - k) as nat;
        lemma_pow10_adds(e, k);
        lemma_pow10_pos(e);
        let c = pow10(k);
        rounding_depends_on_the_ratio(n * one, pow10(e), c);
        assert((n * one) * c == n * c * one) by (nonlinear_arith);
    }
}

/// What reads as the magnitude lies around it, so one of the multiples next to it does too.
proof fn lemma_next_to(n: nat, k: nat, mag: nat)
    requires
        mag < INFINITY_BITS,
        reads_as(n, k, mag),
    ensures
        tellable(mag, k),
{
    let p = pow10(k);
    let one = one_units();
    let c = pow10(1074);
    let total = expanded(mag);
    let below = cut(mag, k);
    lemma_pow10_pos(k);
    lemma_pow10_pos(1074);
    lemma_fundamental_div_mod(total as int, p as int);
    assert(below * p == p * below) by (nonlinear_arith);
    assert((below + 1) * p == p * below + p) by (nonlinear_arith);
    // the magnitude itself, over the same denominator
    lemma_exact(total, 0, mag);
    assert(total * 1 == total);
    lemma_reading(total, 0);
    lemma_reading(n, k);
    lemma_reading(below, k);
    lemma_reading(below + 1, k);
    if n <= below {
        assert(n * p * one <= below * p * one) by (nonlinear_arith)
            requires
                n <= below,
        ;
        assert(below * p * one <= total * one) by (nonlinear_arith)
            requires
                below * p <= total,
        ;
        rounding_is_monotone(n * p * one, below * p * one, c);
        rounding_is_monotone(below * p * one, total * one, c);
    } else {
        assert((below + 1) * p * one <= n * p * one) by (nonlinear_arith)
            requires
                below + 1 <= n,
        ;
        assert(total * one <= (below + 1) * p * one) by (nonlinear_arith)
            requires
                total <= (below + 1) * p,
        ;
        rounding_is_monotone((below + 1) * p * one, n * p * one, c);
        rounding_is_monotone(total * one, (below + 1) * p * one, c);
    }
}

proof fn lemma_dropped(mag: nat, k: nat)
    requires
        k <= 1800,
        tellable(mag, k),
    ensures
        k <= dropped(mag, k) <= 1800,
        tellable(mag, dropped(mag, k)),
        dropped(mag, k) < 1800 ==> !tellable(mag, dropped(mag, k) + 1),
    decreases 1800 - k,
{
    if k < 1800 && tellable(mag, k + 1) {
        lemma_dropped(mag, k + 1);
    }
}

/// Numbers from `10^726` on read as infinity.
proof fn lemma_too_large(n: nat, k: nat, mag: nat)
    requires
        0 < mag < INFINITY_BITS,
        k >= 1800,
    ensures
        !reads_as(n, k, mag),
{
    let e = (k - 1074) as nat;
    let p = pow10(e);
    lemma_pow10_pos(e);
    if n == 0 {
        assert(0 * p * one_units() == 0) by (nonlinear_arith);
        lemma_nearest_zero(1);
    } else {
        lemma_pow10_bounds(700);
        lemma_pow10_monotone(700, e);
        assert(n * p >= p) by (nonlinear_arith)
            requires
                n >= 1,
        ;
        assert(1 * pow2(2100) == pow2(2100));
        lemma_nearest_huge(n * p, 1);
    }
}

/// The shortest notation reads as the number that it stands for.
pub proof fn shortest_notations_read_back(mag: nat)
    requires
        0 < mag < INFINITY_BITS,
    ensures
        reads_as(told(mag, dropped(mag, 0)), dropped(mag, 0), mag),
{
    lemma_cut(mag, 0);
    assert(expanded(mag) * 1 == expanded(mag));
    lemma_exact(expanded(mag), 0, mag);
    lemma_dropped(mag, 0);
}

/// No notation with fewer decimal places than the shortest one reads as the number.
pub proof fn shorter_notations_do_not_read_back(mag: nat, n: nat, k: nat)
    requires
        0 < mag < INFINITY_BITS,
        k > dropped(mag, 0),
    ensures
        !reads_as(n, k, mag),
{
    lemma_cut(mag, 0);
    assert(expanded(mag) * 1 == expanded(mag));
    lemma_exact(expanded(mag), 0, mag);
    lemma_dropped(mag, 0);
    let last = dropped(mag, 0);
    if k >= 1800 {
        lemma_too_large(n, k, mag);
    } else if reads_as(n, k, mag) {
        // the same number, in multiples of the first power that does not do
        let c = pow10((k - last - 1) as nat);
        lemma_pow10_adds((k - last - 1) as nat, last + 1);
        lemma_reading(n, k);
        lemma_reading(n * c, last + 1);
        let p = pow10(last + 1);
        assert(n * (c * p) == n * c * p) by (nonlinear_arith);
        lemma_next_to(n * c, last + 1, mag);
    }
}

} // verus!
