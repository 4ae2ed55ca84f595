//! Decimal notation of binary64 numbers.

use vstd::arithmetic::div_mod::lemma_fundamental_div_mod;
use vstd::arithmetic::div_mod::lemma_fundamental_div_mod_converse;
use vstd::arithmetic::div_mod::lemma_mod_multiples_basic;
use vstd::arithmetic::power2::lemma_pow2_adds;
use vstd::arithmetic::power2::lemma_pow2_pos;
use vstd::arithmetic::power2::lemma_pow2_strictly_increases;
use vstd::arithmetic::power2::lemma_pow2_unfold;
use vstd::arithmetic::power2::pow2;
use vstd::prelude::*;

use crate::big::big;
use crate::big::divide_by_ten;
use crate::big::from_u32;
use crate::big::is_zero;
use crate::big::less;
use crate::big::scale;
use crate::big::subtract;
use crate::double::magnitude_bits;
use crate::double::num;
use crate::double::one_units;
use crate::double::parts;
use crate::double::signed;
use crate::double::units;
use crate::double::with_sign;
use crate::double::Double;
use crate::double::NAN;
use crate::double::SIGN_BIT;
use crate::rounding::brackets;
use crate::rounding::divide_half_even;
use crate::rounding::lemma_divide_scaled;
use crate::rounding::lemma_nearest_zero;
use crate::rounding::lemma_pow127;
use crate::rounding::lemma_two52;
use crate::rounding::nearest;
use crate::rounding::pack;
use crate::rounding::scale_of;
use crate::rounding::two_to;
use crate::rounding::INFINITY_BITS;
use crate::rounding::OFFSET;
use crate::text::chars_of;
use crate::text::decimal;
use crate::text::digit_char;
use crate::text::find_char;
use crate::text::first;
use crate::text::lemma_first_range;
use crate::text::lower;
use crate::text::same;
use crate::text::to_decimal;
use crate::text::to_lower;

verus! {

proof fn lemma_pow2_compare(x: nat, i: nat, j: nat)
    requires
        x > 0,
        x * pow2(i) < x * pow2(j),
    ensures
        i < j,
{
    if j <= i {
        if j < i {
            lemma_pow2_strictly_increases(j, i);
        }
        assert(x * pow2(j) <= x * pow2(i)) by (nonlinear_arith)
            requires
                pow2(j) <= pow2(i),
        ;
    }
}

/// The binary64 magnitude closest to `n / d`.
fn ratio_bits(n: Vec<u32>, d: Vec<u32>) -> (bits: u64)
    requires
        big(n@) > 0,
        big(d@) > 0,
        big(n@) < big(d@) * pow2(2800),
        big(d@) <= big(n@) * pow2(2804),
    ensures
        bits == nearest(big(n@) * one_units(), big(d@)),
{
    let ghost n0 = big(n@);
    let ghost d0 = big(d@);
    let mut n: Vec<u32> = n;
    let mut d: Vec<u32> = d;
    let mut down: i32 = 0;
    proof {
        lemma_two52();
        assert(n0 * 1 == n0);
        assert(d0 * 1 == d0);
    }
    while less(&n, &d)
        invariant
            n0 > 0,
            big(d@) == d0,
            0 <= down <= 2804,
            big(n@) == n0 * pow2(down as nat),
            big(n@) > 0,
            d0 <= n0 * pow2(2804),
            down > 0 ==> big(n@) < 2 * big(d@),
        decreases 2 * d0 - big(n@),
    {
        proof {
            lemma_pow2_compare(n0, down as nat, 2804);
            lemma_pow2_unfold((down + 1) as nat);
            let p = pow2(down as nat);
            assert(n0 * (2 * p) == (n0 * p) * 2) by (nonlinear_arith);
        }
        scale(&mut n, 2, 0);
        down = down + 1;
    }
    let mut up: i32 = 0;
    let mut twice: Vec<u32> = d.clone();
    assert(twice@ == d@);
    scale(&mut twice, 2, 0);
    while !less(&n, &twice)
        invariant
            n0 > 0,
            d0 > 0,
            0 <= up <= 2800,
            0 <= down <= 2804,
            down > 0 ==> big(n@) < big(twice@),
            big(n@) == n0 * pow2(down as nat),
            big(d@) == d0 * pow2(up as nat),
            big(twice@) == 2 * big(d@),
            big(d@) > 0,
            big(d@) <= big(n@),
            n0 < d0 * pow2(2800),
            pow2(0) == 1,
        decreases big(n@) - big(d@),
    {
        proof {
            assert(down == 0);
            assert(n0 * 1 == n0);
            lemma_pow2_unfold((up + 1) as nat);
            let p = pow2(up as nat);
            assert(d0 * (2 * p) == (d0 * p) * 2) by (nonlinear_arith);
            lemma_pow2_compare(d0, (up + 1) as nat, 2800);
        }
        d = twice.clone();
        assert(d@ == twice@);
        scale(&mut twice, 2, 0);
        up = up + 1;
    }
    let ghost n1 = big(n@);
    let ghost dd = big(d@);
    let mut q: u128 = 0;
    let mut j: u32 = 0;
    assert(n1 * 1 == n1);
    assert(2 * dd * 0 == 0);
    while j < 64
        invariant
            j <= 64,
            dd == big(d@),
            dd > 0,
            big(n@) < 2 * dd,
            n1 * pow2(j as nat) == 2 * dd * q + big(n@),
            q < pow2(j as nat),
            pow2(64) == 0x1_0000_0000_0000_0000,
        decreases 64 - j,
    {
        let ghost r = big(n@);
        let ghost p = pow2(j as nat);
        proof {
            lemma_pow2_unfold((j + 1) as nat);
            if j < 64 {
                lemma_pow2_strictly_increases(j as nat, 64);
            }
            assert(n1 * (2 * p) == 2 * (n1 * p)) by (nonlinear_arith);
        }
        if less(&n, &d) {
            proof {
                assert(2 * dd * (2 * q) == 2 * (2 * dd * q)) by (nonlinear_arith);
            }
            q = 2 * q;
        } else {
            proof {
                assert(2 * dd * (2 * q + 1) == 2 * (2 * dd * q) + 2 * dd) by (nonlinear_arith);
            }
            subtract(&mut n, &d);
            q = 2 * q + 1;
        }
        scale(&mut n, 2, 0);
        j = j + 1;
    }
    let sticky: bool = !is_zero(&n);
    let e: i32 = up - down - 63 + 1074;
    proof {
        let r = big(n@);
        assert(q >= 0x8000_0000_0000_0000) by (nonlinear_arith)
            requires
                n1 * 0x1_0000_0000_0000_0000 == 2 * dd * q + r,
                r < 2 * dd,
                n1 >= dd,
                dd > 0,
        ;
        let c = pow2(OFFSET as nat);
        let a = pow2((e + OFFSET) as nat);
        let p = pow2((5010 - down) as nat);
        let ga = pow2(down as nat);
        let gb = pow2(up as nat);
        lemma_pow2_pos((5010 - down) as nat);
        lemma_pow2_adds(1074, OFFSET as nat);
        lemma_pow2_adds(down as nat, 64);
        lemma_pow2_adds((down + 64) as nat, (5010 - down) as nat);
        lemma_pow2_adds(up as nat, (5010 - down) as nat);
        lemma_pow2_unfold((up + 5010 - down + 1) as nat);
        assert(a == 2 * (gb * p));
        assert(one_units() * c == (ga * pow2(64)) * p);
        assert((n0 * one_units()) * c == (2 * dd * q + r) * p) by (nonlinear_arith)
            requires
                n1 * pow2(64) == 2 * dd * q + r,
                n1 == n0 * ga,
                one_units() * c == (ga * pow2(64)) * p,
        ;
        assert((2 * dd * q + r) * p == q * a * d0 + r * p) by (nonlinear_arith)
            requires
                dd == d0 * gb,
                a == 2 * (gb * p),
        ;
        assert((q + 1) * a * d0 == q * a * d0 + (2 * dd) * p) by (nonlinear_arith)
            requires
                dd == d0 * gb,
                a == 2 * (gb * p),
        ;
        assert(r * p < (2 * dd) * p) by (nonlinear_arith)
            requires
                r < 2 * dd,
                p > 0,
        ;
        assert(r > 0 ==> r * p > 0) by (nonlinear_arith)
            requires
                p > 0,
        ;
        assert(r == 0 ==> r * p == 0) by (nonlinear_arith);
        assert(brackets(n0 * one_units(), d0, q as nat, e as int, sticky));
    }
    pack(q, e, sticky, Ghost(n0 * one_units()), Ghost(d0))
}

/// `10^k`.
pub open spec fn pow10(k: nat) -> nat
    decreases k,
{
    if k == 0 {
        1
    } else {
        10 * pow10((k - 1) as nat)
    }
}

pub proof fn lemma_pow10_pos(k: nat)
    ensures
        pow10(k) > 0,
    decreases k,
{
    if k > 0 {
        lemma_pow10_pos((k - 1) as nat);
    }
}

pub proof fn lemma_pow10_adds(i: nat, j: nat)
    ensures
        pow10(i + j) == pow10(i) * pow10(j),
    decreases i,
{
    if i == 0 {
        assert(1 * pow10(j) == pow10(j));
    } else {
        lemma_pow10_adds((i - 1) as nat, j);
        let p = pow10((i - 1) as nat);
        assert((10 * p) * pow10(j) == 10 * (p * pow10(j))) by (nonlinear_arith);
    }
}

/// `8^k <= 10^k <= 16^k`.
pub proof fn lemma_pow10_bounds(k: nat)
    ensures
        pow2(3 * k) <= pow10(k) <= pow2(4 * k),
    decreases k,
{
    lemma_two52();
    if k > 0 {
        let h = (k - 1) as nat;
        lemma_pow10_bounds(h);
        lemma_pow2_unfold((3 * k) as nat);
        lemma_pow2_unfold((3 * k - 1) as nat);
        lemma_pow2_unfold((3 * k - 2) as nat);
        lemma_pow2_unfold((4 * k) as nat);
        lemma_pow2_unfold((4 * k - 1) as nat);
        lemma_pow2_unfold((4 * k - 2) as nat);
        lemma_pow2_unfold((4 * k - 3) as nat);
    }
}

pub proof fn lemma_pow10_monotone(i: nat, j: nat)
    requires
        i <= j,
    ensures
        pow10(i) <= pow10(j),
    decreases j,
{
    if i < j {
        lemma_pow10_monotone(i, (j - 1) as nat);
    }
}

pub open spec fn is_digit(c: char) -> bool {
    '0' <= c && c <= '9'
}

pub open spec fn all_digits(s: Seq<char>) -> bool {
    forall|i: int| 0 <= i < s.len() ==> is_digit(s[i])
}

/// The number that a run of decimal digits stands for.
pub open spec fn digits_value(s: Seq<char>) -> nat
    decreases s.len(),
{
    if s.len() == 0 {
        0
    } else {
        10 * digits_value(s.drop_last()) + (s.last() as nat - 48) as nat
    }
}

/// Whether the text has a leading minus sign, and the text without its sign.
pub open spec fn without_sign(s: Seq<char>) -> (bool, Seq<char>) {
    if s.len() > 0 && (s[0] == '+' || s[0] == '-') {
        (s[0] == '-', s.skip(1))
    } else {
        (false, s)
    }
}

/// The magnitude closest to `d * 10^e`.
pub open spec fn nearest_decimal(d: nat, e: int) -> nat {
    if e >= 0 {
        nearest(d * pow10(e as nat) * one_units(), 1)
    } else {
        nearest(d * one_units(), pow10((-e) as nat))
    }
}

/// The digits of a mantissa and how many of them follow the decimal point.
pub open spec fn mantissa(s: Seq<char>) -> Option<(nat, nat)> {
    let i = first(s, '.');
    if i == s.len() {
        if s.len() > 0 && all_digits(s) {
            Some((digits_value(s), 0))
        } else {
            None
        }
    } else {
        let whole = s.take(i);
        let fraction = s.skip(i + 1);
        if all_digits(whole) && all_digits(fraction) && whole.len() + fraction.len() > 0 {
            Some((digits_value(whole + fraction), fraction.len()))
        } else {
            None
        }
    }
}

/// A signed run of digits.
pub open spec fn exponent(s: Seq<char>) -> Option<int> {
    let (negative, body) = without_sign(s);
    if body.len() > 0 && all_digits(body) {
        Some(
            if negative {
                -(digits_value(body) as int)
            } else {
                digits_value(body) as int
            },
        )
    } else {
        None
    }
}

/// The index of the first `e` or `E`, or the length.
pub open spec fn exponent_mark(s: Seq<char>) -> int {
    if first(s, 'e') < first(s, 'E') {
        first(s, 'e')
    } else {
        first(s, 'E')
    }
}

/// The binary64 number closest to the decimal number that the whole text denotes.
pub open spec fn parsed(s: Seq<char>) -> Option<Double> {
    let (negative, body) = without_sign(s);
    let word = lower(body);
    if word == "inf"@ || word == "infinity"@ {
        Some(signed(negative, INFINITY_BITS as nat))
    } else if word == "nan"@ {
        Some(num(NAN))
    } else {
        let x = exponent_mark(body);
        let power = if x < body.len() {
            exponent(body.skip(x + 1))
        } else {
            Some(0int)
        };
        match (mantissa(body.take(x)), power) {
            (Some((d, fraction)), Some(e)) => Some(
                signed(negative, nearest_decimal(d, e - fraction)),
            ),
            _ => None,
        }
    }
}

proof fn lemma_scale_at_least(n: nat, d: nat, j: nat)
    requires
        d > 0,
        n >= d * 0x20_0000_0000_0000 * pow2(j),
    ensures
        scale_of(n, d) >= j + 1,
    decreases j,
{
    lemma_two52();
    let top = 0x20_0000_0000_0000nat;
    if j == 0 {
        assert(d * top * 1 == d * top);
    } else {
        lemma_pow2_unfold(j);
        let p = pow2((j - 1) as nat);
        lemma_pow2_pos((j - 1) as nat);
        assert((2 * d) * top * p == d * top * (2 * p)) by (nonlinear_arith);
        assert(d * top * (2 * p) >= d * top) by (nonlinear_arith)
            requires
                p >= 1,
                d > 0,
                top > 0,
        ;
        lemma_scale_at_least(n, 2 * d, (j - 1) as nat);
    }
}

/// Ratios of at least `2^2100` round to infinity.
pub proof fn lemma_nearest_huge(n: nat, d: nat)
    requires
        d > 0,
        n >= d * pow2(2100),
    ensures
        nearest(n * one_units(), d) == INFINITY_BITS,
{
    lemma_two52();
    lemma_pow2_adds(53, 2046);
    lemma_pow2_strictly_increases(2099, 2100);
    lemma_pow2_pos(1074);
    let m = n * one_units();
    assert(m >= n) by (nonlinear_arith)
        requires
            m == n * one_units(),
            one_units() >= 1,
    ;
    let top = 0x20_0000_0000_0000nat;
    assert(d * top * pow2(2046) <= d * pow2(2100)) by (nonlinear_arith)
        requires
            top * pow2(2046) <= pow2(2100),
    ;
    lemma_scale_at_least(m, d, 2046);
}

/// Ratios below `2^-2100` round to zero.
proof fn lemma_nearest_tiny(n: nat, d: nat)
    requires
        n * pow2(2100) < d,
    ensures
        nearest(n * one_units(), d) == 0,
{
    lemma_two52();
    let m = n * one_units();
    lemma_pow2_adds(1074, 1026);
    lemma_pow2_unfold(1026);
    lemma_pow2_pos(1025);
    lemma_pow2_pos(1074);
    assert(2 * m <= n * pow2(2100)) by (nonlinear_arith)
        requires
            m == n * one_units(),
            pow2(2100) == one_units() * pow2(1026),
            pow2(1026) >= 2,
    ;
    assert(d * pow2(0) == d) by (nonlinear_arith)
        requires
            pow2(0) == 1,
    ;
    lemma_fundamental_div_mod_converse(m as int, d as int, 0, m as int);
}

pub proof fn lemma_digits_push(s: Seq<char>, c: char)
    ensures
        digits_value(s.push(c)) == 10 * digits_value(s) + (c as nat - 48) as nat,
{
    assert(s.push(c).drop_last() == s);
}

/// The digits of `v` from `from` to `to`, skipping a point at `point`.
pub open spec fn kept(v: Seq<char>, point: int, to: int) -> Seq<char> {
    if to <= point {
        v.take(to)
    } else {
        v.take(point) + v.subrange(point + 1, to)
    }
}

/// Reads the mantissa `v[0..end]`: its digits, the number of significant digits, and the number
/// of digits after the point.
fn read_mantissa(v: &Vec<char>, end: usize) -> (r: Option<(Vec<u32>, usize, usize)>)
    requires
        end <= v@.len(),
    ensures
        r is Some == mantissa(v@.take(end as int)) is Some,
        r matches Some((d, count, fraction)) ==> {
            &&& mantissa(v@.take(end as int)) == Some((big(d@), fraction as nat))
            &&& big(d@) < pow10(count as nat)
            &&& count > 0 ==> big(d@) >= pow10((count - 1) as nat)
            &&& count <= end
            &&& fraction <= end
        },
{
    let ghost s = v@.take(end as int);
    let ghost point = first(s, '.');
    let mut d: Vec<u32> = from_u32(0);
    let mut count: usize = 0;
    let mut i: usize = 0;
    let mut seen: bool = false;
    let mut fraction: usize = 0;
    proof {
        lemma_first_range(s, '.', 0);
        assert(kept(s, point, 0) == Seq::<char>::empty());
    }
    while i < end
        invariant
            end <= v@.len(),
            s == v@.take(end as int),
            point == first(s, '.'),
            0 <= point <= end,
            point < end ==> s[point] == '.',
            forall|j: int| 0 <= j < point ==> s[j] != '.',
            i <= end,
            seen == (i > point),
            fraction == if i > point {
                i - point - 1
            } else {
                0
            },
            forall|j: int| 0 <= j < i && j != point ==> is_digit(#[trigger] s[j]),
            big(d@) == digits_value(kept(s, point, i as int)),
            big(d@) < pow10(count as nat),
            count > 0 ==> big(d@) >= pow10((count - 1) as nat),
            count <= i,
        decreases end - i,
    {
        let c: char = v[i];
        assert(s[i as int] == c);
        if c == '.' && !seen {
            assert(i == point);
            assert(kept(s, point, i + 1) == kept(s, point, i as int));
            seen = true;
        } else if '0' <= c && c <= '9' {
            let ghost before = kept(s, point, i as int);
            proof {
                assert(kept(s, point, i + 1) == before.push(c));
                lemma_digits_push(before, c);
            }
            let x: u32 = c as u32 - 48;
            if count > 0 || x > 0 {
                count = count + 1;
            }
            if seen {
                fraction = fraction + 1;
            }
            scale(&mut d, 10, x);
        } else {
            proof {
                if point == s.len() {
                    assert(!is_digit(s[i as int]));
                } else if i < point {
                    assert(s.take(point)[i as int] == s[i as int]);
                } else {
                    assert(s.skip(point + 1)[i - point - 1] == s[i as int]);
                }
            }
            return None;
        }
        i = i + 1;
    }
    proof {
        if point == s.len() {
            assert(kept(s, point, end as int) == s);
        } else {
            assert(kept(s, point, end as int) == s.take(point) + s.skip(point + 1));
        }
    }
    if (seen && end == 1) || end == 0 {
        proof {
            if point < s.len() {
                assert(s.take(point).len() + s.skip(point + 1).len() == 0);
            }
        }
        return None;
    }
    Some((d, count, fraction))
}

/// The largest exponent that is told apart.
pub const EXPONENT_CAP: i128 = 0x10_0000_0000_0000_0000_0000_0000;

/// Reads a signed run of digits; values past the cap are replaced by the cap.
fn read_exponent(v: &Vec<char>, start: usize) -> (r: Option<i128>)
    requires
        start <= v@.len(),
    ensures
        r is Some == exponent(v@.skip(start as int)) is Some,
        r matches Some(e) ==> {
            let exact = exponent(v@.skip(start as int))->0;
            &&& -EXPONENT_CAP <= e <= EXPONENT_CAP
            &&& e == exact || (e == EXPONENT_CAP && exact > EXPONENT_CAP) || (e == -EXPONENT_CAP
                && exact < -EXPONENT_CAP)
        },
{
    let ghost s = v@.skip(start as int);
    let mut i: usize = start;
    let mut negative: bool = false;
    if i < v.len() && (v[i] == '+' || v[i] == '-') {
        assert(s[0] == v@[start as int]);
        negative = v[i] == '-';
        assert(s.skip(1) == v@.skip(start + 1));
        i = i + 1;
    } else if i < v.len() {
        assert(s[0] == v@[start as int]);
    }
    let ghost body = without_sign(s).1;
    let ghost base = i as int;
    assert(body == v@.skip(base));
    if i >= v.len() {
        return None;
    }
    let mut e: i128 = 0;
    assert(body.take(0) == Seq::<char>::empty());
    while i < v.len()
        invariant
            0 <= base <= i <= v@.len(),
            s == v@.skip(start as int),
            body == without_sign(s).1,
            body == v@.skip(base),
            forall|j: int| 0 <= j < i - base ==> is_digit(#[trigger] body[j]),
            0 <= e <= EXPONENT_CAP,
            e == digits_value(body.take(i - base)) || (e == EXPONENT_CAP && digits_value(
                body.take(i - base),
            ) > EXPONENT_CAP),
        decreases v.len() - i,
    {
        let c: char = v[i];
        assert(body[i - base] == c);
        if !('0' <= c && c <= '9') {
            assert(!is_digit(body[i - base]));
            return None;
        }
        proof {
            assert(body.take(i + 1 - base) == body.take(i - base).push(c));
            lemma_digits_push(body.take(i - base), c);
        }
        let x: i128 = (c as u32 - 48) as i128;
        let next: i128 = 10 * e + x;
        e = if next > EXPONENT_CAP {
            EXPONENT_CAP
        } else {
            next
        };
        i = i + 1;
    }
    assert(body.take(i - base) == body);
    if negative {
        Some(-e)
    } else {
        Some(e)
    }
}

/// Reads a signed run of digits; values past `2^100` are replaced by that bound.
pub fn parse_integer(s: &str) -> (r: Option<i128>)
    ensures
        r is Some == exponent(s@) is Some,
        r matches Some(e) ==> {
            let exact = exponent(s@)->0;
            &&& -EXPONENT_CAP <= e <= EXPONENT_CAP
            &&& e == exact || (e == EXPONENT_CAP && exact > EXPONENT_CAP) || (e == -EXPONENT_CAP
                && exact < -EXPONENT_CAP)
        },
{
    let v: Vec<char> = chars_of(s);
    assert(v@.skip(0) == s@);
    read_exponent(&v, 0)
}

/// The number `10^k`.
fn power_of_ten(k: u128) -> (v: Vec<u32>)
    ensures
        big(v@) == pow10(k as nat),
{
    let mut v: Vec<u32> = from_u32(1);
    let mut i: u128 = 0;
    while i < k
        invariant
            i <= k,
            big(v@) == pow10(i as nat),
        decreases k - i,
    {
        scale(&mut v, 10, 0);
        i = i + 1;
    }
    v
}

/// Bounds of `d * 10^e` from its number of digits.
proof fn lemma_decimal_range(d: nat, count: nat, e: int)
    requires
        0 < d < pow10(count),
        count > 0,
        d >= pow10((count - 1) as nat),
    ensures
        ({
            let n = if e >= 0 {
                d * pow10(e as nat)
            } else {
                d
            };
            let q = if e >= 0 {
                1
            } else {
                pow10((-e) as nat)
            };
            &&& n > 0
            &&& q > 0
            &&& count + e >= 701 ==> n >= q * pow2(2100)
            &&& count + e <= -700 ==> n * pow2(2100) < q
            &&& -700 < count + e < 701 ==> n < q * pow2(2800) && q <= n * pow2(2804)
        }),
{
    let n: nat = if e >= 0 {
        d * pow10(e as nat)
    } else {
        d
    };
    let q: nat = if e >= 0 {
        1
    } else {
        pow10((-e) as nat)
    };
    let hi = pow10(count);
    let lo = pow10((count - 1) as nat);
    lemma_pow10_pos((count - 1) as nat);
    lemma_pow10_bounds(700);
    lemma_pow10_bounds(701);
    lemma_pow2_pos(2804);
    lemma_pow2_pos(2800);
    if e >= 0 {
        let p = pow10(e as nat);
        lemma_pow10_pos(e as nat);
        assert(n > 0) by (nonlinear_arith)
            requires
                n == d * p,
                d > 0,
                p > 0,
        ;
        lemma_pow10_adds((count - 1) as nat, e as nat);
        lemma_pow10_adds(count, e as nat);
        assert(n >= lo * p && n < hi * p) by (nonlinear_arith)
            requires
                n == d * p,
                lo <= d,
                d < hi,
                p > 0,
        ;
        if count + e >= 701 {
            lemma_pow10_monotone(700, (count - 1 + e) as nat);
            assert(1 * pow2(2100) == pow2(2100));
        } else {
            lemma_pow10_monotone((count + e) as nat, 700);
            assert(1 * pow2(2800) == pow2(2800));
            assert(n * pow2(2804) >= n) by (nonlinear_arith)
                requires
                    pow2(2804) >= 1,
            ;
        }
    } else {
        let m = (-e) as nat;
        lemma_pow10_pos(m);
        if count + e >= 701 {
            // lo == 10^(count - 1 + e) * q
            lemma_pow10_adds((count - 1 + e) as nat, m);
            lemma_pow10_monotone(700, (count - 1 + e) as nat);
            let x = pow10((count - 1 + e) as nat);
            assert(x * q >= q * pow2(2100)) by (nonlinear_arith)
                requires
                    x >= pow2(2100),
            ;
        } else if count + e <= -700 {
            lemma_pow10_adds((m - count) as nat, count);
            lemma_pow10_monotone(700, (m - count) as nat);
            lemma_pow10_pos((m - count) as nat);
            let x = pow10((m - count) as nat);
            assert(d * pow2(2100) < x * hi) by (nonlinear_arith)
                requires
                    d < hi,
                    pow2(2100) <= x,
                    x > 0,
            ;
        } else {
            if count + e >= 0 {
                lemma_pow10_adds((count + e) as nat, m);
                lemma_pow10_monotone((count + e) as nat, 700);
                let x = pow10((count + e) as nat);
                assert(x * q <= q * pow2(2800)) by (nonlinear_arith)
                    requires
                        x <= pow2(2800),
                ;
            } else {
                lemma_pow10_monotone(count, m);
                assert(q * pow2(2800) >= q) by (nonlinear_arith)
                    requires
                        pow2(2800) >= 1,
                ;
            }
            if m >= count - 1 {
                lemma_pow10_adds((count - 1) as nat, (m - count + 1) as nat);
                lemma_pow10_monotone((m - count + 1) as nat, 701);
                let x = pow10((m - count + 1) as nat);
                assert(lo * x <= d * pow2(2804)) by (nonlinear_arith)
                    requires
                        lo <= d,
                        x <= pow2(2804),
                ;
            } else {
                lemma_pow10_monotone(m, (count - 1) as nat);
                assert(d * pow2(2804) >= d) by (nonlinear_arith)
                    requires
                        pow2(2804) >= 1,
                ;
            }
        }
    }
}

/// The magnitude closest to `d * 10^e`, where a capped `e` stands for the exact exponent.
pub fn decimal_bits(d: Vec<u32>, count: usize, e: i128, Ghost(exact): Ghost<int>) -> (bits: u64)
    requires
        big(d@) < pow10(count as nat),
        count > 0 ==> big(d@) >= pow10((count - 1) as nat),
        -0x20_0000_0000_0000_0000_0000_0000 < e < 0x20_0000_0000_0000_0000_0000_0000,
        e == exact || (e > 0x2_0000_0000_0000_0000 && exact > e) || (e < -0x2_0000_0000_0000_0000
            && exact < e),
    ensures
        bits == nearest_decimal(big(d@), exact),
        bits <= INFINITY_BITS,
{
    let ghost n0 = big(d@);
    let ghost top = if exact >= 0 {
        n0 * pow10(exact as nat)
    } else {
        n0
    };
    let ghost bottom: nat = if exact >= 0 {
        1
    } else {
        pow10((-exact) as nat)
    };
    assert(nearest_decimal(n0, exact) == nearest(top * one_units(), bottom));
    if is_zero(&d) {
        proof {
            if exact < 0 {
                lemma_pow10_pos((-exact) as nat);
            } else {
                let p = pow10(exact as nat);
                assert(0 * p == 0) by (nonlinear_arith);
            }
            assert(0 * one_units() == 0) by (nonlinear_arith);
            lemma_nearest_zero(bottom);
        }
        return 0;
    }
    proof {
        if count == 0 {
            assert(pow10(0) == 1);
            assert(false);
        }
        lemma_decimal_range(n0, count as nat, exact);
    }
    let size: i128 = count as i128 + e;
    if size >= 701 {
        proof {
            lemma_nearest_huge(top, bottom);
        }
        return INFINITY_BITS;
    }
    if size <= -700 {
        proof {
            lemma_nearest_tiny(top, bottom);
        }
        return 0;
    }
    assert(e == exact);
    if e >= 0 {
        let mut n: Vec<u32> = d;
        let mut i: i128 = 0;
        assert(n0 * pow10(0) == n0) by (nonlinear_arith)
            requires
                pow10(0) == 1,
        ;
        while i < e
            invariant
                0 <= i <= e,
                big(n@) == n0 * pow10(i as nat),
            decreases e - i,
        {
            proof {
                let p = pow10(i as nat);
                assert(n0 * (10 * p) == (n0 * p) * 10) by (nonlinear_arith);
            }
            scale(&mut n, 10, 0);
            i = i + 1;
        }
        ratio_bits(n, from_u32(1))
    } else {
        let q: Vec<u32> = power_of_ten((-e) as u128);
        ratio_bits(d, q)
    }
}

/// Reads a decimal number: an optional sign, digits with an optional point, and an optional
/// exponent; or one of the words `inf`, `infinity` and `nan` in any case.
pub fn parse_double(s: &str) -> (r: Option<Double>)
    ensures
        r == parsed(s@),
{
    let n: usize = s.unicode_len();
    let mut negative: bool = false;
    let mut body: &str = s;
    if n > 0 {
        let c: char = s.get_char(0);
        if c == '+' || c == '-' {
            negative = c == '-';
            body = s.substring_char(1, n);
            assert(body@ == s@.skip(1));
        }
    }
    assert(without_sign(s@) == (negative, body@));
    let word: String = to_lower(body);
    if same(word.as_str(), "inf") || same(word.as_str(), "infinity") {
        return Some(with_sign(negative, INFINITY_BITS));
    }
    if same(word.as_str(), "nan") {
        return Some(num(NAN));
    }
    let v: Vec<char> = chars_of(body);
    let x1: usize = find_char(body, 'e');
    let x2: usize = find_char(body, 'E');
    let x: usize = if x1 < x2 {
        x1
    } else {
        x2
    };
    let (d, count, fraction) = match read_mantissa(&v, x) {
        Some(m) => m,
        None => {
            return None;
        },
    };
    let e: i128 = if x < v.len() {
        match read_exponent(&v, x + 1) {
            Some(e) => e,
            None => {
                return None;
            },
        }
    } else {
        0
    };
    let ghost exact: int = if x < v@.len() {
        exponent(v@.skip(x + 1))->0
    } else {
        0
    };
    let bits: u64 = decimal_bits(d, count, e - fraction as i128, Ghost(exact - fraction));
    Some(with_sign(negative, bits))
}

/// The last `k` decimal digits of `n`.
pub open spec fn last_digits(n: nat, k: nat) -> Seq<char>
    decreases k,
{
    if k == 0 {
        Seq::empty()
    } else {
        last_digits(n / 10, (k - 1) as nat).push(digit_char(n % 10))
    }
}

/// The notation of `n` units of `10^-k`.
pub open spec fn with_point(n: nat, k: nat) -> Seq<char> {
    if k == 0 {
        decimal(n)
    } else {
        decimal(n / pow10(k)).push('.') + last_digits(n, k)
    }
}

/// The notation of `x` with `k` digits after the point, rounded half to even.
pub open spec fn fixed(x: Double, k: nat) -> Seq<char> {
    if x.nan() {
        "NaN"@
    } else {
        let body = if x.infinite() {
            "inf"@
        } else {
            with_point(divide_half_even(units(x.magnitude()) * pow10(k), one_units()), k)
        };
        if x.negative() {
            seq!['-'] + body
        } else {
            body
        }
    }
}

pub fn big_decimal(v: Vec<u32>) -> (r: String)
    ensures
        r@ == decimal(big(v@)),
    decreases big(v@),
{
    let ghost n = big(v@);
    let mut v: Vec<u32> = v;
    let d: u32 = divide_by_ten(&mut v);
    let mut r: String = if is_zero(&v) {
        String::new()
    } else {
        big_decimal(v)
    };
    r.push((48 + d as u8) as char);
    proof {
        if n < 10 {
            assert(r@ == seq![digit_char(n)]);
        } else {
            assert(r@ == decimal(n / 10).push(digit_char(n % 10)));
        }
    }
    r
}

fn append_last_digits(out: &mut String, n: u128, k: u32)
    ensures
        final(out)@ == old(out)@ + last_digits(n as nat, k as nat),
    decreases k,
{
    if k > 0 {
        append_last_digits(out, n / 10, k - 1);
        out.push((48 + (n % 10) as u8) as char);
        assert(out@ == old(out)@ + last_digits(n as nat, k as nat));
    } else {
        assert(out@ == old(out)@ + last_digits(n as nat, 0));
    }
}

proof fn lemma_zero_digits(n: nat, k: nat)
    requires
        n % pow10(k) == 0,
    ensures
        last_digits(n, k) == last_digits(0, k),
    decreases k,
{
    if k > 0 {
        let p = pow10((k - 1) as nat);
        lemma_pow10_pos((k - 1) as nat);
        lemma_pow10_pos(k);
        let q = n / pow10(k);
        lemma_fundamental_div_mod(n as int, pow10(k) as int);
        assert(n == 10 * (p * q)) by (nonlinear_arith)
            requires
                n == (10 * p) * q,
        ;
        assert(n / 10 == p * q);
        assert((p * q) % p == 0) by {
            lemma_mod_multiples_basic(q as int, p as int);
            assert(p * q == q * p) by (nonlinear_arith);
        }
        lemma_zero_digits(n / 10, (k - 1) as nat);
    }
}

fn ten_to(k: u32) -> (p: u128)
    requires
        k <= 9,
    ensures
        p == pow10(k as nat),
        p <= 1_000_000_000,
{
    let mut p: u128 = 1;
    let mut i: u32 = 0;
    proof {
        reveal_with_fuel(pow10, 10);
    }
    while i < k
        invariant
            i <= k <= 9,
            p == pow10(i as nat),
            pow10(9) == 1_000_000_000,
        decreases k - i,
    {
        proof {
            lemma_pow10_monotone((i + 1) as nat, 9);
        }
        p = p * 10;
        i = i + 1;
    }
    proof {
        lemma_pow10_monotone(k as nat, 9);
    }
    p
}

/// `p` times the number `m * 2^shift` units, rounded half to even.
pub fn scaled_fraction(m: u64, shift: u32, p: u128) -> (n: u128)
    requires
        m < 0x20_0000_0000_0000,
        shift < 1074,
        p <= 1_000_000_000,
    ensures
        n == divide_half_even(m as nat * pow2(shift as nat) * p as nat, one_units()),
{
    let ghost u: nat = m as nat * pow2(shift as nat);
    let ghost one = one_units();
    let ghost total = u * p as nat;
    proof {
        lemma_two52();
        lemma_pow2_pos(1074);
    }
    let drop: u32 = 1074 - shift;
    assert(m * p <= 0x20_0000_0000_0000 * 1_000_000_000) by (nonlinear_arith)
        requires
            m < 0x20_0000_0000_0000,
            p <= 1_000_000_000,
    ;
    let t: u128 = m as u128 * p;
    let ghost g = pow2(shift as nat);
    let ghost pd = pow2(drop as nat);
    proof {
        lemma_pow2_adds(drop as nat, shift as nat);
        lemma_pow2_pos(shift as nat);
        lemma_pow2_pos(drop as nat);
        lemma_pow2_unfold(drop as nat);
        assert(total == t * g) by (nonlinear_arith)
            requires
                total == u * p,
                u == m * g,
                t == m * p,
        ;
        lemma_divide_scaled(t as nat, pd, g);
    }
    let n: u128;
    if drop >= 126 {
        n = 0;
        proof {
            lemma_pow127();
            if drop > 126 {
                lemma_pow2_strictly_increases(126, drop as nat);
            }
            lemma_fundamental_div_mod_converse(t as int, pd as int, 0, t as int);
        }
    } else {
        let q: u128 = two_to(drop);
        let half: u128 = q / 2;
        let whole: u128 = t / q;
        let rest: u128 = t % q;
        assert(whole <= t) by (nonlinear_arith)
            requires
                whole == t / q,
                q >= 1,
        ;
        n = if rest > half || (rest == half && whole % 2 == 1) {
            whole + 1
        } else {
            whole
        };
    }
    n
}

/// The notation of a finite magnitude with `k` digits after the point.
fn magnitude_fixed(mag: u64, k: u32) -> (r: String)
    requires
        mag < INFINITY_BITS,
        k <= 9,
    ensures
        r@ == with_point(
            divide_half_even(units(mag as nat) * pow10(k as nat), one_units()),
            k as nat,
        ),
{
    let (m, shift) = parts(mag);
    let ghost u = units(mag as nat);
    let ghost one = one_units();
    let ghost total = u * pow10(k as nat);
    let p: u128 = ten_to(k);
    proof {
        lemma_two52();
        lemma_pow2_pos(1074);
        lemma_pow10_pos(k as nat);
    }
    if shift >= 1074 {
        let mut w: Vec<u32> = from_u32((m / 0x1_0000_0000) as u32);
        scale(&mut w, 0x8000_0000, 0);
        scale(&mut w, 2, 0);
        scale(&mut w, 1, (m % 0x1_0000_0000) as u32);
        assert(big(w@) == m);
        let mut i: u32 = 1074;
        assert(m * pow2(0) == m) by (nonlinear_arith)
            requires
                pow2(0) == 1,
        ;
        while i < shift
            invariant
                1074 <= i <= shift,
                big(w@) == m * pow2((i - 1074) as nat),
            decreases shift - i,
        {
            proof {
                lemma_pow2_unfold((i + 1 - 1074) as nat);
                let g = pow2((i - 1074) as nat);
                assert(m * (2 * g) == (m * g) * 2) by (nonlinear_arith);
            }
            scale(&mut w, 2, 0);
            i = i + 1;
        }
        let ghost whole = big(w@);
        let mut r: String = big_decimal(w);
        proof {
            let g = pow2((shift - 1074) as nat);
            lemma_pow2_adds((shift - 1074) as nat, 1074);
            let n = whole * p;
            assert(total == n * one) by (nonlinear_arith)
                requires
                    total == u * p,
                    u == m * pow2(shift as nat),
                    pow2(shift as nat) == g * one,
                    whole == m * g,
                    n == whole * p,
            ;
            lemma_fundamental_div_mod_converse(total as int, one as int, n as int, 0);
            assert(divide_half_even(total, one) == n);
            lemma_fundamental_div_mod_converse(n as int, p as int, whole as int, 0);
            if k > 0 {
                lemma_zero_digits(n as nat, k as nat);
            } else {
                assert(whole * 1 == whole);
            }
        }
        if k > 0 {
            r.push('.');
            append_last_digits(&mut r, 0, k);
        }
        return r;
    }
    let n: u128 = scaled_fraction(m, shift, p);
    assert(m as nat * pow2(shift as nat) == u);
    assert(n == divide_half_even(total, one));
    if k == 0 {
        return to_decimal(n);
    }
    let mut r: String = to_decimal(n / p);
    r.push('.');
    append_last_digits(&mut r, n, k);
    r
}

/// The notation of `x` with `k` digits after the point, rounded half to even.
pub fn format_fixed(x: Double, k: u32) -> (r: String)
    requires
        k <= 9,
    ensures
        r@ == fixed(x, k as nat),
{
    if x.is_nan() {
        return "NaN".to_owned();
    }
    let mag: u64 = magnitude_bits(x);
    let body: String = if mag == INFINITY_BITS {
        "inf".to_owned()
    } else {
        magnitude_fixed(mag, k)
    };
    if x.bits >= SIGN_BIT {
        let mut r: String = String::new();
        r.push('-');
        r.append(body.as_str());
        assert(r@ == seq!['-'] + body@);
        r
    } else {
        body
    }
}

} // verus!
