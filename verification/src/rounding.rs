//! Rounding of exact ratios to the nearest binary64 magnitude.
//!
//! A magnitude is measured in units of the smallest positive binary64 number. The bit pattern
//! `k * 2^52 + q` with `q < 2^53` (and `q >= 2^52` unless `k` is zero) stands for `q * 2^k` units.

use vstd::arithmetic::div_mod::lemma_fundamental_div_mod;
use vstd::arithmetic::div_mod::lemma_fundamental_div_mod_converse;
use vstd::arithmetic::power2::lemma_pow2_adds;
use vstd::arithmetic::power2::lemma_pow2_pos;
use vstd::arithmetic::power2::lemma_pow2_strictly_increases;
use vstd::arithmetic::power2::lemma_pow2_unfold;
use vstd::arithmetic::power2::lemma2_to64;
use vstd::arithmetic::power2::lemma2_to64_rest;
use vstd::arithmetic::power2::pow2;
use vstd::prelude::*;

verus! {

/// `2^52`, the weight of the implicit leading significand bit.
pub const HIDDEN_BIT: u64 = 0x10_0000_0000_0000;

/// The magnitude bits of infinity.
pub const INFINITY_BITS: u64 = 0x7ff0_0000_0000_0000;

/// Offset that keeps every exponent used while rounding non-negative.
pub const OFFSET: u32 = 4000;

/// The quotient of `n` and `d`, rounded to the nearest integer and to the even one on a tie.
pub open spec fn divide_half_even(n: nat, d: nat) -> nat {
    let q = n / d;
    let r = n % d;
    if 2 * r > d || (2 * r == d && q % 2 == 1) {
        q + 1
    } else {
        q
    }
}

/// The number of times the unit has to be doubled before `n / d` needs at most 53 bits.
pub open spec fn scale_of(n: nat, d: nat) -> nat
    decreases n - d,
{
    if d == 0 || n < d * 0x20_0000_0000_0000 {
        0
    } else {
        1 + scale_of(n, 2 * d)
    }
}

/// The magnitude bits of the binary64 number closest to `n / d` units; ties go to the even
/// significand and ratios past the largest finite number go to infinity.
pub open spec fn nearest(n: nat, d: nat) -> nat {
    let k = scale_of(n, d);
    let bits = k * HIDDEN_BIT as nat + divide_half_even(n, d * pow2(k));
    if bits < INFINITY_BITS {
        bits
    } else {
        INFINITY_BITS as nat
    }
}

/// `n / d` is `m * 2^e` units or, when `sticky`, lies strictly between `m * 2^e` and
/// `(m + 1) * 2^e` units.
pub open spec fn brackets(n: nat, d: nat, m: nat, e: int, sticky: bool) -> bool {
    let a = pow2((e + OFFSET) as nat);
    let c = pow2(OFFSET as nat);
    if sticky {
        m * a * d < n * c && n * c < (m + 1) * a * d
    } else {
        n * c == m * a * d
    }
}

pub proof fn lemma_two52()
    ensures
        pow2(52) == 0x10_0000_0000_0000,
        pow2(53) == 0x20_0000_0000_0000,
        pow2(54) == 0x40_0000_0000_0000,
        pow2(64) == 0x1_0000_0000_0000_0000,
        pow2(63) == 0x8000_0000_0000_0000,
        pow2(0) == 1,
        pow2(1) == 2,
{
    lemma2_to64();
    lemma2_to64_rest();
}

proof fn lemma_divide_by(n: nat, d: nat, q: nat, r: nat)
    requires
        d > 0,
        r < d,
        n == q * d + r,
    ensures
        n / d == q,
        n % d == r,
{
    lemma_fundamental_div_mod_converse(n as int, d as int, q as int, r as int);
}

pub proof fn lemma_divide_scaled(n: nat, d: nat, c: nat)
    requires
        d > 0,
        c > 0,
    ensures
        divide_half_even(n * c, d * c) == divide_half_even(n, d),
{
    let q = n / d;
    let r = n % d;
    lemma_fundamental_div_mod(n as int, d as int);
    assert(n * c == q * (d * c) + r * c) by (nonlinear_arith)
        requires
            n == d * q + r,
    ;
    assert(r * c < d * c) by (nonlinear_arith)
        requires
            r < d,
            c > 0,
    ;
    assert(d * c > 0) by (nonlinear_arith)
        requires
            d > 0,
            c > 0,
    ;
    lemma_divide_by(n * c, d * c, q, r * c);
    assert((2 * (r * c) > d * c) == (2 * r > d)) by (nonlinear_arith)
        requires
            c > 0,
    ;
    assert((2 * (r * c) == d * c) == (2 * r == d)) by (nonlinear_arith)
        requires
            c > 0,
    ;
}

pub proof fn lemma_scale_is(n: nat, d: nat, k: nat)
    requires
        d > 0,
        n < d * 0x20_0000_0000_0000 * pow2(k),
        k > 0 ==> d * 0x10_0000_0000_0000 * pow2(k) <= n,
    ensures
        scale_of(n, d) == k,
    decreases k,
{
    lemma_two52();
    if k == 0 {
        assert(d * 0x20_0000_0000_0000 * 1 == d * 0x20_0000_0000_0000);
    } else {
        lemma_pow2_unfold(k);
        lemma_pow2_pos((k - 1) as nat);
        let p = pow2((k - 1) as nat);
        assert(d * 0x20_0000_0000_0000 <= n) by (nonlinear_arith)
            requires
                d * 0x10_0000_0000_0000 * (2 * p) <= n,
                p >= 1,
                d >= 0,
        ;
        assert((2 * d) * 0x20_0000_0000_0000 * p == d * 0x20_0000_0000_0000 * (2 * p))
            by (nonlinear_arith);
        assert((2 * d) * 0x10_0000_0000_0000 * p == d * 0x10_0000_0000_0000 * (2 * p))
            by (nonlinear_arith);
        lemma_scale_is(n, 2 * d, (k - 1) as nat);
    }
}

/// Rounding when no bit of `m` is dropped.
proof fn lemma_nearest_exact(n: nat, d: nat, m: nat, e: int, len: nat, k: nat, q: nat)
    requires
        d > 0,
        brackets(n, d, m, e, false),
        -3000 <= e <= 4000,
        1 <= len,
        pow2((len - 1) as nat) <= m < pow2(len),
        k == if e + len - 53 > 0 {
            e + len - 53
        } else {
            0
        },
        e >= k,
        q == m * pow2((e - k) as nat),
    ensures
        scale_of(n, d) == k,
        divide_half_even(n, d * pow2(k)) == q,
{
    let a = pow2((e + OFFSET) as nat);
    let c = pow2(OFFSET as nat);
    let g = pow2((e - k) as nat);
    let t = pow2(k);
    lemma_two52();
    lemma_pow2_adds((e - k) as nat, k);
    lemma_pow2_adds(e as nat, OFFSET as nat);
    lemma_pow2_pos(OFFSET as nat);
    lemma_pow2_pos(k);
    assert(a == g * t * c);
    assert(n == q * (d * t)) by (nonlinear_arith)
        requires
            n * c == m * a * d,
            a == g * t * c,
            q == m * g,
            c > 0,
    ;
    let dk = d * t;
    assert(dk > 0) by (nonlinear_arith)
        requires
            d > 0,
            t > 0,
            dk == d * t,
    ;
    lemma_divide_by(n, dk, q, 0);
    // q < 2^53, and q >= 2^52 when k > 0
    assert(q < 0x20_0000_0000_0000) by {
        lemma_pow2_adds(len, (e - k) as nat);
        lemma_pow2_pos((e - k) as nat);
        assert(m * g < pow2(len) * g) by (nonlinear_arith)
            requires
                m < pow2(len),
                g > 0,
        ;
        if len + (e - k) < 53 {
            lemma_pow2_strictly_increases((len + (e - k)) as nat, 53);
        }
    }
    assert(n < d * 0x20_0000_0000_0000 * t) by (nonlinear_arith)
        requires
            n == q * (d * t),
            q < 0x20_0000_0000_0000,
            d > 0,
            t > 0,
    ;
    if k > 0 {
        assert(e - k == 53 - len);
        lemma_pow2_adds((len - 1) as nat, (e - k) as nat);
        assert(m * g >= pow2((len - 1) as nat) * g) by (nonlinear_arith)
            requires
                m >= pow2((len - 1) as nat),
        ;
        assert(q >= 0x10_0000_0000_0000);
        assert(d * 0x10_0000_0000_0000 * t <= n) by (nonlinear_arith)
            requires
                n == q * (d * t),
                q >= 0x10_0000_0000_0000,
                d > 0,
                t > 0,
        ;
    }
    lemma_scale_is(n, d, k);
}

/// Rounding when the low `s` bits of `m` are dropped.
proof fn lemma_nearest_shifted(
    n: nat,
    d: nat,
    m: nat,
    e: int,
    sticky: bool,
    len: nat,
    k: nat,
    s: nat,
    q: nat,
    r: nat,
)
    requires
        d > 0,
        brackets(n, d, m, e, sticky),
        -3000 <= e <= 4000,
        1 <= len,
        pow2((len - 1) as nat) <= m < pow2(len),
        k == if e + len - 53 > 0 {
            e + len - 53
        } else {
            0
        },
        s == k - e,
        s >= 1,
        m == q * pow2(s) + r,
        r < pow2(s),
    ensures
        scale_of(n, d) == k,
        divide_half_even(n, d * pow2(k)) == if r > pow2((s - 1) as nat) || (r == pow2(
            (s - 1) as nat,
        ) && (sticky || q % 2 == 1)) {
            q + 1
        } else {
            q
        },
{
    let a = pow2((e + OFFSET) as nat);
    let c = pow2(OFFSET as nat);
    let p = pow2(s);
    let half = pow2((s - 1) as nat);
    let t = pow2(k);
    let u = a * d;
    let dk = d * t;
    let nn = n * c;
    lemma_two52();
    lemma_pow2_adds((e + OFFSET) as nat, s);
    lemma_pow2_adds(k, OFFSET as nat);
    assert(a * p == t * c);
    lemma_pow2_pos((e + OFFSET) as nat);
    lemma_pow2_pos(OFFSET as nat);
    lemma_pow2_pos(k);
    lemma_pow2_unfold(s);
    assert(u > 0) by (nonlinear_arith)
        requires
            u == a * d,
            a > 0,
            d > 0,
    ;
    assert(dk > 0) by (nonlinear_arith)
        requires
            dk == d * t,
            t > 0,
            d > 0,
    ;
    assert(dk * c == p * u) by (nonlinear_arith)
        requires
            dk == d * t,
            u == a * d,
            a * p == t * c,
    ;
    assert(m * a * d == m * u && (m + 1) * a * d == (m + 1) * u) by (nonlinear_arith)
        requires
            u == a * d,
    ;
    assert((m + 1) * u == m * u + u) by (nonlinear_arith);
    assert(m * u <= nn < m * u + u);
    assert(m * u == q * (p * u) + r * u) by (nonlinear_arith)
        requires
            m == q * p + r,
    ;
    let rr = (nn - q * (p * u)) as nat;
    assert(r * u + u <= p * u) by (nonlinear_arith)
        requires
            r + 1 <= p,
            u > 0,
    ;
    assert(p * u > 0);
    lemma_divide_by(nn, p * u, q, rr);
    lemma_divide_scaled(n, dk, c);
    assert(p * u == 2 * (half * u)) by (nonlinear_arith)
        requires
            p == 2 * half,
    ;
    if r > half {
        assert(r * u >= half * u + u) by (nonlinear_arith)
            requires
                r >= half + 1,
                u > 0,
        ;
    } else if r < half {
        assert(r * u + u <= half * u) by (nonlinear_arith)
            requires
                r + 1 <= half,
                u > 0,
        ;
    }
    // the scale
    let top = 0x20_0000_0000_0000nat;
    let low = 0x10_0000_0000_0000nat;
    assert(m + 1 <= top * p) by {
        lemma_pow2_adds(53, s);
        if len < 53 + s {
            lemma_pow2_strictly_increases(len, (53 + s) as nat);
        }
    }
    assert((m + 1) * u <= (top * p) * u) by (nonlinear_arith)
        requires
            m + 1 <= top * p,
            u > 0,
    ;
    assert(nn < (top * p) * u);
    assert(n < d * top * t) by (nonlinear_arith)
        requires
            n * c < (top * p) * u,
            dk * c == p * u,
            dk == d * t,
            c > 0,
    ;
    if k > 0 {
        assert(m >= low * p) by {
            lemma_pow2_adds(52, s);
        }
        assert(m * u >= (low * p) * u) by (nonlinear_arith)
            requires
                m >= low * p,
                u > 0,
        ;
        assert(d * low * t <= n) by (nonlinear_arith)
            requires
                n * c >= (low * p) * u,
                dk * c == p * u,
                dk == d * t,
                c > 0,
        ;
    }
    lemma_scale_is(n, d, k);
}

/// A ratio that is exactly `m * 2^e` units.
pub proof fn lemma_brackets_exact(n: nat, d: nat, m: nat, e: int)
    requires
        e >= -(OFFSET as int),
        e >= 0 ==> n == m * pow2(e as nat) * d,
        e < 0 ==> n * pow2((-e) as nat) == m * d,
    ensures
        brackets(n, d, m, e, false),
{
    let a = pow2((e + OFFSET) as nat);
    let c = pow2(OFFSET as nat);
    lemma_pow2_pos(OFFSET as nat);
    if e >= 0 {
        let g = pow2(e as nat);
        lemma_pow2_adds(e as nat, OFFSET as nat);
        assert(n * c == m * a * d) by (nonlinear_arith)
            requires
                n == m * g * d,
                a == g * c,
        ;
    } else {
        let g = pow2((-e) as nat);
        lemma_pow2_adds((-e) as nat, (e + OFFSET) as nat);
        assert(n * c == m * a * d) by (nonlinear_arith)
            requires
                n * g == m * d,
                c == g * a,
        ;
    }
}

/// A ratio strictly between `m * 2^e` and `(m + 1) * 2^e` units.
pub proof fn lemma_brackets_within(n: nat, d: nat, m: nat, e: int)
    requires
        e >= 0,
        m * pow2(e as nat) * d < n,
        n < (m + 1) * pow2(e as nat) * d,
    ensures
        brackets(n, d, m, e, true),
{
    let a = pow2((e + OFFSET) as nat);
    let c = pow2(OFFSET as nat);
    let g = pow2(e as nat);
    lemma_pow2_pos(OFFSET as nat);
    lemma_pow2_adds(e as nat, OFFSET as nat);
    assert(m * a * d < n * c) by (nonlinear_arith)
        requires
            m * g * d < n,
            a == g * c,
            c > 0,
    ;
    assert(n * c < (m + 1) * a * d) by (nonlinear_arith)
        requires
            n < (m + 1) * g * d,
            a == g * c,
            c > 0,
    ;
}

pub proof fn lemma_nearest_zero(d: nat)
    requires
        d > 0,
    ensures
        nearest(0, d) == 0,
{
    lemma_two52();
    assert(d * pow2(0) == d) by (nonlinear_arith)
        requires
            pow2(0) == 1,
    ;
    lemma_divide_by(0, d, 0, 0);
}

/// `2^s`.
pub fn two_to(s: u32) -> (p: u128)
    requires
        s <= 126,
    ensures
        p == pow2(s as nat),
        p >= 1,
{
    proof {
        lemma_two52();
    }
    let mut p: u128 = 1;
    let mut i: u32 = 0;
    while i < s
        invariant
            i <= s <= 126,
            p == pow2(i as nat),
            p >= 1,
        decreases s - i,
    {
        proof {
            lemma_pow2_unfold((i + 1) as nat);
            if i + 1 < 127 {
                lemma_pow2_strictly_increases((i + 1) as nat, 127);
            }
            lemma_pow127();
        }
        p = p * 2;
        i = i + 1;
    }
    p
}

pub proof fn lemma_pow127()
    ensures
        pow2(124) == 0x1000_0000_0000_0000_0000_0000_0000_0000,
        pow2(126) == 0x4000_0000_0000_0000_0000_0000_0000_0000,
        pow2(127) == 0x8000_0000_0000_0000_0000_0000_0000_0000,
{
    lemma_two52();
    lemma_pow2_adds(63, 63);
    lemma_pow2_adds(63, 64);
    assert(pow2(124) == pow2(62) * pow2(62)) by {
        lemma_pow2_adds(62, 62);
    }
    lemma2_to64_rest();
}

/// The number of binary digits of `m`.
pub fn bit_length(m: u128) -> (len: u32)
    requires
        m > 0,
    ensures
        1 <= len <= 128,
        pow2((len - 1) as nat) <= m < pow2(len as nat),
{
    let mut rest: u128 = m;
    let mut len: u32 = 0;
    proof {
        lemma_two52();
    }
    while rest > 0
        invariant
            m > 0,
            len <= 128,
            rest > 0 || len >= 1,
            rest * pow2(len as nat) <= m < (rest + 1) * pow2(len as nat),
            rest == 0 ==> pow2((len - 1) as nat) <= m,
            m <= u128::MAX,
        decreases rest,
    {
        proof {
            let p = pow2(len as nat);
            lemma_pow2_unfold((len + 1) as nat);
            lemma_pow2_pos(len as nat);
            let h = rest / 2;
            assert(h * (2 * p) <= rest * p < (h + 1) * (2 * p) && (rest + 1) * p <= (h + 1) * (2
                * p)) by (nonlinear_arith)
                requires
                    2 * h <= rest <= 2 * h + 1,
                    p > 0,
            ;
            if rest == 1 {
                assert(1 * p == p);
            }
            if len >= 128 {
                lemma_pow127();
                lemma_pow2_unfold(128);
                if len > 128 {
                    lemma_pow2_strictly_increases(128, len as nat);
                }
                assert(rest * p >= p) by (nonlinear_arith)
                    requires
                        rest >= 1,
                ;
                assert(false);
            }
        }
        rest = rest / 2;
        len = len + 1;
    }
    proof {
        assert((rest + 1) * pow2(len as nat) == pow2(len as nat)) by (nonlinear_arith)
            requires
                rest == 0,
        ;
    }
    len
}

/// The magnitude bits closest to the ratio `n / d` that `m`, `e` and `sticky` bracket.
pub fn pack(m: u128, e: i32, sticky: bool, Ghost(n): Ghost<nat>, Ghost(d): Ghost<nat>) -> (bits: u64)
    requires
        0 < m < 0x1000_0000_0000_0000_0000_0000_0000_0000,
        -3000 <= e <= 4000,
        d > 0,
        sticky ==> m >= 0x40_0000_0000_0000,
        brackets(n, d, m as nat, e as int, sticky),
    ensures
        bits == nearest(n, d),
{
    let len: u32 = bit_length(m);
    proof {
        lemma_pow127();
        lemma_two52();
        if len > 124 {
            if len > 125 {
                lemma_pow2_strictly_increases(124, (len - 1) as nat);
            }
            assert(false);
        }
        if sticky && len < 55 {
            if len < 54 {
                lemma_pow2_strictly_increases(len as nat, 54);
            }
            assert(false);
        }
    }
    let k: i32 = if e + len as i32 - 53 > 0 {
        e + len as i32 - 53
    } else {
        0
    };
    let q: u64;
    if e >= k {
        let shift: u32 = (e - k) as u32;
        let p: u128 = two_to(shift);
        proof {
            assert(!sticky);
            lemma_nearest_exact(
                n,
                d,
                m as nat,
                e as int,
                len as nat,
                k as nat,
                m as nat * pow2(shift as nat),
            );
            lemma_pow2_adds(len as nat, shift as nat);
            assert(m * pow2(shift as nat) < pow2(len as nat) * pow2(shift as nat))
                by (nonlinear_arith)
                requires
                    m < pow2(len as nat),
                    pow2(shift as nat) >= 1,
            ;
            if len + shift < 53 {
                lemma_pow2_strictly_increases((len + shift) as nat, 53);
            }
        }
        q = (m * p) as u64;
    } else {
        let s: u32 = (k - e) as u32;
        if s >= 126 {
            proof {
                if s > 126 {
                    lemma_pow2_strictly_increases(126, s as nat);
                }
                lemma_pow2_unfold(s as nat);
                assert(0 * pow2(s as nat) == 0);
                lemma_nearest_shifted(
                    n,
                    d,
                    m as nat,
                    e as int,
                    sticky,
                    len as nat,
                    k as nat,
                    s as nat,
                    0,
                    m as nat,
                );
            }
            q = 0;
        } else {
            let p: u128 = two_to(s);
            let half: u128 = two_to(s - 1);
            let whole: u128 = m / p;
            let rest: u128 = m % p;
            proof {
                lemma_fundamental_div_mod(m as int, p as int);
                assert(p * whole == whole * p) by (nonlinear_arith);
                lemma_nearest_shifted(
                    n,
                    d,
                    m as nat,
                    e as int,
                    sticky,
                    len as nat,
                    k as nat,
                    s as nat,
                    whole as nat,
                    rest as nat,
                );
                // whole < 2^53
                lemma_pow2_adds(53, s as nat);
                if len < 53 + s {
                    lemma_pow2_strictly_increases(len as nat, (53 + s) as nat);
                }
                assert(whole < 0x20_0000_0000_0000) by (nonlinear_arith)
                    requires
                        whole * p <= m,
                        m < 0x20_0000_0000_0000 * p,
                        p > 0,
                ;
            }
            let up: bool = rest > half || (rest == half && (sticky || whole % 2 == 1));
            q = if up {
                whole as u64 + 1
            } else {
                whole as u64
            };
        }
    }
    if k >= 2047 {
        return INFINITY_BITS;
    }
    let bits: u64 = k as u64 * HIDDEN_BIT + q;
    if bits < INFINITY_BITS {
        bits
    } else {
        INFINITY_BITS
    }
}

} // verus!
