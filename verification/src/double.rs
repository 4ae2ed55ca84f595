//! Binary64 numbers held as their bit patterns, with correctly rounded arithmetic.
//!
//! A finite number is an integer count of units, where one unit is the smallest positive
//! binary64 number, `2^-1074`. Arithmetic is stated over these counts.

use vstd::arithmetic::div_mod::lemma_fundamental_div_mod;
use vstd::arithmetic::div_mod::lemma_fundamental_div_mod_converse;
use vstd::arithmetic::power2::lemma2_to64;
use vstd::arithmetic::power2::lemma2_to64_rest;
use vstd::arithmetic::power2::lemma_pow2_unfold;
use vstd::arithmetic::power2::lemma_pow2_adds;
use vstd::arithmetic::power2::lemma_pow2_pos;
use vstd::arithmetic::power2::lemma_pow2_strictly_increases;
use vstd::arithmetic::power2::pow2;
use vstd::prelude::*;

use crate::rounding::lemma_brackets_exact;
use crate::rounding::lemma_brackets_within;
use crate::rounding::lemma_pow127;
use crate::rounding::lemma_two52;
use crate::rounding::nearest;
use crate::rounding::lemma_nearest_zero;
use crate::rounding::brackets;
use crate::rounding::bit_length;
use crate::rounding::OFFSET;
use crate::rounding::pack;
use crate::rounding::two_to;
use crate::rounding::HIDDEN_BIT;
use crate::rounding::INFINITY_BITS;

verus! {

/// The weight of the sign bit.
pub const SIGN_BIT: u64 = 0x8000_0000_0000_0000;

/// A binary64 number.
#[derive(Clone, Copy, Debug)]
pub struct Double {
    pub bits: u64,
}

/// Positive zero.
pub const ZERO: u64 = 0;

/// One.
pub const ONE: u64 = 0x3ff0_0000_0000_0000;

/// The NaN that every operation without a numeric result returns.
pub const NAN: u64 = 0x7ff8_0000_0000_0000;

/// The number with the given bit pattern.
#[verifier::allow_in_spec]
pub fn num(bits: u64) -> Double
    returns
        (Double { bits }),
{
    Double { bits }
}

/// The number of doublings applied to the significand of the magnitude `mag`.
pub open spec fn exponent_index(mag: nat) -> nat {
    let top = mag / (HIDDEN_BIT as nat);
    if top == 0 {
        0
    } else {
        (top - 1) as nat
    }
}

/// The significand of the magnitude `mag`.
pub open spec fn significand(mag: nat) -> nat {
    (mag - exponent_index(mag) * HIDDEN_BIT) as nat
}

/// The number of units that the magnitude `mag` stands for.
pub open spec fn units(mag: nat) -> nat {
    significand(mag) * pow2(exponent_index(mag))
}

/// The number with the given sign and magnitude.
pub open spec fn signed(negative: bool, mag: nat) -> Double {
    Double {
        bits: (if negative {
            mag + SIGN_BIT
        } else {
            mag as int
        }) as u64,
    }
}

pub open spec fn magnitude_of(v: int) -> nat {
    if v < 0 {
        (-v) as nat
    } else {
        v as nat
    }
}

/// The number of units in one, `2^1074`.
pub open spec fn one_units() -> nat {
    pow2(1074)
}

/// The integer part of the square root of `n`.
pub open spec fn floor_root(n: nat) -> nat {
    choose|t: nat| t * t <= n && n < #[trigger] ((t + 1) * (t + 1))
}

/// The magnitude closest to the square root of `v` units.
///
/// The root is taken with 60 binary digits below the unit; an inexact root is represented by the
/// middle of the interval it lies in, which rounds the way the root itself does.
pub open spec fn nearest_root(v: nat) -> nat {
    let n = v * one_units() * pow2(120);
    let t = floor_root(n);
    let n2: nat = if t * t == n {
        2 * t
    } else {
        2 * t + 1
    };
    nearest(n2, pow2(61))
}

impl Double {
    /// Whether the sign bit is set.
    pub open spec fn negative(self) -> bool {
        self.bits >= SIGN_BIT
    }

    /// The bits below the sign bit.
    pub open spec fn magnitude(self) -> nat {
        if self.negative() {
            (self.bits - SIGN_BIT) as nat
        } else {
            self.bits as nat
        }
    }

    pub open spec fn nan(self) -> bool {
        self.magnitude() > INFINITY_BITS
    }

    pub open spec fn infinite(self) -> bool {
        self.magnitude() == INFINITY_BITS
    }

    pub open spec fn finite(self) -> bool {
        self.magnitude() < INFINITY_BITS
    }

    /// The number of units, for a finite number.
    pub open spec fn value(self) -> int {
        if self.negative() {
            -(units(self.magnitude()) as int)
        } else {
            units(self.magnitude()) as int
        }
    }

    /// A monotone integer image of the number, for numbers other than NaN.
    pub open spec fn rank(self) -> int {
        if self.negative() {
            -(self.magnitude() as int)
        } else {
            self.magnitude() as int
        }
    }

    /// Numeric equality: the two zeros are equal, NaN equals nothing.
    pub open spec fn equals(self, other: Double) -> bool {
        !self.nan() && !other.nan() && self.rank() == other.rank()
    }

    pub open spec fn spec_lt(self, other: Double) -> bool {
        !self.nan() && !other.nan() && self.rank() < other.rank()
    }

    pub open spec fn spec_le(self, other: Double) -> bool {
        !self.nan() && !other.nan() && self.rank() <= other.rank()
    }

    pub open spec fn spec_gt(self, other: Double) -> bool {
        other < self
    }

    pub open spec fn spec_ge(self, other: Double) -> bool {
        other <= self
    }

    #[verifier::opaque]
    pub open spec fn spec_add(self, other: Double) -> Double {
        if self.nan() || other.nan() {
            num(NAN)
        } else if self.infinite() {
            if other.infinite() && self.negative() != other.negative() {
                num(NAN)
            } else {
                self
            }
        } else if other.infinite() {
            other
        } else {
            let v = self.value() + other.value();
            if v == 0 {
                signed(self.negative() && other.negative(), 0)
            } else {
                signed(v < 0, nearest(magnitude_of(v), 1))
            }
        }
    }

    pub open spec fn spec_sub(self, other: Double) -> Double {
        self + other.negated()
    }

    #[verifier::opaque]
    pub open spec fn spec_mul(self, other: Double) -> Double {
        let sign = self.negative() != other.negative();
        if self.nan() || other.nan() {
            num(NAN)
        } else if self.infinite() || other.infinite() {
            if self.magnitude() == 0 || other.magnitude() == 0 {
                num(NAN)
            } else {
                signed(sign, INFINITY_BITS as nat)
            }
        } else {
            signed(
                sign,
                nearest(units(self.magnitude()) * units(other.magnitude()), one_units()),
            )
        }
    }

    #[verifier::opaque]
    pub open spec fn over(self, other: Double) -> Double {
        let sign = self.negative() != other.negative();
        if self.nan() || other.nan() {
            num(NAN)
        } else if self.infinite() {
            if other.infinite() {
                num(NAN)
            } else {
                signed(sign, INFINITY_BITS as nat)
            }
        } else if other.infinite() {
            signed(sign, 0)
        } else if other.magnitude() == 0 {
            if self.magnitude() == 0 {
                num(NAN)
            } else {
                signed(sign, INFINITY_BITS as nat)
            }
        } else {
            signed(
                sign,
                nearest(units(self.magnitude()) * one_units(), units(other.magnitude())),
            )
        }
    }

    #[verifier::opaque]
    pub open spec fn root(self) -> Double {
        if self.nan() {
            num(NAN)
        } else if self.magnitude() == 0 {
            self
        } else if self.negative() {
            num(NAN)
        } else if self.infinite() {
            self
        } else {
            signed(false, nearest_root(units(self.magnitude())))
        }
    }

    pub open spec fn spec_euclidean_or_real_div(self, other: Double) -> Double {
        self.over(other)
    }

    /// The number with the opposite sign.
    #[verifier::allow_in_spec]
    pub fn negated(self) -> Double
        returns
            signed(!self.negative(), self.magnitude()),
    {
        if self.bits >= SIGN_BIT {
            Double { bits: self.bits - SIGN_BIT }
        } else {
            Double { bits: self.bits + SIGN_BIT }
        }
    }

    #[verifier::allow_in_spec]
    pub fn is_nan(self) -> bool
        returns
            self.nan(),
    {
        magnitude_bits(self) > INFINITY_BITS
    }

    #[verifier::allow_in_spec]
    pub fn is_finite(self) -> bool
        returns
            self.finite(),
    {
        magnitude_bits(self) < INFINITY_BITS
    }
}

pub fn magnitude_bits(a: Double) -> (mag: u64)
    ensures
        mag == a.magnitude(),
        mag < SIGN_BIT,
{
    if a.bits >= SIGN_BIT {
        a.bits - SIGN_BIT
    } else {
        a.bits
    }
}

/// The significand of `mag` and the number of doublings applied to it.
pub fn parts(mag: u64) -> (r: (u64, u32))
    requires
        mag < INFINITY_BITS,
    ensures
        r.0 == significand(mag as nat),
        r.1 == exponent_index(mag as nat),
        r.0 < 0x20_0000_0000_0000,
        r.1 <= 2045,
        r.1 > 0 ==> r.0 >= 0x10_0000_0000_0000,
        units(mag as nat) == r.0 * pow2(r.1 as nat),
        mag == 0 <==> r.0 == 0,
{
    let top: u64 = mag / HIDDEN_BIT;
    if top == 0 {
        (mag, 0)
    } else {
        (mag - (top - 1) * HIDDEN_BIT, (top - 1) as u32)
    }
}

pub fn with_sign(negative: bool, mag: u64) -> (r: Double)
    requires
        mag <= INFINITY_BITS,
    ensures
        r == signed(negative, mag as nat),
{
    if negative {
        Double { bits: mag + SIGN_BIT }
    } else {
        Double { bits: mag }
    }
}

pub open spec fn with_sign_of(negative: bool, n: int) -> int {
    if negative {
        -n
    } else {
        n
    }
}

/// Adds two finite numbers given by sign, significand and exponent, the first with the larger
/// exponent.
fn add_parts(s1: bool, m1: u64, k1: u32, s2: bool, m2: u64, k2: u32, Ghost(v): Ghost<int>) -> (r:
    Double)
    requires
        m1 < 0x20_0000_0000_0000,
        m2 < 0x20_0000_0000_0000,
        k1 <= 2045,
        k2 <= k1,
        k1 > 0 ==> m1 >= 0x10_0000_0000_0000,
        v == with_sign_of(s1, m1 * pow2(k1 as nat)) + with_sign_of(s2, m2 * pow2(k2 as nat)),
    ensures
        v == 0 ==> r == signed(s1 && s2, 0),
        v != 0 ==> r == signed(v < 0, nearest(magnitude_of(v), 1)),
{
    let diff: u32 = k1 - k2;
    let ghost g2 = pow2(k2 as nat);
    proof {
        lemma_pow2_pos(k2 as nat);
        lemma_two52();
        lemma_pow127();
    }
    if diff <= 70 {
        let p: u128 = two_to(diff);
        proof {
            lemma_pow2_adds(70, 53);
            if diff < 70 {
                lemma_pow2_strictly_increases(diff as nat, 70);
            }
            lemma_pow2_strictly_increases(123, 124);
            let top = pow2(70);
            assert(m1 * p <= m1 * top) by (nonlinear_arith)
                requires
                    p <= top,
            ;
            assert(m1 * top < 0x20_0000_0000_0000 * top) by (nonlinear_arith)
                requires
                    m1 < 0x20_0000_0000_0000,
                    top > 0,
            ;
            lemma_pow2_adds(diff as nat, k2 as nat);
            assert(m1 * pow2(k1 as nat) == (m1 * p) * g2) by (nonlinear_arith)
                requires
                    pow2(k1 as nat) == p * g2,
            ;
        }
        let x: u128 = m1 as u128 * p;
        let y: u128 = m2 as u128;
        let total: u128;
        let negative: bool;
        if s1 == s2 {
            total = x + y;
            negative = s1;
        } else if x >= y {
            total = x - y;
            negative = s1;
        } else {
            total = y - x;
            negative = s2;
        }
        assert(v == with_sign_of(negative, total * g2)) by (nonlinear_arith)
            requires
                v == with_sign_of(s1, x * g2) + with_sign_of(s2, y * g2),
                s1 == s2 ==> total == x + y && negative == s1,
                s1 != s2 && x >= y ==> total == x - y && negative == s1,
                s1 != s2 && x < y ==> total == y - x && negative == s2,
        ;
        if total == 0 {
            return with_sign(s1 && s2, 0);
        }
        assert(total * g2 > 0) by (nonlinear_arith)
            requires
                total > 0,
                g2 > 0,
        ;
        proof {
            lemma_brackets_exact(magnitude_of(v), 1, total as nat, k2 as int);
        }
        let bits: u64 = pack(total, k2 as i32, false, Ghost(magnitude_of(v)), Ghost(1));
        with_sign(negative, bits)
    } else {
        let drop: u32 = diff - 66;
        let e: u32 = k1 - 66;
        let a: u128 = m1 as u128 * 0x4_0000_0000_0000_0000;
        let ghost p = pow2(drop as nat);
        let q: u128;
        let rest: u128;
        proof {
            lemma_pow2_pos(drop as nat);
        }
        if drop >= 64 {
            q = 0;
            rest = m2 as u128;
            proof {
                if drop > 64 {
                    lemma_pow2_strictly_increases(64, drop as nat);
                }
                assert(0 * p == 0);
            }
        } else {
            let pd: u128 = two_to(drop);
            q = m2 as u128 / pd;
            rest = m2 as u128 % pd;
            proof {
                lemma_fundamental_div_mod(m2 as int, pd as int);
                assert(pd * q == q * pd) by (nonlinear_arith);
                assert(q <= m2) by (nonlinear_arith)
                    requires
                        q * pd <= m2,
                        pd >= 1,
                ;
            }
        }
        let ghost ge = pow2(e as nat);
        proof {
            assert(m2 == q * p + rest && rest < p);
            lemma_pow2_adds(k2 as nat, drop as nat);
            lemma_pow2_pos(e as nat);
            lemma_pow2_adds(66, e as nat);
            assert(pow2(66) == 0x4_0000_0000_0000_0000) by {
                lemma_pow2_adds(64, 2);
                lemma2_to64();
            }
            assert(m1 * pow2(k1 as nat) == a * ge) by (nonlinear_arith)
                requires
                    a == m1 * 0x4_0000_0000_0000_0000,
                    pow2(k1 as nat) == 0x4_0000_0000_0000_0000 * ge,
            ;
            assert(m2 * g2 == q * ge + rest * g2) by (nonlinear_arith)
                requires
                    m2 == q * p + rest,
                    ge == g2 * p,
            ;
            assert(rest * g2 < ge) by (nonlinear_arith)
                requires
                    rest < p,
                    ge == g2 * p,
                    g2 > 0,
            ;
            assert(rest > 0 ==> rest * g2 > 0) by (nonlinear_arith)
                requires
                    g2 > 0,
            ;
            assert(rest == 0 ==> rest * g2 == 0) by (nonlinear_arith);
        }
        let sticky: bool = rest > 0;
        let m: u128 = if s1 == s2 {
            a + q
        } else if sticky {
            a - q - 1
        } else {
            a - q
        };
        let ghost n = magnitude_of(v);
        proof {
            if s1 == s2 {
                assert((a + q) * ge == a * ge + q * ge) by (nonlinear_arith);
            } else {
                assert((a - q) * ge == a * ge - q * ge) by (nonlinear_arith);
            }
            assert((m + 1) * ge == m * ge + ge) by (nonlinear_arith);
            assert(m * ge >= 0x40_0000_0000_0000 * ge) by (nonlinear_arith)
                requires
                    m >= 0x40_0000_0000_0000,
            ;
            if sticky {
                if s1 != s2 {
                    assert(((m + 1) * ge) == (a - q) * ge);
                }
                lemma_brackets_within(n, 1, m as nat, e as int);
            } else {
                lemma_brackets_exact(n, 1, m as nat, e as int);
            }
        }
        let bits: u64 = pack(m, e as i32, sticky, Ghost(n), Ghost(1));
        with_sign(s1, bits)
    }
}

impl std::ops::Add for Double {
    type Output = Double;

    fn add(self, rhs: Double) -> Double {
        proof {
            reveal(Double::spec_add);
        }
        let x: u64 = magnitude_bits(self);
        let y: u64 = magnitude_bits(rhs);
        let s1: bool = self.bits >= SIGN_BIT;
        let s2: bool = rhs.bits >= SIGN_BIT;
        if x > INFINITY_BITS || y > INFINITY_BITS {
            return num(NAN);
        }
        if x == INFINITY_BITS {
            return if y == INFINITY_BITS && s1 != s2 {
                num(NAN)
            } else {
                self
            };
        }
        if y == INFINITY_BITS {
            return rhs;
        }
        let (m1, k1) = parts(x);
        let (m2, k2) = parts(y);
        let ghost v = self.value() + rhs.value();
        if k1 >= k2 {
            add_parts(s1, m1, k1, s2, m2, k2, Ghost(v))
        } else {
            add_parts(s2, m2, k2, s1, m1, k1, Ghost(v))
        }
    }
}

impl vstd::std_specs::ops::AddSpecImpl for Double {
    open spec fn obeys_add_spec() -> bool {
        true
    }

    open spec fn add_req(self, rhs: Double) -> bool {
        true
    }

    open spec fn add_spec(self, rhs: Double) -> Double {
        self + rhs
    }
}

impl std::ops::Sub for Double {
    type Output = Double;

    fn sub(self, rhs: Double) -> Double {
        self + rhs.negated()
    }
}

impl vstd::std_specs::ops::SubSpecImpl for Double {
    open spec fn obeys_sub_spec() -> bool {
        true
    }

    open spec fn sub_req(self, rhs: Double) -> bool {
        true
    }

    open spec fn sub_spec(self, rhs: Double) -> Double {
        self - rhs
    }
}

impl std::ops::Mul for Double {
    type Output = Double;

    fn mul(self, rhs: Double) -> Double {
        proof {
            reveal(Double::spec_mul);
            lemma_pow2_pos(1074);
        }
        let x: u64 = magnitude_bits(self);
        let y: u64 = magnitude_bits(rhs);
        let sign: bool = (self.bits >= SIGN_BIT) != (rhs.bits >= SIGN_BIT);
        if x > INFINITY_BITS || y > INFINITY_BITS {
            return num(NAN);
        }
        if x == INFINITY_BITS || y == INFINITY_BITS {
            return if x == 0 || y == 0 {
                num(NAN)
            } else {
                with_sign(sign, INFINITY_BITS)
            };
        }
        let (m1, k1) = parts(x);
        let (m2, k2) = parts(y);
        let ghost n = units(x as nat) * units(y as nat);
        assert(m1 * m2 < 0x20_0000_0000_0000 * 0x20_0000_0000_0000) by (nonlinear_arith)
            requires
                m1 < 0x20_0000_0000_0000,
                m2 < 0x20_0000_0000_0000,
        ;
        let m: u128 = m1 as u128 * m2 as u128;
        proof {
            let g1 = pow2(k1 as nat);
            let g2 = pow2(k2 as nat);
            assert(n == m * (g1 * g2)) by (nonlinear_arith)
                requires
                    n == (m1 * g1) * (m2 * g2),
                    m == m1 * m2,
            ;
        }
        if m == 0 {
            proof {
                let g = pow2(k1 as nat) * pow2(k2 as nat);
                assert(n == 0) by (nonlinear_arith)
                    requires
                        n == m * g,
                        m == 0,
                ;
                lemma_nearest_zero(one_units());
            }
            return with_sign(sign, 0);
        }
        let e: i32 = k1 as i32 + k2 as i32 - 1074;
        proof {
            let g1 = pow2(k1 as nat);
            let g2 = pow2(k2 as nat);
            let a = pow2((e + OFFSET) as nat);
            let c = pow2(OFFSET as nat);
            let d = one_units();
            lemma_pow2_adds(k1 as nat, k2 as nat);
            lemma_pow2_adds((k1 + k2) as nat, OFFSET as nat);
            lemma_pow2_adds((e + OFFSET) as nat, 1074);
            assert(n * c == m * a * d) by (nonlinear_arith)
                requires
                    n == m * (g1 * g2),
                    (g1 * g2) * c == a * d,
            ;
        }
        let bits: u64 = pack(m, e, false, Ghost(n), Ghost(one_units()));
        with_sign(sign, bits)
    }
}

impl vstd::std_specs::ops::MulSpecImpl for Double {
    open spec fn obeys_mul_spec() -> bool {
        true
    }

    open spec fn mul_req(self, rhs: Double) -> bool {
        true
    }

    open spec fn mul_spec(self, rhs: Double) -> Double {
        self * rhs
    }
}

/// Divides two positive finite magnitudes.
fn divide_parts(m1: u64, k1: u32, m2: u64, k2: u32, Ghost(n): Ghost<nat>, Ghost(d): Ghost<nat>) -> (
bits: u64)
    requires
        0 < m1 < 0x20_0000_0000_0000,
        0 < m2 < 0x20_0000_0000_0000,
        k1 <= 2045,
        k2 <= 2045,
        n == m1 * pow2(k1 as nat) * one_units(),
        d == m2 * pow2(k2 as nat),
    ensures
        bits == nearest(n, d),
{
    let len: u32 = bit_length(m1 as u128);
    proof {
        lemma_two52();
        lemma_pow127();
        if len > 53 {
            if len > 54 {
                lemma_pow2_strictly_increases(53, (len - 1) as nat);
            }
            assert(false);
        }
    }
    let shift: u32 = 53 - len;
    let p: u128 = two_to(shift);
    proof {
        lemma_pow2_adds((len - 1) as nat, shift as nat);
        lemma_pow2_adds(len as nat, shift as nat);
        assert(m1 * p >= 0x10_0000_0000_0000) by (nonlinear_arith)
            requires
                m1 >= pow2((len - 1) as nat),
                p == pow2(shift as nat),
                pow2((len - 1) as nat) * pow2(shift as nat) == 0x10_0000_0000_0000,
        ;
        assert(m1 * p < 0x20_0000_0000_0000) by (nonlinear_arith)
            requires
                m1 < pow2(len as nat),
                p == pow2(shift as nat),
                p >= 1,
                pow2(len as nat) * pow2(shift as nat) == 0x20_0000_0000_0000,
        ;
    }
    let whole: u128 = m1 as u128 * p;
    let top: u128 = whole * 0x1_0000_0000_0000_0000;
    let divisor: u128 = m2 as u128;
    let q: u128 = top / divisor;
    let rest: u128 = top % divisor;
    let e: i32 = k1 as i32 - shift as i32 - 64 - k2 as i32 + 1074;
    let sticky: bool = rest > 0;
    proof {
        lemma_fundamental_div_mod(top as int, divisor as int);
        assert(divisor * q == q * divisor) by (nonlinear_arith);
        assert(q >= 0x4000_0000_0000_0000) by (nonlinear_arith)
            requires
                top == q * divisor + rest,
                rest < divisor,
                divisor < 0x20_0000_0000_0000,
                top >= 0x10_0000_0000_0000 * 0x1_0000_0000_0000_0000,
        ;
        assert(q <= top) by (nonlinear_arith)
            requires
                q * divisor <= top,
                divisor >= 1,
        ;
        let a = pow2((e + OFFSET) as nat);
        let c = pow2(OFFSET as nat);
        let g1 = pow2(k1 as nat);
        let g2 = pow2(k2 as nat);
        let u = one_units();
        // the common scale of dividend and divisor
        let w = pow2((e + OFFSET + k2) as nat);
        lemma_pow2_adds((e + OFFSET) as nat, k2 as nat);
        lemma_pow2_adds(shift as nat, 64);
        lemma_pow2_adds((shift + 64) as nat, (e + OFFSET + k2) as nat);
        lemma_pow2_adds(k1 as nat, 1074);
        lemma_pow2_adds((k1 + 1074) as nat, OFFSET as nat);
        assert((p * pow2(64)) * w == (g1 * u) * c);
        assert(n * c == top * w) by (nonlinear_arith)
            requires
                n == m1 * g1 * u,
                top == (m1 * p) * pow2(64),
                (p * pow2(64)) * w == (g1 * u) * c,
        ;
        assert(a * d == divisor * w) by (nonlinear_arith)
            requires
                d == divisor * g2,
                w == a * g2,
        ;
        lemma_pow2_pos(k2 as nat);
        assert(d > 0) by (nonlinear_arith)
            requires
                d == divisor * g2,
                divisor > 0,
                g2 > 0,
        ;
        lemma_pow2_pos((e + OFFSET + k2) as nat);
        assert(q * a * d == q * divisor * w) by (nonlinear_arith)
            requires
                a * d == divisor * w,
        ;
        assert((q + 1) * a * d == (q * divisor + divisor) * w) by (nonlinear_arith)
            requires
                a * d == divisor * w,
        ;
        assert(top * w == q * divisor * w + rest * w) by (nonlinear_arith)
            requires
                top == q * divisor + rest,
        ;
        assert((q * divisor + divisor) * w == q * divisor * w + divisor * w) by (nonlinear_arith);
        assert(rest * w < divisor * w) by (nonlinear_arith)
            requires
                rest < divisor,
                w > 0,
        ;
        assert(rest > 0 ==> rest * w > 0) by (nonlinear_arith)
            requires
                w > 0,
        ;
        assert(rest == 0 ==> rest * w == 0) by (nonlinear_arith);
        assert(brackets(n, d, q as nat, e as int, sticky));
    }
    pack(q, e, sticky, Ghost(n), Ghost(d))
}

impl std::ops::Div for Double {
    type Output = Double;

    fn div(self, rhs: Double) -> Double {
        proof {
            reveal(Double::over);
        }
        let x: u64 = magnitude_bits(self);
        let y: u64 = magnitude_bits(rhs);
        let sign: bool = (self.bits >= SIGN_BIT) != (rhs.bits >= SIGN_BIT);
        if x > INFINITY_BITS || y > INFINITY_BITS {
            return num(NAN);
        }
        if x == INFINITY_BITS {
            return if y == INFINITY_BITS {
                num(NAN)
            } else {
                with_sign(sign, INFINITY_BITS)
            };
        }
        if y == INFINITY_BITS {
            return with_sign(sign, 0);
        }
        if y == 0 {
            return if x == 0 {
                num(NAN)
            } else {
                with_sign(sign, INFINITY_BITS)
            };
        }
        let (m1, k1) = parts(x);
        let (m2, k2) = parts(y);
        let ghost n = units(x as nat) * one_units();
        let ghost d = units(y as nat);
        proof {
            lemma_pow2_pos(k2 as nat);
            assert(d > 0) by (nonlinear_arith)
                requires
                    d == m2 * pow2(k2 as nat),
                    m2 > 0,
                    pow2(k2 as nat) > 0,
            ;
        }
        if m1 == 0 {
            proof {
                assert(n == 0) by (nonlinear_arith)
                    requires
                        n == m1 * pow2(k1 as nat) * one_units(),
                        m1 == 0,
                ;
                lemma_nearest_zero(d);
            }
            return with_sign(sign, 0);
        }
        let bits: u64 = divide_parts(m1, k1, m2, k2, Ghost(n), Ghost(d));
        with_sign(sign, bits)
    }
}

impl vstd::std_specs::ops::DivSpecImpl for Double {
    open spec fn obeys_div_spec() -> bool {
        true
    }

    open spec fn div_req(self, rhs: Double) -> bool {
        true
    }

    open spec fn div_spec(self, rhs: Double) -> Double {
        self / rhs
    }
}

impl PartialEq for Double {
    fn eq(&self, other: &Double) -> (r: bool) {
        let x: u64 = magnitude_bits(*self);
        let y: u64 = magnitude_bits(*other);
        if x > INFINITY_BITS || y > INFINITY_BITS {
            false
        } else {
            x == y && ((self.bits >= SIGN_BIT) == (other.bits >= SIGN_BIT) || x == 0)
        }
    }
}

impl vstd::std_specs::cmp::PartialEqSpecImpl for Double {
    open spec fn obeys_eq_spec() -> bool {
        true
    }

    open spec fn eq_spec(&self, other: &Double) -> bool {
        self.equals(*other)
    }
}

impl PartialOrd for Double {
    fn partial_cmp(&self, other: &Double) -> (r: Option<core::cmp::Ordering>) {
        let x: u64 = magnitude_bits(*self);
        let y: u64 = magnitude_bits(*other);
        let s1: bool = self.bits >= SIGN_BIT;
        let s2: bool = other.bits >= SIGN_BIT;
        if x > INFINITY_BITS || y > INFINITY_BITS {
            return None;
        }
        if x == y && (s1 == s2 || x == 0) {
            return Some(core::cmp::Ordering::Equal);
        }
        let less: bool = if s1 {
            if s2 {
                x > y
            } else {
                true
            }
        } else {
            if s2 {
                false
            } else {
                x < y
            }
        };
        if less {
            Some(core::cmp::Ordering::Less)
        } else {
            Some(core::cmp::Ordering::Greater)
        }
    }
}

impl vstd::std_specs::cmp::PartialOrdSpecImpl for Double {
    open spec fn obeys_partial_cmp_spec() -> bool {
        true
    }

    open spec fn partial_cmp_spec(&self, other: &Double) -> Option<core::cmp::Ordering> {
        if *self < *other {
            Some(core::cmp::Ordering::Less)
        } else if *other < *self {
            Some(core::cmp::Ordering::Greater)
        } else if self.equals(*other) {
            Some(core::cmp::Ordering::Equal)
        } else {
            None
        }
    }
}

proof fn lemma_root_unique(n: nat, t: nat)
    requires
        t * t <= n < (t + 1) * (t + 1),
    ensures
        floor_root(n) == t,
{
    let u = floor_root(n);
    assert(u * u <= n && n < (u + 1) * (u + 1));
    assert(u == t) by (nonlinear_arith)
        requires
            t * t <= n,
            n < (t + 1) * (t + 1),
            u * u <= n,
            n < (u + 1) * (u + 1),
    ;
}

/// The integer part of the square root exists.
pub proof fn lemma_root_exists(n: nat) -> (t: nat)
    ensures
        t * t <= n < (t + 1) * (t + 1),
    decreases n,
{
    if n == 0 {
        let z: nat = 0;
        assert(z * z == 0 && (z + 1) * (z + 1) == 1) by (nonlinear_arith)
            requires
                z == 0,
        ;
        z
    } else {
        let u = lemma_root_exists((n - 1) as nat);
        if n < (u + 1) * (u + 1) {
            u
        } else {
            let next: nat = u + 1;
            assert((next + 1) * (next + 1) > next * next) by (nonlinear_arith);
            next
        }
    }
}

/// A square that is a multiple of a power of four is the power of four times a square.
proof fn lemma_square_reduces(t: nat, m: nat, j: nat) -> (u: nat)
    requires
        t * t == m * pow2(2 * j),
    ensures
        u * u == m,
    decreases j,
{
    if j == 0 {
        lemma_two52();
        t
    } else {
        let h = (j - 1) as nat;
        lemma_pow2_unfold((2 * j) as nat);
        lemma_pow2_unfold((2 * j - 1) as nat);
        let p = pow2(2 * h);
        assert(pow2(2 * j) == 4 * p);
        assert(m * (4 * p) == 4 * (m * p)) by (nonlinear_arith);
        let half = t / 2;
        if t % 2 == 1 {
            assert(t * t == 4 * (half * half + half) + 1) by (nonlinear_arith)
                requires
                    t == 2 * half + 1,
            ;
            assert(false);
        }
        assert(t * t == 4 * (half * half)) by (nonlinear_arith)
            requires
                t == 2 * half,
        ;
        lemma_square_reduces(half, m, h)
    }
}

/// The bracket of a root computed from the shifted significand `big`.
proof fn lemma_root_brackets(v: nat, big: nat, e: nat, t: nat)
    requires
        v * one_units() == big * pow2(2 * e),
        t * t <= big < (t + 1) * (t + 1),
    ensures
        nearest_root(v) == nearest(
            if t * t == big {
                2 * (t * pow2(e + 60))
            } else {
                2 * floor_root(v * one_units() * pow2(120)) + 1
            },
            pow2(61),
        ),
        brackets(
            if t * t == big {
                2 * (t * pow2(e + 60))
            } else {
                2 * floor_root(v * one_units() * pow2(120)) + 1
            },
            pow2(61),
            t,
            e as int,
            t * t != big,
        ),
{
    let j = e + 60;
    let n = v * one_units() * pow2(120);
    let g = pow2(j);
    let ge = pow2(e);
    lemma_pow2_adds(2 * e, 120);
    lemma_pow2_adds(j, j);
    lemma_pow2_adds(e, 60);
    lemma_pow2_pos(j);
    assert(pow2(61) == 2 * pow2(60)) by {
        lemma_pow2_unfold(61);
    }
    let s = pow2(60);
    assert(n == big * (g * g)) by (nonlinear_arith)
        requires
            n == v * one_units() * pow2(120),
            v * one_units() == big * pow2(2 * e),
            g * g == pow2(2 * e) * pow2(120),
    ;
    if t * t == big {
        let r = t * g;
        assert(r * r == n) by (nonlinear_arith)
            requires
                r == t * g,
                n == big * (g * g),
                t * t == big,
        ;
        assert(n < (r + 1) * (r + 1)) by (nonlinear_arith)
            requires
                r * r == n,
                r >= 0,
        ;
        lemma_root_unique(n, r);
        assert(2 * r == t * ge * (2 * s)) by (nonlinear_arith)
            requires
                r == t * g,
                g == ge * s,
        ;
        lemma_brackets_exact(2 * r, pow2(61), t, e as int);
    } else {
        let r = lemma_root_exists(n);
        lemma_root_unique(n, r);
        if r * r == n {
            assert(r * r == big * pow2(2 * j));
            let u = lemma_square_reduces(r, big, j);
            if u <= t {
                assert(u * u <= t * t) by (nonlinear_arith)
                    requires
                        u <= t,
                ;
            } else {
                assert(u * u >= (t + 1) * (t + 1)) by (nonlinear_arith)
                    requires
                        u >= t + 1,
                ;
            }
            assert(false);
        }
        let lo = t * g;
        let hi = (t + 1) * g;
        assert(lo * lo <= n) by (nonlinear_arith)
            requires
                lo == t * g,
                n == big * (g * g),
                t * t <= big,
        ;
        assert(hi * hi > n) by (nonlinear_arith)
            requires
                hi == (t + 1) * g,
                n == big * (g * g),
                (t + 1) * (t + 1) >= big + 1,
                g >= 1,
        ;
        assert(lo <= r) by (nonlinear_arith)
            requires
                lo * lo <= n,
                n < (r + 1) * (r + 1),
                lo >= 0,
        ;
        assert(r < hi) by (nonlinear_arith)
            requires
                hi * hi > n,
                r * r <= n,
                hi >= 0,
        ;
        assert(t * ge * (2 * s) == 2 * lo) by (nonlinear_arith)
            requires
                lo == t * g,
                g == ge * s,
        ;
        assert((t + 1) * ge * (2 * s) == 2 * hi) by (nonlinear_arith)
            requires
                hi == (t + 1) * g,
                g == ge * s,
        ;
        lemma_brackets_within(2 * r + 1, pow2(61), t, e as int);
    }
}

/// The integer part of the square root of `n`.
fn integer_root(n: u128) -> (t: u128)
    requires
        n < 0x400_0000_0000_0000_0000_0000_0000_0000,
    ensures
        t * t <= n < (t + 1) * (t + 1),
        t < 0x2000_0000_0000_0000,
{
    let mut t: u128 = 0;
    let mut bit: u128 = 0x1000_0000_0000_0000;
    let mut i: u32 = 61;
    proof {
        lemma2_to64_rest();
    }
    while i > 0
        invariant
            i <= 61,
            i > 0 ==> bit == pow2((i - 1) as nat),
            bit <= 0x1000_0000_0000_0000,
            t * t <= n,
            n < (t + pow2(i as nat)) * (t + pow2(i as nat)),
            t + pow2(i as nat) <= 0x2000_0000_0000_0000,
        decreases i,
    {
        proof {
            lemma_pow2_unfold(i as nat);
            if i > 1 {
                lemma_pow2_unfold((i - 1) as nat);
            }
        }
        let next: u128 = t + bit;
        assert(next * next <= 0x2000_0000_0000_0000 * 0x2000_0000_0000_0000) by (nonlinear_arith)
            requires
                next <= 0x2000_0000_0000_0000,
        ;
        if next * next <= n {
            t = next;
        }
        bit = bit / 2;
        i = i - 1;
    }
    proof {
        lemma_two52();
    }
    t
}

/// The magnitude closest to the root of `m * 2^k` units.
fn root_parts(m: u64, k: u32, Ghost(v): Ghost<nat>) -> (bits: u64)
    requires
        0 < m < 0x20_0000_0000_0000,
        k <= 2045,
        v == m * pow2(k as nat),
    ensures
        bits == nearest_root(v),
{
    let len: u32 = bit_length(m as u128);
    proof {
        lemma_two52();
        lemma_pow127();
        lemma_pow2_pos(61);
        if len > 53 {
            if len > 54 {
                lemma_pow2_strictly_increases(53, (len - 1) as nat);
            }
            assert(false);
        }
    }
    // an even total exponent, and at least 118 significant bits
    let even: u32 = 120 - len;
    let shift: u32 = if (k + 1074 - even) % 2 == 0 {
        even
    } else {
        even + 1
    };
    let p: u128 = two_to(shift);
    proof {
        lemma_pow2_adds((len - 1) as nat, shift as nat);
        lemma_pow2_adds(len as nat, shift as nat);
        lemma_pow2_adds(63, 58);
        lemma_pow2_adds(63, 57);
        lemma_pow2_adds(63, 56);
        lemma2_to64_rest();
        assert(m * p >= pow2((len - 1) as nat) * p) by (nonlinear_arith)
            requires
                m >= pow2((len - 1) as nat),
        ;
        assert(m * p < pow2(len as nat) * p) by (nonlinear_arith)
            requires
                m < pow2(len as nat),
                p >= 1,
        ;
    }
    let big: u128 = m as u128 * p;
    let e: u32 = (k + 1074 - shift) / 2;
    let t: u128 = integer_root(big);
    let sticky: bool = t * t != big;
    let ghost n: nat = if t * t == big {
        2 * (t as nat * pow2((e + 60) as nat))
    } else {
        2 * floor_root(v * one_units() * pow2(120)) + 1
    };
    proof {
        let g = pow2(k as nat);
        lemma_pow2_adds(k as nat, 1074);
        lemma_pow2_adds(shift as nat, (2 * e) as nat);
        assert(v * one_units() == big * pow2((2 * e) as nat)) by (nonlinear_arith)
            requires
                v == m * g,
                big == m * p,
                g * one_units() == p * pow2((2 * e) as nat),
        ;
        lemma_root_brackets(v, big as nat, e as nat, t as nat);
        assert(t >= 0x40_0000_0000_0000) by (nonlinear_arith)
            requires
                big < (t + 1) * (t + 1),
                big >= 0x80_0000_0000_0000 * 0x8000_0000_0000_0000,
        ;
    }
    pack(t, e as i32, sticky, Ghost(n), Ghost(pow2(61)))
}

impl Double {
    /// The square root.
    #[verifier::allow_in_spec]
    pub fn sqrt(self) -> Double
        returns
            self.root(),
    {
        proof {
            reveal(Double::root);
        }
        let x: u64 = magnitude_bits(self);
        if x > INFINITY_BITS {
            return num(NAN);
        }
        if x == 0 {
            return self;
        }
        if self.bits >= SIGN_BIT {
            return num(NAN);
        }
        if x == INFINITY_BITS {
            return self;
        }
        let (m, k) = parts(x);
        let bits: u64 = root_parts(m, k, Ghost(units(x as nat)));
        with_sign(false, bits)
    }
}

/// The integer `n`, rounded to a binary64 magnitude.
pub open spec fn nearest_integer(n: nat) -> nat {
    nearest(n * one_units(), 1)
}

/// The magnitude of the integer `m * 2^shift`.
fn integer_bits(m: u128, shift: u32) -> (bits: u64)
    requires
        m < 0x1000_0000_0000_0000_0000_0000_0000_0000,
        shift <= 1000,
    ensures
        bits == nearest_integer(m as nat * pow2(shift as nat)),
{
    let ghost n = m as nat * pow2(shift as nat) * one_units();
    if m == 0 {
        proof {
            assert(n == 0) by (nonlinear_arith)
                requires
                    n == m * pow2(shift as nat) * one_units(),
                    m == 0,
            ;
            lemma_nearest_zero(1);
        }
        return 0;
    }
    proof {
        lemma_pow2_adds(shift as nat, 1074);
        assert(n == m * pow2((shift + 1074) as nat) * 1) by (nonlinear_arith)
            requires
                n == m * pow2(shift as nat) * one_units(),
                pow2((shift + 1074) as nat) == pow2(shift as nat) * one_units(),
        ;
        lemma_brackets_exact(n, 1, m as nat, shift as int + 1074);
    }
    pack(m, shift as i32 + 1074, false, Ghost(n), Ghost(1))
}

/// The integer part of a magnitude.
pub open spec fn whole_part(mag: nat) -> nat {
    units(mag) / one_units()
}

/// Whether the magnitude has a part below one.
pub open spec fn has_fraction(mag: nat) -> bool {
    units(mag) % one_units() != 0
}

/// Whether the part below one is at least one half.
pub open spec fn has_half(mag: nat) -> bool {
    2 * (units(mag) % one_units()) >= one_units()
}

/// The integer part of a magnitude as `r.0 * 2^r.1`, whether anything is below one, and whether
/// that is at least one half.
fn split_whole(mag: u64) -> (r: (u64, u32, bool, bool))
    requires
        mag < INFINITY_BITS,
    ensures
        whole_part(mag as nat) == r.0 * pow2(r.1 as nat),
        r.2 == has_fraction(mag as nat),
        r.3 == has_half(mag as nat),
        r.1 > 0 ==> !r.2 && r.0 >= 0x10_0000_0000_0000,
        r.2 ==> r.0 < 0x10_0000_0000_0000,
        r.0 < 0x20_0000_0000_0000,
        r.1 <= 971,
{
    let (m, k) = parts(mag);
    let ghost u = units(mag as nat);
    let ghost one = one_units();
    proof {
        lemma_pow2_pos(1074);
        lemma_two52();
    }
    if k >= 1074 {
        proof {
            let g = pow2((k - 1074) as nat);
            lemma_pow2_adds((k - 1074) as nat, 1074);
            assert(u == (m * g) * one) by (nonlinear_arith)
                requires
                    u == m * pow2(k as nat),
                    pow2(k as nat) == g * one,
            ;
            lemma_fundamental_div_mod_converse(u as int, one as int, m * g, 0);
        }
        return (m, k - 1074, false, false);
    }
    let drop: u32 = 1074 - k;
    let ghost g = pow2(k as nat);
    let ghost p = pow2(drop as nat);
    proof {
        lemma_pow2_adds(k as nat, drop as nat);
        lemma_pow2_pos(k as nat);
        lemma_pow2_pos(drop as nat);
        lemma_pow2_unfold(drop as nat);
    }
    let q: u64;
    let rest: u64;
    let half: bool;
    if drop >= 64 {
        q = 0;
        rest = m;
        half = false;
        proof {
            if drop > 64 {
                lemma_pow2_strictly_increases(64, drop as nat);
            }
            assert(0 * p == 0);
        }
    } else {
        let pd: u128 = two_to(drop);
        let wide: u128 = m as u128;
        proof {
            lemma_fundamental_div_mod(wide as int, pd as int);
            assert(pd * (wide / pd) == (wide / pd) * pd) by (nonlinear_arith);
            assert(wide / pd < 0x10_0000_0000_0000) by (nonlinear_arith)
                requires
                    (wide / pd) * pd <= wide,
                    wide < 0x20_0000_0000_0000,
                    pd >= 2,
            ;
        }
        q = (wide / pd) as u64;
        rest = (wide % pd) as u64;
        half = 2 * (wide % pd) >= pd;
    }
    proof {
        assert(m == q * p + rest && rest < p);
        assert(u == q * one + rest * g) by (nonlinear_arith)
            requires
                u == m * g,
                m == q * p + rest,
                one == g * p,
        ;
        assert(rest * g < one) by (nonlinear_arith)
            requires
                rest < p,
                one == g * p,
                g > 0,
        ;
        lemma_fundamental_div_mod_converse(u as int, one as int, q as int, rest * g);
        assert((rest * g != 0) == (rest != 0)) by (nonlinear_arith)
            requires
                g > 0,
        ;
        assert((2 * (rest * g) >= one) == (2 * rest >= p)) by (nonlinear_arith)
            requires
                one == g * p,
                g > 0,
        ;
        assert(q * pow2(0) == q) by (nonlinear_arith)
            requires
                pow2(0) == 1,
        ;
    }
    (q, 0, rest != 0, half)
}

impl Double {
    /// The number with this sign and the integer `whole` as its magnitude.
    pub open spec fn with_whole(self, whole: nat) -> Double {
        signed(self.negative(), nearest_integer(whole))
    }

    #[verifier::opaque]
    pub open spec fn rounded_down(self) -> Double {
        let mag = self.magnitude();
        if !self.finite() {
            self
        } else if self.negative() && has_fraction(mag) {
            self.with_whole(whole_part(mag) + 1)
        } else {
            self.with_whole(whole_part(mag))
        }
    }

    #[verifier::opaque]
    pub open spec fn rounded_up(self) -> Double {
        let mag = self.magnitude();
        if !self.finite() {
            self
        } else if !self.negative() && has_fraction(mag) {
            self.with_whole(whole_part(mag) + 1)
        } else {
            self.with_whole(whole_part(mag))
        }
    }

    #[verifier::opaque]
    pub open spec fn rounded(self) -> Double {
        let mag = self.magnitude();
        if !self.finite() {
            self
        } else if has_half(mag) {
            self.with_whole(whole_part(mag) + 1)
        } else {
            self.with_whole(whole_part(mag))
        }
    }

    /// The integer part, saturating at the bounds of `u64`; zero for NaN.
    #[verifier::opaque]
    pub open spec fn as_integer(self) -> u64 {
        if self.nan() || self.negative() {
            0
        } else if self.infinite() || whole_part(self.magnitude()) > u64::MAX {
            u64::MAX
        } else {
            whole_part(self.magnitude()) as u64
        }
    }

    #[verifier::opaque]
    pub open spec fn of_integer(n: u64) -> Double {
        signed(false, nearest_integer(n as nat))
    }

    /// The largest integer not above the number.
    #[verifier::allow_in_spec]
    pub fn floor(self) -> Double
        returns
            self.rounded_down(),
    {
        proof {
            reveal(Double::rounded_down);
        }
        if !self.is_finite() {
            return self;
        }
        let negative: bool = self.bits >= SIGN_BIT;
        let (m, shift, fraction, half) = split_whole(magnitude_bits(self));
        self.whole(m, shift, negative && fraction)
    }

    /// The smallest integer not below the number.
    #[verifier::allow_in_spec]
    pub fn ceil(self) -> Double
        returns
            self.rounded_up(),
    {
        proof {
            reveal(Double::rounded_up);
        }
        if !self.is_finite() {
            return self;
        }
        let negative: bool = self.bits >= SIGN_BIT;
        let (m, shift, fraction, half) = split_whole(magnitude_bits(self));
        self.whole(m, shift, !negative && fraction)
    }

    /// The nearest integer; halves round away from zero.
    #[verifier::allow_in_spec]
    pub fn round(self) -> Double
        returns
            self.rounded(),
    {
        proof {
            reveal(Double::rounded);
            lemma_pow2_pos(1074);
        }
        if !self.is_finite() {
            return self;
        }
        let (m, shift, fraction, half) = split_whole(magnitude_bits(self));
        self.whole(m, shift, half)
    }

    fn whole(self, m: u64, shift: u32, up: bool) -> (r: Double)
        requires
            m < 0x20_0000_0000_0000,
            shift <= 971,
            up ==> shift == 0,
        ensures
            r == self.with_whole(
                if up {
                    (m * pow2(shift as nat) + 1) as nat
                } else {
                    m as nat * pow2(shift as nat)
                },
            ),
    {
        let total: u64 = if up {
            m + 1
        } else {
            m
        };
        proof {
            lemma_two52();
            if up {
                assert(m * pow2(0) == m && (m + 1) * pow2(0) == m + 1) by (nonlinear_arith)
                    requires
                        pow2(0) == 1,
                ;
            }
        }
        let bits: u64 = integer_bits(total as u128, shift);
        with_sign(self.bits >= SIGN_BIT, bits)
    }

    /// The integer part, saturating at the bounds of `u64`; zero for NaN.
    #[verifier::allow_in_spec]
    pub fn to_u64(self) -> u64
        returns
            self.as_integer(),
    {
        proof {
            reveal(Double::as_integer);
        }
        let x: u64 = magnitude_bits(self);
        if x > INFINITY_BITS || self.bits >= SIGN_BIT {
            return 0;
        }
        if x == INFINITY_BITS {
            return u64::MAX;
        }
        let (m, shift, fraction, half) = split_whole(x);
        proof {
            lemma_two52();
            lemma2_to64();
        }
        if shift >= 12 {
            proof {
                let g = pow2(shift as nat);
                if shift > 12 {
                    lemma_pow2_strictly_increases(12, shift as nat);
                }
                assert(m * g >= 0x10_0000_0000_0000 * 0x1000) by (nonlinear_arith)
                    requires
                        m >= 0x10_0000_0000_0000,
                        g >= 0x1000,
                ;
            }
            return u64::MAX;
        }
        let p: u128 = two_to(shift);
        proof {
            lemma_pow2_strictly_increases(shift as nat, 12);
            assert(m * p < 0x20_0000_0000_0000 * 0x1000) by (nonlinear_arith)
                requires
                    m < 0x20_0000_0000_0000,
                    p < 0x1000,
                    p >= 1,
            ;
        }
        let w: u128 = m as u128 * p;
        if w > u64::MAX as u128 {
            u64::MAX
        } else {
            w as u64
        }
    }

    /// The integer `n`.
    #[verifier::allow_in_spec]
    pub fn from_u64(n: u64) -> Double
        returns
            Double::of_integer(n),
    {
        proof {
            reveal(Double::of_integer);
            lemma_two52();
            assert(n * pow2(0) == n) by (nonlinear_arith)
                requires
                    pow2(0) == 1,
            ;
        }
        let bits: u64 = integer_bits(n as u128, 0);
        with_sign(false, bits)
    }

    /// The absolute value.
    #[verifier::allow_in_spec]
    pub fn abs(self) -> Double
        returns
            signed(false, self.magnitude()),
    {
        Double { bits: magnitude_bits(self) }
    }

    /// The smaller number; a NaN loses to any number.
    #[verifier::allow_in_spec]
    pub fn min(self, other: Double) -> Double
        returns
            (if self.nan() || other < self {
                other
            } else {
                self
            }),
    {
        if self.is_nan() || other < self {
            other
        } else {
            self
        }
    }

    /// The larger number; a NaN loses to any number.
    #[verifier::allow_in_spec]
    pub fn max(self, other: Double) -> Double
        returns
            (if self.nan() || self < other {
                other
            } else {
                self
            }),
    {
        if self.is_nan() || self < other {
            other
        } else {
            self
        }
    }

    /// The number restricted to the range from `low` to `high`.
    #[verifier::allow_in_spec]
    pub fn clamp(self, low: Double, high: Double) -> Double
        returns
            (if self < low {
                low
            } else if high < self {
                high
            } else {
                self
            }),
    {
        if self < low {
            low
        } else if high < self {
            high
        } else {
            self
        }
    }

    /// The number times itself.
    #[verifier::allow_in_spec]
    pub fn squared(self) -> Double
        returns
            self * self,
    {
        self * self
    }
}

/// The remainder of `m1 * 2^k1` divided by `m2 * 2^k2`, as `r.0 * 2^r.1`.
fn remainder_parts(m1: u64, k1: u32, m2: u64, k2: u32) -> (r: (u64, u32))
    requires
        m1 < 0x20_0000_0000_0000,
        0 < m2 < 0x20_0000_0000_0000,
        k1 <= 2045,
        k2 <= 2045,
        k2 > 0 ==> m2 >= 0x10_0000_0000_0000,
    ensures
        r.0 * pow2(r.1 as nat) == (m1 * pow2(k1 as nat)) % (m2 * pow2(k2 as nat)),
        r.0 < 0x20_0000_0000_0000,
        r.1 <= 2045,
{
    let ghost g1 = pow2(k1 as nat);
    let ghost g2 = pow2(k2 as nat);
    let ghost a = m1 * g1;
    let ghost b = m2 * g2;
    proof {
        lemma_two52();
        lemma_pow2_pos(k1 as nat);
        lemma_pow2_pos(k2 as nat);
        assert(b > 0) by (nonlinear_arith)
            requires
                b == m2 * g2,
                m2 > 0,
                g2 > 0,
        ;
    }
    if k1 >= k2 {
        let mut rest: u64 = m1 % m2;
        let mut i: u32 = k2;
        let ghost mut q: int = (m1 / m2) as int;
        proof {
            lemma_fundamental_div_mod(m1 as int, m2 as int);
            assert(m1 * 1 == m1);
            assert(m2 * q == q * m2) by (nonlinear_arith);
        }
        while i < k1
            invariant
                k2 <= i <= k1,
                0 < m2 < 0x20_0000_0000_0000,
                rest < m2,
                m1 * pow2((i - k2) as nat) == q * m2 + rest,
            decreases k1 - i,
        {
            let double: u64 = 2 * rest;
            let ghost p = pow2((i - k2) as nat);
            let ghost q0 = q;
            let ghost before = rest;
            proof {
                lemma_pow2_unfold((i + 1 - k2) as nat);
                assert(m1 * (2 * p) == 2 * (m1 * p)) by (nonlinear_arith);
            }
            if double >= m2 {
                rest = double - m2;
                proof {
                    q = 2 * q0 + 1;
                    assert((2 * q0 + 1) * m2 == 2 * (q0 * m2) + m2) by (nonlinear_arith);
                }
            } else {
                rest = double;
                proof {
                    q = 2 * q0;
                    assert((2 * q0) * m2 == 2 * (q0 * m2)) by (nonlinear_arith);
                }
            }
            i = i + 1;
        }
        proof {
            let p = pow2((k1 - k2) as nat);
            lemma_pow2_adds((k1 - k2) as nat, k2 as nat);
            assert(a == q * b + rest * g2) by (nonlinear_arith)
                requires
                    a == m1 * g1,
                    g1 == p * g2,
                    m1 * p == q * m2 + rest,
                    b == m2 * g2,
            ;
            assert(0 <= rest * g2 < b) by (nonlinear_arith)
                requires
                    rest < m2,
                    b == m2 * g2,
                    g2 > 0,
            ;
            lemma_fundamental_div_mod_converse(a as int, b as int, q, rest * g2);
        }
        return (rest, k2);
    }
    let diff: u32 = k2 - k1;
    if diff >= 2 {
        proof {
            lemma_pow2_adds(diff as nat, k1 as nat);
            if diff > 2 {
                lemma_pow2_strictly_increases(2, diff as nat);
            }
            lemma2_to64();
            let p = pow2(diff as nat);
            assert(a < b) by (nonlinear_arith)
                requires
                    a == m1 * g1,
                    b == m2 * g2,
                    g2 == p * g1,
                    p >= 4,
                    g1 > 0,
                    m1 < 0x20_0000_0000_0000,
                    m2 >= 0x10_0000_0000_0000,
            ;
            lemma_fundamental_div_mod_converse(a as int, b as int, 0, a as int);
        }
        return (m1, k1);
    }
    let twice: u64 = 2 * m2;
    let rest: u64 = m1 % twice;
    proof {
        lemma_pow2_unfold(k2 as nat);
        let q = m1 / twice;
        lemma_fundamental_div_mod(m1 as int, twice as int);
        assert(a == q * b + rest * g1) by (nonlinear_arith)
            requires
                a == m1 * g1,
                m1 == twice * q + rest,
                twice == 2 * m2,
                b == m2 * g2,
                g2 == 2 * g1,
        ;
        assert(0 <= rest * g1 < b) by (nonlinear_arith)
            requires
                rest < twice,
                twice == 2 * m2,
                b == m2 * g2,
                g2 == 2 * g1,
                g1 > 0,
        ;
        lemma_fundamental_div_mod_converse(a as int, b as int, q as int, rest * g1);
    }
    (rest, k1)
}

impl Double {
    /// The remainder of the division truncated toward zero; it has the sign of the dividend.
    #[verifier::opaque]
    pub open spec fn remainder(self, other: Double) -> Double {
        if self.nan() || other.nan() || self.infinite() || other.magnitude() == 0 {
            num(NAN)
        } else if other.infinite() {
            self
        } else {
            signed(
                self.negative(),
                nearest(units(self.magnitude()) % units(other.magnitude()), 1),
            )
        }
    }

    /// The remainder of the division truncated toward zero; it has the sign of the dividend.
    #[verifier::allow_in_spec]
    pub fn rem(self, other: Double) -> Double
        returns
            self.remainder(other),
    {
        proof {
            reveal(Double::remainder);
        }
        let x: u64 = magnitude_bits(self);
        let y: u64 = magnitude_bits(other);
        if x >= INFINITY_BITS || y > INFINITY_BITS || y == 0 {
            return num(NAN);
        }
        if y == INFINITY_BITS {
            return self;
        }
        let (m1, k1) = parts(x);
        let (m2, k2) = parts(y);
        let (m, k) = remainder_parts(m1, k1, m2, k2);
        let ghost n = units(x as nat) % units(y as nat);
        let sign: bool = self.bits >= SIGN_BIT;
        if m == 0 {
            proof {
                assert(n == 0) by (nonlinear_arith)
                    requires
                        n == m * pow2(k as nat),
                        m == 0,
                ;
                lemma_nearest_zero(1);
            }
            return with_sign(sign, 0);
        }
        proof {
            assert(n == m * pow2(k as nat) * 1);
            lemma_brackets_exact(n, 1, m as nat, k as int);
        }
        let bits: u64 = pack(m as u128, k as i32, false, Ghost(n), Ghost(1));
        with_sign(sign, bits)
    }
}

} // verus!
