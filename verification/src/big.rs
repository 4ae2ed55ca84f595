//! Natural numbers of any size, held as base `2^32` digits.

use vstd::prelude::*;

verus! {

/// `base^i` for the base `2^32`.
pub open spec fn weight(i: nat) -> nat
    decreases i,
{
    if i == 0 {
        1
    } else {
        0x1_0000_0000 * weight((i - 1) as nat)
    }
}

/// The number held by the lowest `i` digits of `v`.
pub open spec fn low(v: Seq<u32>, i: int) -> nat
    decreases i,
{
    if i <= 0 {
        0
    } else {
        low(v, i - 1) + v[i - 1] as nat * weight((i - 1) as nat)
    }
}

/// The number held by `v`, lowest digit first.
pub open spec fn big(v: Seq<u32>) -> nat {
    low(v, v.len() as int)
}

proof fn lemma_low_frame(a: Seq<u32>, b: Seq<u32>, i: int)
    requires
        0 <= i <= a.len(),
        i <= b.len(),
        forall|j: int| 0 <= j < i ==> a[j] == b[j],
    ensures
        low(a, i) == low(b, i),
    decreases i,
{
    if i > 0 {
        lemma_low_frame(a, b, i - 1);
    }
}

proof fn lemma_weight_positive(i: nat)
    ensures
        weight(i) > 0,
    decreases i,
{
    if i > 0 {
        lemma_weight_positive((i - 1) as nat);
    }
}

/// The lowest `i` digits hold less than `base^i`.
proof fn lemma_low_bound(v: Seq<u32>, i: int)
    requires
        0 <= i <= v.len(),
    ensures
        low(v, i) < weight(i as nat),
    decreases i,
{
    if i > 0 {
        lemma_low_bound(v, i - 1);
        let w = weight((i - 1) as nat);
        let d = v[i - 1] as nat;
        assert(d * w + w <= 0x1_0000_0000 * w) by (nonlinear_arith)
            requires
                d + 1 <= 0x1_0000_0000,
        ;
    }
}

pub fn from_u32(n: u32) -> (v: Vec<u32>)
    ensures
        big(v@) == n,
{
    let mut v: Vec<u32> = Vec::new();
    v.push(n);
    assert(weight(0) == 1);
    assert(low(v@, 0) == 0);
    assert(low(v@, 1) == n * weight(0));
    v
}

/// Replaces the number by `m` times the number plus `a`.
pub fn scale(v: &mut Vec<u32>, m: u32, a: u32)
    ensures
        big(final(v)@) == big(old(v)@) * m + a,
{
    let n: usize = v.len();
    let mut carry: u64 = a as u64;
    let mut i: usize = 0;
    let ghost orig = v@;
    assert(a * weight(0) == a) by (nonlinear_arith)
        requires
            weight(0) == 1,
    ;
    assert(low(orig, 0) * m == 0) by (nonlinear_arith)
        requires
            low(orig, 0) == 0,
    ;
    while i < n
        invariant
            n == orig.len(),
            v@.len() == n,
            i <= n,
            carry <= 0xffff_ffff,
            forall|j: int| i <= j < n ==> v@[j] == orig[j],
            low(v@, i as int) + carry * weight(i as nat) == low(orig, i as int) * m + a,
        decreases n - i,
    {
        let ghost before = v@;
        let x: u32 = v[i];
        assert(x * m <= 0xffff_ffff * 0xffff_ffff) by (nonlinear_arith)
            requires
                x <= 0xffff_ffff,
                m <= 0xffff_ffff,
        ;
        let t: u64 = x as u64 * m as u64 + carry;
        let digit: u32 = (t % 0x1_0000_0000) as u32;
        let next: u64 = t / 0x1_0000_0000;
        v.set(i, digit);
        proof {
            let w = weight(i as nat);
            lemma_low_frame(before, v@, i as int);
            assert(weight((i + 1) as nat) == 0x1_0000_0000 * w);
            assert(low(v@, i + 1) == low(v@, i as int) + digit as nat * w);
            assert(low(orig, i + 1) == low(orig, i as int) + x as nat * w);
            assert(low(v@, i + 1) + next * weight((i + 1) as nat) == low(orig, i + 1) * m + a)
                by (nonlinear_arith)
                requires
                    low(v@, i + 1) == low(v@, i as int) + digit * w,
                    low(orig, i + 1) == low(orig, i as int) + x * w,
                    low(v@, i as int) + carry * w == low(orig, i as int) * m + a,
                    x * m + carry == next * 0x1_0000_0000 + digit,
                    weight((i + 1) as nat) == 0x1_0000_0000 * w,
            ;
        }
        carry = next;
        i = i + 1;
    }
    if carry > 0 {
        let ghost before = v@;
        v.push(carry as u32);
        proof {
            lemma_low_frame(before, v@, n as int);
            assert(low(v@, n + 1) == low(v@, n as int) + carry as nat * weight(n as nat));
        }
    } else {
        assert(0 * weight(n as nat) == 0);
    }
}

/// The digit at `i`, zero past the end.
pub open spec fn digit(v: Seq<u32>, i: int) -> nat {
    if 0 <= i < v.len() {
        v[i] as nat
    } else {
        0
    }
}

/// The number held by the lowest `i` digits, with zeros past the end.
pub open spec fn low_padded(v: Seq<u32>, i: int) -> nat
    decreases i,
{
    if i <= 0 {
        0
    } else {
        low_padded(v, i - 1) + digit(v, i - 1) * weight((i - 1) as nat)
    }
}

proof fn lemma_padded(v: Seq<u32>, i: int)
    requires
        0 <= i,
    ensures
        i <= v.len() ==> low_padded(v, i) == low(v, i),
        i >= v.len() ==> low_padded(v, i) == big(v),
        low_padded(v, i) < weight(i as nat),
    decreases i,
{
    if i > 0 {
        lemma_padded(v, i - 1);
        let w = weight((i - 1) as nat);
        let d = digit(v, i - 1);
        assert(d * w + w <= 0x1_0000_0000 * w) by (nonlinear_arith)
            requires
                d + 1 <= 0x1_0000_0000,
        ;
        if i > v.len() {
            assert(0 * w == 0);
        }
    }
}

/// Whether `a` is less than `b`.
pub fn less(a: &Vec<u32>, b: &Vec<u32>) -> (r: bool)
    ensures
        r == (big(a@) < big(b@)),
{
    let mut i: usize = if a.len() < b.len() {
        b.len()
    } else {
        a.len()
    };
    proof {
        lemma_padded(a@, i as int);
        lemma_padded(b@, i as int);
    }
    while i > 0
        invariant
            i <= a.len() || i <= b.len(),
            (big(a@) < big(b@)) == (low_padded(a@, i as int) < low_padded(b@, i as int)),
        decreases i,
    {
        let x: u32 = if i <= a.len() {
            a[i - 1]
        } else {
            0
        };
        let y: u32 = if i <= b.len() {
            b[i - 1]
        } else {
            0
        };
        proof {
            lemma_padded(a@, i - 1);
            lemma_padded(b@, i - 1);
            let w = weight((i - 1) as nat);
            if x < y {
                assert(x * w + w <= y * w) by (nonlinear_arith)
                    requires
                        x + 1 <= y,
                ;
            }
            if y < x {
                assert(y * w + w <= x * w) by (nonlinear_arith)
                    requires
                        y + 1 <= x,
                ;
            }
        }
        if x != y {
            return x < y;
        }
        i = i - 1;
    }
    false
}

/// Subtracts `b` from `a`.
pub fn subtract(a: &mut Vec<u32>, b: &Vec<u32>)
    requires
        big(b@) <= big(old(a)@),
    ensures
        big(final(a)@) == big(old(a)@) - big(b@),
{
    let n: usize = a.len();
    let mut borrow: u64 = 0;
    let mut i: usize = 0;
    let ghost orig = a@;
    assert(0 * weight(0) == 0);
    while i < n
        invariant
            n == orig.len(),
            a@.len() == n,
            i <= n,
            borrow <= 1,
            forall|j: int| i <= j < n ==> a@[j] == orig[j],
            low(a@, i as int) + low_padded(b@, i as int) == low(orig, i as int) + borrow * weight(
                i as nat,
            ),
        decreases n - i,
    {
        let ghost before = a@;
        let x: u64 = a[i] as u64;
        let y: u64 = (if i < b.len() {
            b[i] as u64
        } else {
            0
        }) + borrow;
        let next: u64;
        let d: u32;
        if x >= y {
            d = (x - y) as u32;
            next = 0;
        } else {
            d = (x + 0x1_0000_0000 - y) as u32;
            next = 1;
        }
        a.set(i, d);
        proof {
            let w = weight(i as nat);
            lemma_low_frame(before, a@, i as int);
            assert(weight((i + 1) as nat) == 0x1_0000_0000 * w);
            let yd = digit(b@, i as int);
            assert(low(a@, i + 1) == low(a@, i as int) + d as nat * w);
            assert(low(orig, i + 1) == low(orig, i as int) + x as nat * w);
            assert(low_padded(b@, i + 1) == low_padded(b@, i as int) + yd * w);
            assert(low(a@, i + 1) + low_padded(b@, i + 1) == low(orig, i + 1) + next * weight(
                (i + 1) as nat,
            )) by (nonlinear_arith)
                requires
                    low(a@, i + 1) == low(a@, i as int) + d * w,
                    low(orig, i + 1) == low(orig, i as int) + x * w,
                    low_padded(b@, i + 1) == low_padded(b@, i as int) + yd * w,
                    low(a@, i as int) + low_padded(b@, i as int) == low(orig, i as int) + borrow
                        * w,
                    d + yd + borrow == x + next * 0x1_0000_0000,
                    weight((i + 1) as nat) == 0x1_0000_0000 * w,
            ;
        }
        borrow = next;
        i = i + 1;
    }
    proof {
        lemma_padded(b@, n as int);
        lemma_low_bound(a@, n as int);
        lemma_low_bound(orig, n as int);
        let w = weight(n as nat);
        lemma_padded(b@, (n + b.len()) as int);
        lemma_padded_monotone(b@, n as int, (n + b.len()) as int);
        if borrow == 1 {
            assert(1 * w == w);
            assert(false);
        }
        assert(0 * w == 0);
        // nothing of `b` lies above the digits of `a`
        lemma_high_digits(b@, n as int, (n + b.len()) as int, big(orig));
    }
}

proof fn lemma_padded_monotone(v: Seq<u32>, i: int, j: int)
    requires
        0 <= i <= j,
    ensures
        low_padded(v, i) <= low_padded(v, j),
    decreases j - i,
{
    if i < j {
        lemma_padded_monotone(v, i, j - 1);
    }
}

/// A number below `base^i` has no digit at or above `i`.
proof fn lemma_high_digits(v: Seq<u32>, i: int, j: int, bound: nat)
    requires
        0 <= i <= j,
        low_padded(v, j) <= bound,
        bound < weight(i as nat),
    ensures
        low_padded(v, i) == low_padded(v, j),
    decreases j - i,
{
    if i < j {
        let d = digit(v, j - 1);
        let w = weight((j - 1) as nat);
        lemma_weight_monotone(i as nat, (j - 1) as nat);
        if d > 0 {
            assert(d * w >= w) by (nonlinear_arith)
                requires
                    d >= 1,
            ;
            assert(false);
        }
        assert(0 * w == 0);
        lemma_high_digits(v, i, j - 1, bound);
    }
}

proof fn lemma_weight_monotone(i: nat, j: nat)
    requires
        i <= j,
    ensures
        weight(i) <= weight(j),
    decreases j,
{
    if i < j {
        lemma_weight_monotone(i, (j - 1) as nat);
    }
}

/// Whether the number is zero.
pub fn is_zero(v: &Vec<u32>) -> (r: bool)
    ensures
        r == (big(v@) == 0),
{
    let mut i: usize = 0;
    while i < v.len()
        invariant
            i <= v@.len(),
            low(v@, i as int) == 0,
        decreases v.len() - i,
    {
        if v[i] != 0 {
            proof {
                lemma_weight_positive(i as nat);
                let w = weight(i as nat);
                let d = v[i as int];
                assert(d * w > 0) by (nonlinear_arith)
                    requires
                        d > 0,
                        w > 0,
                ;
                lemma_low_monotone(v@, i + 1, v@.len() as int);
            }
            return false;
        }
        assert(0 * weight(i as nat) == 0);
        i = i + 1;
    }
    true
}

proof fn lemma_low_monotone(v: Seq<u32>, i: int, j: int)
    requires
        0 <= i <= j <= v.len(),
    ensures
        low(v, i) <= low(v, j),
    decreases j - i,
{
    if i < j {
        lemma_low_monotone(v, i, j - 1);
    }
}

/// The number held by the digits from `i` up, in units of `base^i`.
spec fn high(v: Seq<u32>, i: int) -> nat
    decreases v.len() - i,
{
    if i >= v.len() {
        0
    } else {
        v[i] as nat + 0x1_0000_0000 * high(v, i + 1)
    }
}

proof fn lemma_high(v: Seq<u32>, i: int)
    requires
        0 <= i <= v.len(),
    ensures
        big(v) == low(v, i) + high(v, i) * weight(i as nat),
    decreases v.len() - i,
{
    if i < v.len() {
        lemma_high(v, i + 1);
        let w = weight(i as nat);
        let h = high(v, i + 1);
        let d = v[i] as nat;
        assert(low(v, i + 1) == low(v, i) + d * w);
        assert(weight((i + 1) as nat) == 0x1_0000_0000 * w);
        assert(d * w + h * (0x1_0000_0000 * w) == (d + 0x1_0000_0000 * h) * w) by (nonlinear_arith);
    } else {
        assert(0 * weight(i as nat) == 0);
    }
}

/// Divides the number by ten and returns the remainder.
pub fn divide_by_ten(v: &mut Vec<u32>) -> (r: u32)
    ensures
        big(final(v)@) == big(old(v)@) / 10,
        r == big(old(v)@) % 10,
{
    let n: usize = v.len();
    let ghost orig = v@;
    let mut i: usize = n;
    let mut rest: u64 = 0;
    while i > 0
        invariant
            n == orig.len(),
            v@.len() == n,
            i <= n,
            rest < 10,
            forall|j: int| 0 <= j < i ==> v@[j] == orig[j],
            high(orig, i as int) == 10 * high(v@, i as int) + rest,
        decreases i,
    {
        let ghost before = v@;
        let x: u64 = rest * 0x1_0000_0000 + v[i - 1] as u64;
        let d: u32 = (x / 10) as u32;
        v.set(i - 1, d);
        proof {
            lemma_high_frame(before, v@, i as int);
        }
        rest = x % 10;
        i = i - 1;
    }
    proof {
        lemma_high(orig, 0);
        lemma_high(v@, 0);
        assert(high(orig, 0) * 1 == high(orig, 0) && high(v@, 0) * 1 == high(v@, 0));
    }
    rest as u32
}

proof fn lemma_high_frame(a: Seq<u32>, b: Seq<u32>, i: int)
    requires
        0 <= i <= a.len(),
        a.len() == b.len(),
        forall|j: int| i <= j < a.len() ==> a[j] == b[j],
    ensures
        high(a, i) == high(b, i),
    decreases a.len() - i,
{
    if i < a.len() {
        lemma_high_frame(a, b, i + 1);
    }
}

} // verus!
