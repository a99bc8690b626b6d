//! Unsigned integers of 256 bits, as a high and a low 128-bit half: enough
//! for exact sums of squared nanosecond latencies.

use vstd::prelude::*;

verus! {

/// `2^128`.
pub open spec fn base() -> int {
    0x1_0000_0000_0000_0000_0000_0000_0000_0000int
}

/// `2^64`.
pub open spec fn half_base() -> int {
    0x1_0000_0000_0000_0000
}

/// An unsigned integer of 256 bits: `hi * 2^128 + lo`.
#[derive(Clone, Copy, Debug, PartialEq, Eq, Structural)]
pub struct Wide {
    pub hi: u128,
    pub lo: u128,
}

impl Wide {
    /// The number the two halves stand for.
    pub open spec fn value(self) -> int {
        self.hi * base() + self.lo
    }
}

/// The halves of a number below `2^256`.
pub open spec fn wide_of(v: int) -> Wide {
    Wide { hi: (v / base()) as u128, lo: (v % base()) as u128 }
}

/// Two halves stand for the number they are the halves of.
pub proof fn lemma_wide_of_value(w: Wide)
    ensures
        wide_of(w.value()) == w,
{
    let v = w.value();
    vstd::arithmetic::div_mod::lemma_fundamental_div_mod(v, base());
    let q = v / base();
    let r = v % base();
    assert(q == w.hi && r == w.lo) by (nonlinear_arith)
        requires
            v == base() * q + r,
            0 <= r < base(),
            v == w.hi * base() + w.lo,
            0 <= w.lo < base(),
            base() > 0,
    ;
}

/// Zero.
pub fn zero() -> (z: Wide)
    ensures
        z.value() == 0,
{
    Wide { hi: 0, lo: 0 }
}

/// `w + x`.
pub fn add_small(w: Wide, x: u128) -> (r: Wide)
    requires
        w.value() + x < base() * base(),
    ensures
        r.value() == w.value() + x,
{
    if x > u128::MAX - w.lo {
        assert(w.hi < u128::MAX) by (nonlinear_arith)
            requires
                w.hi * base() + w.lo + x < base() * base(),
                w.lo + x >= base(),
                0 <= w.hi,
        ;
        let lo = x - (u128::MAX - w.lo) - 1;
        assert((w.hi + 1) * base() + lo == w.hi * base() + w.lo + x) by (nonlinear_arith)
            requires
                lo == x - (base() - 1 - w.lo) - 1,
        ;
        Wide { hi: w.hi + 1, lo }
    } else {
        Wide { hi: w.hi, lo: w.lo + x }
    }
}

/// `a - b`.
pub fn difference(a: Wide, b: Wide) -> (r: Wide)
    requires
        a.value() >= b.value(),
    ensures
        r.value() == a.value() - b.value(),
{
    if a.lo >= b.lo {
        assert(a.hi >= b.hi) by (nonlinear_arith)
            requires
                a.hi * base() + a.lo >= b.hi * base() + b.lo,
                0 <= a.lo < base(),
                0 <= b.lo,
        ;
        assert((a.hi - b.hi) * base() == a.hi * base() - b.hi * base()) by (nonlinear_arith);
        Wide { hi: a.hi - b.hi, lo: a.lo - b.lo }
    } else {
        assert(a.hi > b.hi) by (nonlinear_arith)
            requires
                a.hi * base() + a.lo >= b.hi * base() + b.lo,
                a.lo < b.lo < base(),
                0 <= a.lo,
        ;
        let lo = a.lo + (u128::MAX - b.lo) + 1;
        assert((a.hi - b.hi - 1) * base() == a.hi * base() - b.hi * base() - base())
            by (nonlinear_arith);
        Wide { hi: a.hi - b.hi - 1, lo }
    }
}

/// The full product `a * b`.
pub fn product(a: u128, b: u128) -> (r: Wide)
    ensures
        r.value() == a * b,
{
    let a1 = a / 0x1_0000_0000_0000_0000;
    let a0 = a % 0x1_0000_0000_0000_0000;
    let b1 = b / 0x1_0000_0000_0000_0000;
    let b0 = b % 0x1_0000_0000_0000_0000;
    proof {
        lemma_split(a as int, a1 as int, a0 as int);
        lemma_split(b as int, b1 as int, b0 as int);
        lemma_half_product(a1 as int, b1 as int);
        lemma_half_product(a1 as int, b0 as int);
        lemma_half_product(a0 as int, b1 as int);
        lemma_half_product(a0 as int, b0 as int);
    }
    let p11 = a1 * b1;
    let p10 = a1 * b0;
    let p01 = a0 * b1;
    let p00 = a0 * b0;
    let p10h = p10 / 0x1_0000_0000_0000_0000;
    let p10l = p10 % 0x1_0000_0000_0000_0000;
    let p01h = p01 / 0x1_0000_0000_0000_0000;
    let p01l = p01 % 0x1_0000_0000_0000_0000;
    proof {
        lemma_split(p10 as int, p10h as int, p10l as int);
        lemma_split(p01 as int, p01h as int, p01l as int);
        lemma_product_expansion(
            a as int,
            b as int,
            a1 as int,
            a0 as int,
            b1 as int,
            b0 as int,
            p10h as int,
            p10l as int,
            p01h as int,
            p01l as int,
        );
        lemma_mul_below_square(a as int, b as int);
        assert((half_base() - 1) * (half_base() - 1) == base() - 2 * half_base() + 1);
        assert(p10h < half_base() && p01h < half_base() && p11 <= base() - 2 * half_base() + 1);
    }
    let w0 = Wide { hi: p11 + p10h + p01h, lo: p00 };
    proof {
        lemma_shift(p10l as int);
        lemma_shift(p01l as int);
    }
    let w1 = add_small(w0, p10l * 0x1_0000_0000_0000_0000);
    let w2 = add_small(w1, p01l * 0x1_0000_0000_0000_0000);
    w2
}

/// `n * w`.
pub fn scale(w: Wide, n: u128) -> (r: Wide)
    requires
        n * w.value() < base() * base(),
    ensures
        r.value() == n * w.value(),
{
    let p = product(n, w.lo);
    proof {
        assert(n * w.value() == n * w.hi * base() + p.value()) by (nonlinear_arith)
            requires
                p.value() == n * w.lo,
                w.value() == w.hi * base() + w.lo,
        ;
        assert(n * w.hi + p.hi < base()) by (nonlinear_arith)
            requires
                n * w.hi * base() + p.hi * base() + p.lo < base() * base(),
                0 <= p.lo,
                base() > 0,
        ;
        vstd::arithmetic::mul::lemma_mul_nonnegative(n as int, w.hi as int);
        assert((n * w.hi + p.hi) * base() + p.lo == n * w.hi * base() + p.value())
            by (nonlinear_arith);
    }
    Wide { hi: n * w.hi + p.hi, lo: p.lo }
}

proof fn lemma_split(x: int, h: int, l: int)
    requires
        0 <= x < base(),
        h == x / half_base(),
        l == x % half_base(),
    ensures
        x == h * half_base() + l,
        0 <= l < half_base(),
        0 <= h < half_base(),
{
    vstd::arithmetic::div_mod::lemma_fundamental_div_mod(x, half_base());
    assert(0 <= h < half_base()) by (nonlinear_arith)
        requires
            x == half_base() * h + l,
            0 <= l < half_base(),
            0 <= x < base(),
            base() == half_base() * half_base(),
            half_base() > 0,
    ;
}

proof fn lemma_half_product(x: int, y: int)
    requires
        0 <= x < half_base(),
        0 <= y < half_base(),
    ensures
        0 <= x * y <= (half_base() - 1) * (half_base() - 1),
{
    vstd::arithmetic::mul::lemma_mul_upper_bound(x, half_base() - 1, y, half_base() - 1);
    vstd::arithmetic::mul::lemma_mul_nonnegative(x, y);
}

proof fn lemma_shift(l: int)
    requires
        0 <= l < half_base(),
    ensures
        0 <= l * half_base() < base(),
{
    vstd::arithmetic::mul::lemma_mul_strict_inequality(l, half_base(), half_base());
    vstd::arithmetic::mul::lemma_mul_nonnegative(l, half_base());
}

proof fn lemma_mul_below_square(a: int, b: int)
    requires
        0 <= a < base(),
        0 <= b < base(),
    ensures
        0 <= a * b < base() * base(),
{
    vstd::arithmetic::mul::lemma_mul_upper_bound(a, base() - 1, b, base() - 1);
    vstd::arithmetic::mul::lemma_mul_nonnegative(a, b);
    assert((base() - 1) * (base() - 1) < base() * base()) by (nonlinear_arith)
        requires
            base() > 1,
    ;
}

proof fn lemma_product_expansion(
    a: int,
    b: int,
    a1: int,
    a0: int,
    b1: int,
    b0: int,
    p10h: int,
    p10l: int,
    p01h: int,
    p01l: int,
)
    requires
        a == a1 * half_base() + a0,
        b == b1 * half_base() + b0,
        a1 * b0 == p10h * half_base() + p10l,
        a0 * b1 == p01h * half_base() + p01l,
    ensures
        a * b == (a1 * b1 + p10h + p01h) * base() + a0 * b0 + p10l * half_base() + p01l
            * half_base(),
{
    let h = half_base();
    assert(base() == h * h);
    assert(a * b == (a1 * h) * b + a0 * b) by (nonlinear_arith)
        requires
            a == a1 * h + a0,
    ;
    assert((a1 * h) * b == a1 * b1 * (h * h) + (a1 * b0) * h) by (nonlinear_arith)
        requires
            b == b1 * h + b0,
    ;
    assert(a0 * b == (a0 * b1) * h + a0 * b0) by (nonlinear_arith)
        requires
            b == b1 * h + b0,
    ;
    assert((a1 * b0) * h == p10h * (h * h) + p10l * h) by (nonlinear_arith)
        requires
            a1 * b0 == p10h * h + p10l,
    ;
    assert((a0 * b1) * h == p01h * (h * h) + p01l * h) by (nonlinear_arith)
        requires
            a0 * b1 == p01h * h + p01l,
    ;
    assert(a1 * b1 * (h * h) + (p10h + p01h) * (h * h) == (a1 * b1 + p10h + p01h) * (h * h))
        by (nonlinear_arith);
}

} // verus!
