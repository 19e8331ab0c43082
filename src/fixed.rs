//! 16.16 fixed-point scalars.
//!
//! A raw `i32` value `v` stands for the real number `v / ONE`. Products and
//! quotients are rounded toward zero, so that negating an operand negates the
//! result, and saturate at the bounds of `i32`, the way a float overflows to
//! infinity rather than wrapping.

use vstd::prelude::*;

verus! {

/// A fixed-point scalar: the raw value, in units of `1 / ONE`.
pub type Fixed = i32;

/// The fixed-point value 1.0.
pub const ONE: i32 = 65536;

/// The magnitude of `v`.
pub open spec fn mag(v: int) -> int {
    if v < 0 {
        -v
    } else {
        v
    }
}

/// `v` saturated to the range of `i32`.
pub open spec fn clamp(v: int) -> int {
    if v > i32::MAX {
        i32::MAX as int
    } else if v < i32::MIN {
        i32::MIN as int
    } else {
        v
    }
}

/// The quotient of `a` by `d`, rounded toward zero (for `d != 0`).
pub open spec fn quot(a: int, d: int) -> int {
    if (a < 0) == (d < 0) {
        mag(a) / mag(d)
    } else {
        -(mag(a) / mag(d))
    }
}

/// A raw product `p` (scale `ONE * ONE`) brought back to scale `ONE`, rounded
/// toward zero.
pub open spec fn rescale(p: int) -> int {
    clamp(quot(p, ONE as int))
}

/// The fixed-point product of `a` and `b`.
pub open spec fn mul_spec(a: int, b: int) -> int {
    rescale(a * b)
}

/// The fixed-point quotient of `a` by `b` (for `b != 0`).
pub open spec fn div_spec(a: int, b: int) -> int {
    clamp(quot(a * ONE, b))
}

/// Saturates a wide integer to `i32`.
pub fn saturate(v: i128) -> (r: Fixed)
    ensures
        r == clamp(v as int),
{
    if v > i32::MAX as i128 {
        i32::MAX
    } else if v < i32::MIN as i128 {
        i32::MIN
    } else {
        v as i32
    }
}

/// `p` divided by `d`, rounded toward zero.
pub fn div_trunc(p: i128, d: i128) -> (q: i128)
    requires
        d != 0,
        -0x1_0000_0000_0000_0000_0000_0000_0000 <= p <= 0x1_0000_0000_0000_0000_0000_0000_0000,
        -0x1_0000_0000_0000_0000_0000_0000_0000 <= d <= 0x1_0000_0000_0000_0000_0000_0000_0000,
    ensures
        q == quot(p as int, d as int),
{
    let ap: i128 = if p < 0 { -p } else { p };
    let ad: i128 = if d < 0 { -d } else { d };
    let q = ap / ad;
    assert(0 <= ap / ad <= ap) by (nonlinear_arith)
        requires
            ap >= 0,
            ad >= 1,
    ;
    if (p < 0) == (d < 0) {
        q
    } else {
        -q
    }
}

/// Rounding toward zero, by a positive divisor: `p` is `d * quot(p, d)` plus a
/// remainder smaller than `d` and of the sign of `p`.
pub proof fn lemma_quot_parts(p: int, d: int)
    requires
        d > 0,
    ensures
        p >= 0 ==> 0 <= p - d * quot(p, d) < d,
        p < 0 ==> -d < p - d * quot(p, d) <= 0,
        mag(quot(p, d)) == mag(p) / d,
{
    vstd::arithmetic::div_mod::lemma_fundamental_div_mod(mag(p), d);
    let q = mag(p) / d;
    assert(0 <= q) by (nonlinear_arith)
        requires
            mag(p) >= 0,
            d > 0,
            q == mag(p) / d,
    ;
    assert(d * (-q) == -(d * q)) by (nonlinear_arith);
}

/// A multiple of `d` divides back exactly.
pub proof fn lemma_quot_exact(k: int, d: int)
    requires
        d > 0,
    ensures
        quot(d * k, d) == k,
{
    if k >= 0 {
        assert(d * k >= 0) by (nonlinear_arith)
            requires
                d > 0,
                k >= 0,
        ;
        vstd::arithmetic::div_mod::lemma_div_multiples_vanish(k, d);
    } else {
        assert(d * k < 0 && mag(d * k) == d * (-k)) by (nonlinear_arith)
            requires
                d > 0,
                k < 0,
        ;
        vstd::arithmetic::div_mod::lemma_div_multiples_vanish(-k, d);
    }
}

/// A raw product, of scale `ONE * ONE`, brought back to a fixed-point value.
pub fn rescale_raw(p: i128) -> (r: Fixed)
    requires
        -0x1_0000_0000_0000_0000_0000_0000_0000 <= p <= 0x1_0000_0000_0000_0000_0000_0000_0000,
    ensures
        r == rescale(p as int),
{
    saturate(div_trunc(p, ONE as i128))
}

/// The whole number `n` as a fixed-point value.
pub fn from_int(n: i32) -> (r: Fixed)
    ensures
        r == clamp(n * ONE),
{
    proof {
        lemma_product_bound(n as int, ONE as int);
    }
    saturate(n as i128 * ONE as i128)
}

/// Fixed-point product.
pub fn fx_mul(a: Fixed, b: Fixed) -> (r: Fixed)
    ensures
        r == mul_spec(a as int, b as int),
{
    proof {
        lemma_product_bound(a as int, b as int);
    }
    rescale_raw(a as i128 * b as i128)
}

/// Fixed-point quotient.
pub fn fx_div(a: Fixed, b: Fixed) -> (r: Fixed)
    requires
        b != 0,
    ensures
        r == div_spec(a as int, b as int),
{
    proof {
        lemma_product_bound(a as int, ONE as int);
    }
    saturate(div_trunc(a as i128 * ONE as i128, b as i128))
}

/// Two `i32` values multiply to less than `2^62` in magnitude.
pub proof fn lemma_product_bound(a: int, b: int)
    requires
        i32::MIN <= a <= i32::MAX,
        i32::MIN <= b <= i32::MAX,
    ensures
        -0x4000_0000_0000_0000 <= a * b <= 0x4000_0000_0000_0000,
{
    assert(-0x4000_0000_0000_0000 <= a * b <= 0x4000_0000_0000_0000) by (nonlinear_arith)
        requires
            i32::MIN <= a <= i32::MAX,
            i32::MIN <= b <= i32::MAX,
    ;
}

/// The integer square root of `n`: the `r >= 0` with `r * r <= n < (r + 1) * (r + 1)`.
pub open spec fn isqrt_spec(n: int) -> int {
    choose|r: int| is_root(n, r)
}

/// `r` is a non-negative integer whose square is at most `n`, and whose successor's exceeds it.
pub open spec fn is_root(n: int, r: int) -> bool {
    0 <= r && r * r <= n < (r + 1) * (r + 1)
}

/// An `r` that brackets `n` between two squares is its integer square root.
pub proof fn lemma_isqrt_unique(n: int, r: int)
    requires
        0 <= r,
        r * r <= n < (r + 1) * (r + 1),
    ensures
        isqrt_spec(n) == r,
{
    assert(is_root(n, r));
    let q = isqrt_spec(n);
    assert(0 <= q && q * q <= n < (q + 1) * (q + 1));
    if q < r {
        assert((q + 1) * (q + 1) <= r * r) by (nonlinear_arith)
            requires
                0 <= q < r,
        ;
    } else if r < q {
        assert((r + 1) * (r + 1) <= q * q) by (nonlinear_arith)
            requires
                0 <= r < q,
        ;
    }
}

/// Integer square root of `n`, by bisection.
pub fn isqrt(n: u128) -> (r: u128)
    requires
        n < 0x1_0000_0000_0000_0000_0000_0000,
    ensures
        r == isqrt_spec(n as int),
        is_root(n as int, r as int),
        r <= 0x1_0000_0000_0000,
{
    let mut lo: u128 = 0;
    let mut hi: u128 = 0x1_0000_0000_0000;
    assert(hi * hi == 0x1_0000_0000_0000_0000_0000_0000) by (nonlinear_arith)
        requires
            hi == 0x1_0000_0000_0000,
    ;
    while hi - lo > 1
        invariant
            lo < hi <= 0x1_0000_0000_0000,
            lo * lo <= n,
            n < hi * hi,
        decreases hi - lo,
    {
        let mid = lo + (hi - lo) / 2;
        assert(mid * mid <= 0x1_0000_0000_0000_0000_0000_0000) by (nonlinear_arith)
            requires
                mid <= 0x1_0000_0000_0000,
        ;
        if mid * mid <= n {
            lo = mid;
        } else {
            hi = mid;
        }
    }
    proof {
        assert(hi == lo + 1);
        lemma_isqrt_unique(n as int, lo as int);
    }
    lo
}

} // verus!
