//! Free functions on 3-component fixed-point vectors.

use vstd::prelude::*;
use crate::fixed::{
    clamp, div_spec, div_trunc, fx_div, fx_mul, is_root, isqrt, isqrt_spec, lemma_product_bound,
    lemma_quot_parts, mag, mul_spec, quot, rescale, rescale_raw, saturate, Fixed, ONE,
};

verus! {

/// A 3-component vector of fixed-point values.
pub type Vec3 = [Fixed; 3];

/// Exact raw dot product, of scale `ONE * ONE`.
pub open spec fn dot_raw(l: Vec3, r: Vec3) -> int {
    l[0] * r[0] + l[1] * r[1] + l[2] * r[2]
}

/// Exact raw component `i` of the cross product, of scale `ONE * ONE`.
pub open spec fn cross_raw(a: Vec3, b: Vec3, i: int) -> int {
    if i == 0 {
        a[1] * b[2] - a[2] * b[1]
    } else if i == 1 {
        a[2] * b[0] - a[0] * b[2]
    } else {
        a[0] * b[1] - a[1] * b[0]
    }
}

/// The vector that `diff` returns.
pub open spec fn diff_of(l: Vec3, r: Vec3) -> Vec3 {
    [clamp(l[0] - r[0]) as i32, clamp(l[1] - r[1]) as i32, clamp(l[2] - r[2]) as i32]
}

/// The vector that `unit` returns: `v[i] * ONE / |v|`, rounded toward zero, with
/// the length `|v|` taken to 32 fractional bits (`fine_length`).
pub open spec fn unit_of(v: Vec3) -> Vec3 {
    [
        quot(v[0] * 0x1_0000_0000, fine_length(v)) as i32,
        quot(v[1] * 0x1_0000_0000, fine_length(v)) as i32,
        quot(v[2] * 0x1_0000_0000, fine_length(v)) as i32,
    ]
}

/// The value that `dot` returns.
pub open spec fn dot_of(l: Vec3, r: Vec3) -> int {
    rescale(dot_raw(l, r))
}

/// The vector that `cross` returns.
pub open spec fn cross_spec(a: Vec3, b: Vec3, i: int) -> int {
    rescale(cross_raw(a, b, i))
}

/// Whether all components of `v` are zero.
pub open spec fn is_zero(v: Vec3) -> bool {
    v[0] == 0 && v[1] == 0 && v[2] == 0
}

/// The length of `v` in units of `1 / (ONE * ONE)`, rounded down: the integer
/// square root of its squared length scaled up by `ONE * ONE`.
pub open spec fn fine_length(v: Vec3) -> int {
    isqrt_spec(dot_raw(v, v) * 0x1_0000_0000)
}

/// The vector that `cross` returns.
pub open spec fn cross_of(a: Vec3, b: Vec3) -> Vec3 {
    [cross_spec(a, b, 0) as i32, cross_spec(a, b, 1) as i32, cross_spec(a, b, 2) as i32]
}

/// Sum of the magnitudes of the components of `a`.
pub open spec fn abs_sum(a: Vec3) -> int {
    mag(a[0] as int) + mag(a[1] as int) + mag(a[2] as int)
}

/// Whether no component of the cross product of `a` and `b` saturates.
pub open spec fn cross_fits(a: Vec3, b: Vec3) -> bool {
    forall|i: int|
        0 <= i < 3 ==> clamp(quot(cross_raw(a, b, i), ONE as int)) == quot(cross_raw(a, b, i), ONE as int)
}

/// `l - r`, component-wise.
pub fn diff(l: Vec3, r: Vec3) -> (d: Vec3)
    ensures
        d == diff_of(l, r),
{
    let d = [
        saturate(l[0] as i128 - r[0] as i128),
        saturate(l[1] as i128 - r[1] as i128),
        saturate(l[2] as i128 - r[2] as i128),
    ];
    assert(d =~= diff_of(l, r));
    d
}

/// `l + r`, component-wise.
pub fn add(l: Vec3, r: Vec3) -> (s: Vec3)
    ensures
        forall|i: int| 0 <= i < 3 ==> s[i] == clamp(l[i] + r[i]),
{
    [
        saturate(l[0] as i128 + r[0] as i128),
        saturate(l[1] as i128 + r[1] as i128),
        saturate(l[2] as i128 + r[2] as i128),
    ]
}

/// `r` added to each component of `l`.
pub fn add_scalar(l: Vec3, r: Fixed) -> (s: Vec3)
    ensures
        forall|i: int| 0 <= i < 3 ==> s[i] == clamp(l[i] + r),
{
    [
        saturate(l[0] as i128 + r as i128),
        saturate(l[1] as i128 + r as i128),
        saturate(l[2] as i128 + r as i128),
    ]
}

/// `-l`.
pub fn neg(l: Vec3) -> (n: Vec3)
    ensures
        forall|i: int| 0 <= i < 3 ==> n[i] == clamp(-l[i]),
{
    [saturate(-(l[0] as i128)), saturate(-(l[1] as i128)), saturate(-(l[2] as i128))]
}

/// `l` scaled by `r`.
pub fn mul(l: Vec3, r: Fixed) -> (s: Vec3)
    ensures
        forall|i: int| 0 <= i < 3 ==> s[i] == mul_spec(l[i] as int, r as int),
{
    [fx_mul(l[0], r), fx_mul(l[1], r), fx_mul(l[2], r)]
}

/// Component-wise product of `l` and `r`.
pub fn comp_dot(l: Vec3, r: Vec3) -> (p: Vec3)
    ensures
        forall|i: int| 0 <= i < 3 ==> p[i] == mul_spec(l[i] as int, r[i] as int),
{
    [fx_mul(l[0], r[0]), fx_mul(l[1], r[1]), fx_mul(l[2], r[2])]
}

/// Component-wise reciprocal of `l`.
pub fn inv(l: Vec3) -> (q: Vec3)
    requires
        l[0] != 0,
        l[1] != 0,
        l[2] != 0,
    ensures
        forall|i: int| 0 <= i < 3 ==> q[i] == div_spec(ONE as int, l[i] as int),
{
    [fx_div(ONE, l[0]), fx_div(ONE, l[1]), fx_div(ONE, l[2])]
}

/// Dot product of `l` and `r`.
pub fn dot(l: Vec3, r: Vec3) -> (d: Fixed)
    ensures
        d == dot_of(l, r),
{
    proof {
        lemma_product_bound(l[0] as int, r[0] as int);
        lemma_product_bound(l[1] as int, r[1] as int);
        lemma_product_bound(l[2] as int, r[2] as int);
    }
    rescale_raw(l[0] as i128 * r[0] as i128 + l[1] as i128 * r[1] as i128 + l[2] as i128
        * r[2] as i128)
}

/// Cross product of `a` and `b`, by the right-hand rule.
pub fn cross(a: Vec3, b: Vec3) -> (c: Vec3)
    ensures
        c == cross_of(a, b),
{
    proof {
        lemma_product_bound(a[1] as int, b[2] as int);
        lemma_product_bound(a[2] as int, b[1] as int);
        lemma_product_bound(a[2] as int, b[0] as int);
        lemma_product_bound(a[0] as int, b[2] as int);
        lemma_product_bound(a[0] as int, b[1] as int);
        lemma_product_bound(a[1] as int, b[0] as int);
    }
    let c = [
        rescale_raw(a[1] as i128 * b[2] as i128 - a[2] as i128 * b[1] as i128),
        rescale_raw(a[2] as i128 * b[0] as i128 - a[0] as i128 * b[2] as i128),
        rescale_raw(a[0] as i128 * b[1] as i128 - a[1] as i128 * b[0] as i128),
    ];
    assert(c =~= cross_of(a, b));
    c
}

/// `v` divided by its length: component `i` is `v[i] * ONE / |v|` rounded toward
/// zero, where the length `|v|` carries 32 fractional bits, so that short vectors
/// come out of unit length too. The squared length of the result is within
/// `6 / ONE` of 1. The zero vector has no direction and is not accepted.
pub fn unit(v: Vec3) -> (u: Vec3)
    requires
        !is_zero(v),
    ensures
        u == unit_of(v),
        forall|i: int| 0 <= i < 3 ==> -ONE <= #[trigger] u[i] <= ONE,
        ONE * ONE - 6 * ONE <= dot_raw(u, u) <= ONE * ONE + 6 * ONE,
{
    let (v0, v1, v2) = (v[0] as i128, v[1] as i128, v[2] as i128);
    proof {
        lemma_product_bound(v0 as int, v0 as int);
        lemma_product_bound(v1 as int, v1 as int);
        lemma_product_bound(v2 as int, v2 as int);
        lemma_square_pos(v0 as int);
        lemma_square_pos(v1 as int);
        lemma_square_pos(v2 as int);
    }
    let sq = v0 * v0 + v1 * v1 + v2 * v2;
    let n = sq * 0x1_0000_0000;
    let l = isqrt(n as u128) as i128;
    proof {
        lemma_unit_facts(v);
    }
    let u = [
        div_trunc(v0 * 0x1_0000_0000, l) as i32,
        div_trunc(v1 * 0x1_0000_0000, l) as i32,
        div_trunc(v2 * 0x1_0000_0000, l) as i32,
    ];
    assert(u =~= unit_of(v));
    proof {
        lemma_unit_length(v);
    }
    u
}

proof fn lemma_square_pos(x: int)
    ensures
        x * x >= 0,
{
    assert(x * x >= 0) by (nonlinear_arith);
}

/// A component is no longer than the vector.
proof fn lemma_component_within_length(a: int, b: int, c: int, l: int)
    requires
        l >= 0,
        a * a + b * b + c * c < (l + 1) * (l + 1),
    ensures
        -l <= a <= l,
{
    lemma_square_pos(b);
    lemma_square_pos(c);
    assert(-l <= a <= l) by (nonlinear_arith)
        requires
            l >= 0,
            a * a + b * b + c * c < (l + 1) * (l + 1),
            b * b >= 0,
            c * c >= 0,
    ;
}

proof fn lemma_root_exists(n: int)
    requires
        n >= 0,
    ensures
        exists|r: int| #[trigger] is_root(n, r),
    decreases n,
{
    if n == 0 {
        assert(is_root(0, 0));
    } else {
        lemma_root_exists(n - 1);
        let r = choose|r: int| #[trigger] is_root(n - 1, r);
        if (r + 1) * (r + 1) <= n {
            assert((r + 2) * (r + 2) > n) by (nonlinear_arith)
                requires
                    r >= 0,
                    n - 1 < (r + 1) * (r + 1),
            ;
            assert(is_root(n, r + 1));
        } else {
            assert(is_root(n, r));
        }
    }
}

/// A component `a` (of scale `ONE * ONE`) no longer than `l`, divided by `l` to
/// scale `ONE`, lies in `[-ONE, ONE]`.
proof fn lemma_unit_component(a: int, l: int)
    requires
        l >= 1,
        -l <= a <= l,
    ensures
        -(ONE as int) <= quot(a * ONE, l) <= ONE as int,
{
    let one = ONE as int;
    let p = a * one;
    lemma_quot_parts(p, l);
    assert(mag(p) <= one * l) by (nonlinear_arith)
        requires
            -l <= a <= l,
            p == a * one,
            one == 65536,
    ;
    assert(mag(p) / l <= one) by (nonlinear_arith)
        requires
            0 <= mag(p) <= one * l,
            l >= 1,
    ;
}

/// What `unit` relies on: the fine length is the integer square root of the
/// scaled squared length, at least `ONE`, and no component exceeds it.
proof fn lemma_unit_facts(v: Vec3)
    requires
        !is_zero(v),
    ensures
        is_root(dot_raw(v, v) * 0x1_0000_0000, fine_length(v)),
        fine_length(v) >= ONE,
        forall|i: int| 0 <= i < 3 ==> -fine_length(v) <= #[trigger] v[i] * ONE <= fine_length(v),
        forall|i: int| 0 <= i < 3 ==> -(ONE as int) <= #[trigger] quot(v[i] * 0x1_0000_0000, fine_length(v)) <= ONE as int,
{
    let one = ONE as int;
    let (a0, a1, a2) = (v[0] * one, v[1] * one, v[2] * one);
    let s = dot_raw(v, v);
    let n = s * 0x1_0000_0000;
    lemma_square_pos(v[0] as int);
    lemma_square_pos(v[1] as int);
    lemma_square_pos(v[2] as int);
    assert(s >= 1) by {
        if v[0] != 0 {
            assert(v[0] * v[0] >= 1) by (nonlinear_arith) requires v[0] != 0;
        } else if v[1] != 0 {
            assert(v[1] * v[1] >= 1) by (nonlinear_arith) requires v[1] != 0;
        } else {
            assert(v[2] * v[2] >= 1) by (nonlinear_arith) requires v[2] != 0;
        }
    }
    lemma_root_exists(n);
    let l = fine_length(v);
    assert(is_root(n, l));
    assert(n == a0 * a0 + a1 * a1 + a2 * a2) by (nonlinear_arith)
        requires
            n == s * 0x1_0000_0000,
            s == v[0] * v[0] + v[1] * v[1] + v[2] * v[2],
            a0 == v[0] * one,
            a1 == v[1] * one,
            a2 == v[2] * one,
            one == 65536,
    ;
    assert(l >= one) by (nonlinear_arith)
        requires
            n < (l + 1) * (l + 1),
            n >= 0x1_0000_0000,
            l >= 0,
            one == 65536,
    ;
    lemma_component_within_length(a0, a1, a2, l);
    lemma_component_within_length(a1, a0, a2, l);
    lemma_component_within_length(a2, a1, a0, l);
    lemma_unit_component(a0, l);
    lemma_unit_component(a1, l);
    lemma_unit_component(a2, l);
    assert(v[0] * 0x1_0000_0000 == a0 * one && v[1] * 0x1_0000_0000 == a1 * one && v[2]
        * 0x1_0000_0000 == a2 * one);
}

/// Bounds on the square of one component `u = a * ONE / l` (rounded toward zero)
/// of a unit vector, against the exact `a * a * ONE * ONE`.
proof fn lemma_unit_component_square(a: int, l: int, u: int)
    requires
        l >= 1,
        -l <= a <= l,
        u == quot(a * ONE, l),
    ensures
        a * a * (ONE * ONE) - 2 * ONE * (l * l) <= (u * u) * (l * l) <= a * a * (ONE * ONE) + l * l,
{
    let one = ONE as int;
    let p = a * one;
    lemma_quot_parts(p, l);
    let r = p - l * u;
    assert(p * r >= 0) by (nonlinear_arith)
        requires
            p >= 0 ==> 0 <= r,
            p < 0 ==> r <= 0,
    ;
    assert(p * r <= one * (l * l)) by (nonlinear_arith)
        requires
            -l <= a <= l,
            p == a * one,
            -l < r < l,
            one == 65536,
    ;
    assert(r * r <= l * l) by (nonlinear_arith)
        requires
            -l < r < l,
    ;
    lemma_square_pos(r);
    assert((u * u) * (l * l) == p * p - 2 * (p * r) + r * r) by (nonlinear_arith)
        requires
            r == p - l * u,
    ;
    assert(p * p == a * a * (one * one)) by (nonlinear_arith)
        requires
            p == a * one,
    ;
    assert(a * a * (one * one) - 2 * one * (l * l) <= (u * u) * (l * l)) by (nonlinear_arith)
        requires
            (u * u) * (l * l) == p * p - 2 * (p * r) + r * r,
            p * p == a * a * (one * one),
            p * r <= one * (l * l),
            r * r >= 0,
    ;
    assert((u * u) * (l * l) <= a * a * (one * one) + l * l) by (nonlinear_arith)
        requires
            (u * u) * (l * l) == p * p - 2 * (p * r) + r * r,
            p * p == a * a * (one * one),
            p * r >= 0,
            r * r <= l * l,
    ;
}

/// `unit(v)` has length 1 up to rounding, for every non-zero `v`: its squared
/// length, in units of `1 / (ONE * ONE)`, is within `6 * ONE` of `ONE * ONE`.
pub proof fn lemma_unit_length(v: Vec3)
    requires
        !is_zero(v),
    ensures
        ONE * ONE - 6 * ONE <= dot_raw(unit_of(v), unit_of(v)) <= ONE * ONE + 6 * ONE,
{
    let one = ONE as int;
    lemma_unit_facts(v);
    let l = fine_length(v);
    let n = dot_raw(v, v) * 0x1_0000_0000;
    let (a0, a1, a2) = (v[0] * one, v[1] * one, v[2] * one);
    let u = unit_of(v);
    let (u0, u1, u2) = (
        quot(a0 * one, l),
        quot(a1 * one, l),
        quot(a2 * one, l),
    );
    assert(v[0] * 0x1_0000_0000 == a0 * one && v[1] * 0x1_0000_0000 == a1 * one && v[2]
        * 0x1_0000_0000 == a2 * one);
    assert(-l <= v[0] * ONE <= l && -l <= v[1] * ONE <= l && -l <= v[2] * ONE <= l);
    assert(-one <= quot(v[0] * 0x1_0000_0000, l) <= one);
    assert(-one <= quot(v[1] * 0x1_0000_0000, l) <= one);
    assert(-one <= quot(v[2] * 0x1_0000_0000, l) <= one);
    assert(u[0] == u0 && u[1] == u1 && u[2] == u2);
    lemma_unit_component_square(a0, l, u0);
    lemma_unit_component_square(a1, l, u1);
    lemma_unit_component_square(a2, l, u2);
    let q = u0 * u0 + u1 * u1 + u2 * u2;
    let ll = l * l;
    assert(dot_raw(u, u) == q);
    assert(n == a0 * a0 + a1 * a1 + a2 * a2) by (nonlinear_arith)
        requires
            n == (v[0] * v[0] + v[1] * v[1] + v[2] * v[2]) * 0x1_0000_0000,
            a0 == v[0] * one,
            a1 == v[1] * one,
            a2 == v[2] * one,
            one == 65536,
    ;
    assert(n * (one * one) - 6 * one * ll <= q * ll <= n * (one * one) + 3 * ll) by (nonlinear_arith)
        requires
            a0 * a0 * (one * one) - 2 * one * ll <= (u0 * u0) * ll <= a0 * a0 * (one * one) + ll,
            a1 * a1 * (one * one) - 2 * one * ll <= (u1 * u1) * ll <= a1 * a1 * (one * one) + ll,
            a2 * a2 * (one * one) - 2 * one * ll <= (u2 * u2) * ll <= a2 * a2 * (one * one) + ll,
            q == u0 * u0 + u1 * u1 + u2 * u2,
            n == a0 * a0 + a1 * a1 + a2 * a2,
            one == 65536,
    ;
    assert(ll >= 1) by (nonlinear_arith)
        requires
            l >= 1,
            ll == l * l,
    ;
    assert(ll * (one * one) <= n * (one * one)) by (nonlinear_arith)
        requires
            ll <= n,
    ;
    assert(one * one - 6 * one <= q) by (nonlinear_arith)
        requires
            ll * (one * one) - 6 * one * ll <= q * ll,
            ll >= 1,
    ;
    assert(n * (one * one) <= (one * one) * ll + 2 * one * ll) by (nonlinear_arith)
        requires
            n < (l + 1) * (l + 1),
            ll == l * l,
            l >= one,
            one == 65536,
    ;
    assert(q <= one * one + 6 * one) by (nonlinear_arith)
        requires
            q * ll <= (one * one) * ll + 2 * one * ll + 3 * ll,
            ll >= 1,
            one == 65536,
    ;
}

/// The cross product is orthogonal to each of its factors, up to rounding:
/// `dot(cross(a, b), a)` and `dot(cross(a, b), b)` lie within `|a| / ONE` and
/// `|b| / ONE` units of `1 / ONE` of zero, where `|v|` sums the magnitudes of the
/// components. This holds wherever the cross product does not saturate.
pub proof fn lemma_cross_orthogonal(a: Vec3, b: Vec3)
    requires
        cross_fits(a, b),
    ensures
        mag(rescale(dot_raw(cross_of(a, b), a))) <= abs_sum(a) / (ONE as int),
        mag(rescale(dot_raw(cross_of(a, b), b))) <= abs_sum(b) / (ONE as int),
{
    let c = cross_of(a, b);
    let one = ONE as int;
    let (a0, a1, a2) = (a[0] as int, a[1] as int, a[2] as int);
    let (b0, b1, b2) = (b[0] as int, b[1] as int, b[2] as int);
    let (k0, k1, k2) = (cross_raw(a, b, 0), cross_raw(a, b, 1), cross_raw(a, b, 2));
    assert(k0 * a0 + k1 * a1 + k2 * a2 == 0) by (nonlinear_arith)
        requires
            k0 == a1 * b2 - a2 * b1,
            k1 == a2 * b0 - a0 * b2,
            k2 == a0 * b1 - a1 * b0,
    ;
    assert(k0 * b0 + k1 * b1 + k2 * b2 == 0) by (nonlinear_arith)
        requires
            k0 == a1 * b2 - a2 * b1,
            k1 == a2 * b0 - a0 * b2,
            k2 == a0 * b1 - a1 * b0,
    ;
    lemma_rounded_dot(k0, k1, k2, c[0] as int, c[1] as int, c[2] as int, a0, a1, a2);
    lemma_rounded_dot(k0, k1, k2, c[0] as int, c[1] as int, c[2] as int, b0, b1, b2);
}

/// Swapping the factors of the cross product negates it, exactly, wherever
/// neither order saturates.
pub proof fn lemma_cross_anti_symmetric(a: Vec3, b: Vec3)
    requires
        cross_fits(a, b),
        cross_fits(b, a),
    ensures
        forall|i: int| 0 <= i < 3 ==> #[trigger] cross_of(a, b)[i] == -cross_of(b, a)[i],
{
    assert forall|i: int| 0 <= i < 3 implies #[trigger] cross_of(a, b)[i] == -cross_of(b, a)[i] by {
        let (a0, a1, a2) = (a[0] as int, a[1] as int, a[2] as int);
        let (b0, b1, b2) = (b[0] as int, b[1] as int, b[2] as int);
        assert(b1 * a2 - b2 * a1 == -(a1 * b2 - a2 * b1)) by (nonlinear_arith);
        assert(b2 * a0 - b0 * a2 == -(a2 * b0 - a0 * b2)) by (nonlinear_arith);
        assert(b0 * a1 - b1 * a0 == -(a0 * b1 - a1 * b0)) by (nonlinear_arith);
        assert(cross_raw(b, a, i) == -cross_raw(a, b, i));
        assert(quot(-cross_raw(a, b, i), ONE as int) == -quot(cross_raw(a, b, i), ONE as int));
    }
}

/// Rounding each of `k0`, `k1`, `k2` (of scale `ONE * ONE`) toward zero moves
/// their dot product with `x` by at most `|x|`.
proof fn lemma_rounded_dot(k0: int, k1: int, k2: int, c0: int, c1: int, c2: int, x0: int, x1: int, x2: int)
    requires
        k0 * x0 + k1 * x1 + k2 * x2 == 0,
        c0 == quot(k0, ONE as int),
        c1 == quot(k1, ONE as int),
        c2 == quot(k2, ONE as int),
        i32::MIN <= x0 <= i32::MAX,
        i32::MIN <= x1 <= i32::MAX,
        i32::MIN <= x2 <= i32::MAX,
    ensures
        mag(rescale(c0 * x0 + c1 * x1 + c2 * x2)) <= (mag(x0) + mag(x1) + mag(x2)) / (ONE as int),
{
    let one = ONE as int;
    lemma_quot_parts(k0, one);
    lemma_quot_parts(k1, one);
    lemma_quot_parts(k2, one);
    let e0 = k0 - one * c0;
    let e1 = k1 - one * c1;
    let e2 = k2 - one * c2;
    assert(-one < e0 < one && -one < e1 < one && -one < e2 < one);
    lemma_err_term(e0, x0);
    lemma_err_term(e1, x1);
    lemma_err_term(e2, x2);
    let s = c0 * x0 + c1 * x1 + c2 * x2;
    let m = mag(x0) + mag(x1) + mag(x2);
    lemma_term(one, c0, k0, e0, x0);
    lemma_term(one, c1, k1, e1, x1);
    lemma_term(one, c2, k2, e2, x2);
    assert(one * s == one * (c0 * x0) + one * (c1 * x1) + one * (c2 * x2)) by (nonlinear_arith)
        requires
            s == c0 * x0 + c1 * x1 + c2 * x2,
    ;
    assert(one * s == -(e0 * x0 + e1 * x1 + e2 * x2));
    assert(-m <= s <= m) by (nonlinear_arith)
        requires
            one * s == -(e0 * x0 + e1 * x1 + e2 * x2),
            -one * mag(x0) <= e0 * x0 <= one * mag(x0),
            -one * mag(x1) <= e1 * x1 <= one * mag(x1),
            -one * mag(x2) <= e2 * x2 <= one * mag(x2),
            m == mag(x0) + mag(x1) + mag(x2),
            one == 65536,
    ;
    lemma_quot_parts(s, one);
    vstd::arithmetic::div_mod::lemma_div_is_ordered(mag(s), m, one);
    assert(m / one <= 0x30000) by (nonlinear_arith)
        requires
            0 <= m <= 3 * 0x8000_0000,
            one == 65536,
    ;
}

proof fn lemma_term(one: int, c: int, k: int, e: int, x: int)
    requires
        e == k - one * c,
    ensures
        one * (c * x) == k * x - e * x,
{
    assert(one * (c * x) == k * x - e * x) by (nonlinear_arith)
        requires
            e == k - one * c,
    ;
}

proof fn lemma_err_term(e: int, x: int)
    requires
        -(ONE as int) < e < ONE as int,
    ensures
        -(ONE as int) * mag(x) <= e * x <= (ONE as int) * mag(x),
{
    let one = ONE as int;
    assert(-one * mag(x) <= e * x <= one * mag(x)) by (nonlinear_arith)
        requires
            -one < e < one,
    ;
}

} // verus!
