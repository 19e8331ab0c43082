//! 4x4 fixed-point matrices: products, builders for model, view and projection
//! transforms, and the laws that tie them together.

use vstd::prelude::*;
use crate::vector::{
    lemma_unit_length, cross, cross_of, diff, diff_of, dot, dot_of, dot_raw, is_zero, unit, unit_of, Vec3,
};
use crate::fixed::{
    lemma_quot_exact, lemma_quot_parts, mag, mul_spec, quot,
    clamp, div_spec, fx_div, fx_mul, lemma_product_bound, rescale, rescale_raw, saturate, Fixed,
    ONE,
};

verus! {

/// A homogeneous point or direction `(x, y, z, w)` of fixed-point values.
pub type Vec4 = [Fixed; 4];

/// A 4x4 matrix of fixed-point values, indexed `mat[row][column]`.
#[derive(Clone, Copy, Debug)]
pub struct Mat4x4 {
    pub mat: [[Fixed; 4]; 4],
}

/// Exact raw dot product of row `r` of `m` with `v`, of scale `ONE * ONE`.
pub open spec fn row_raw(m: Mat4x4, r: int, v: Vec4) -> int {
    m.mat[r][0] * v[0] + m.mat[r][1] * v[1] + m.mat[r][2] * v[2] + m.mat[r][3] * v[3]
}

/// Exact raw entry `(r, c)` of the product `a * b`, of scale `ONE * ONE`.
pub open spec fn mat_raw(a: Mat4x4, b: Mat4x4, r: int, c: int) -> int {
    a.mat[r][0] * b.mat[0][c] + a.mat[r][1] * b.mat[1][c] + a.mat[r][2] * b.mat[2][c] + a.mat[r][3]
        * b.mat[3][c]
}

/// Row `r` of the product `a * b`.
pub open spec fn product_row(a: Mat4x4, b: Mat4x4, r: int) -> [Fixed; 4] {
    [
        rescale(mat_raw(a, b, r, 0)) as i32,
        rescale(mat_raw(a, b, r, 1)) as i32,
        rescale(mat_raw(a, b, r, 2)) as i32,
        rescale(mat_raw(a, b, r, 3)) as i32,
    ]
}

/// The product `a * b`, each entry rounded toward zero once.
pub open spec fn product_of(a: Mat4x4, b: Mat4x4) -> Mat4x4 {
    Mat4x4 {
        mat: [product_row(a, b, 0), product_row(a, b, 1), product_row(a, b, 2), product_row(a, b, 3)],
    }
}

/// The linear image of `v` under `m`, each component rounded toward zero once.
pub open spec fn apply_linear(m: Mat4x4, v: Vec4) -> Vec4 {
    [
        rescale(row_raw(m, 0, v)) as i32,
        rescale(row_raw(m, 1, v)) as i32,
        rescale(row_raw(m, 2, v)) as i32,
        rescale(row_raw(m, 3, v)) as i32,
    ]
}

/// `m * v`: the linear image of `v`, whose `x`, `y`, `z` are divided by its `w`
/// unless that `w` is 0 or 1; `w` itself is kept.
pub open spec fn apply_of(m: Mat4x4, v: Vec4) -> Vec4 {
    let x = rescale(row_raw(m, 0, v));
    let y = rescale(row_raw(m, 1, v));
    let z = rescale(row_raw(m, 2, v));
    let w = rescale(row_raw(m, 3, v));
    if w != 0 && w != ONE {
        [div_spec(x, w) as i32, div_spec(y, w) as i32, div_spec(z, w) as i32, w as i32]
    } else {
        [x as i32, y as i32, z as i32, w as i32]
    }
}

/// The matrix whose rows are the four given arrays.
pub open spec fn rows(r0: [Fixed; 4], r1: [Fixed; 4], r2: [Fixed; 4], r3: [Fixed; 4]) -> Mat4x4 {
    Mat4x4 { mat: [r0, r1, r2, r3] }
}

/// The identity matrix.
pub open spec fn identity() -> Mat4x4 {
    rows([ONE, 0, 0, 0], [0, ONE, 0, 0], [0, 0, ONE, 0], [0, 0, 0, ONE])
}

/// `-x`, saturated.
pub open spec fn negated(x: int) -> int {
    clamp(-x)
}

/// The translation by `(x, y, z)`.
pub open spec fn translation_of(x: Fixed, y: Fixed, z: Fixed) -> Mat4x4 {
    rows([ONE, 0, 0, x], [0, ONE, 0, y], [0, 0, ONE, z], [0, 0, 0, ONE])
}

/// The scaling by `(x, y, z)`.
pub open spec fn scaling_of(x: Fixed, y: Fixed, z: Fixed) -> Mat4x4 {
    rows([x, 0, 0, 0], [0, y, 0, 0], [0, 0, z, 0], [0, 0, 0, ONE])
}

/// The rotation about the x axis by the angle whose cosine is `c` and sine is `s`.
pub open spec fn rotation_x_of(c: Fixed, s: Fixed) -> Mat4x4 {
    rows([ONE, 0, 0, 0], [0, c, negated(s as int) as i32, 0], [0, s, c, 0], [0, 0, 0, ONE])
}

/// The rotation about the y axis by the angle whose cosine is `c` and sine is `s`.
pub open spec fn rotation_y_of(c: Fixed, s: Fixed) -> Mat4x4 {
    rows([c, 0, s, 0], [0, ONE, 0, 0], [negated(s as int) as i32, 0, c, 0], [0, 0, 0, ONE])
}

/// The rotation about the z axis by the angle whose cosine is `c` and sine is `s`.
pub open spec fn rotation_z_of(c: Fixed, s: Fixed) -> Mat4x4 {
    rows([c, negated(s as int) as i32, 0, 0], [s, c, 0, 0], [0, 0, ONE, 0], [0, 0, 0, ONE])
}

/// The forward axis of the camera at `eye` looking at `at`: from `at` toward `eye`.
pub open spec fn forward_axis(eye: Vec3, at: Vec3) -> Vec3 {
    unit_of(diff_of(eye, at))
}

/// The right axis of the camera: `up` crossed with the forward axis, made unit.
pub open spec fn right_axis(eye: Vec3, at: Vec3, up: Vec3) -> Vec3 {
    unit_of(cross_of(up, forward_axis(eye, at)))
}

/// The true up axis of the camera: the forward axis crossed with the right axis.
pub open spec fn up_axis(eye: Vec3, at: Vec3, up: Vec3) -> Vec3 {
    cross_of(forward_axis(eye, at), right_axis(eye, at, up))
}

/// A row of the view matrix: the axis `a`, then the translation `-dot(a, eye)`.
pub open spec fn view_row(a: Vec3, eye: Vec3) -> [Fixed; 4] {
    [a[0], a[1], a[2], negated(dot_of(a, eye)) as i32]
}

/// Whether a camera at `eye` looking at `at` has a well-defined frame with `up`:
/// `eye` differs from `at` and `up` is not parallel to the line of sight.
pub open spec fn camera_defined(eye: Vec3, at: Vec3, up: Vec3) -> bool {
    !is_zero(diff_of(eye, at)) && !is_zero(cross_of(up, forward_axis(eye, at)))
}

/// The view matrix of a camera at `eye` looking at `at`, with `up` as the upward hint.
pub open spec fn view_of(eye: Vec3, at: Vec3, up: Vec3) -> Mat4x4 {
    rows(
        view_row(right_axis(eye, at, up), eye),
        view_row(up_axis(eye, at, up), eye),
        view_row(forward_axis(eye, at), eye),
        [0, 0, 0, ONE],
    )
}

/// The perspective projection for the given tangent of half the field of view,
/// aspect ratio and far and near distances.
pub open spec fn perspective_of(tan_half_fov: Fixed, aspect: Fixed, far: Fixed, near: Fixed) -> Mat4x4 {
    let scale = mul_spec(tan_half_fov as int, near as int);
    let r = mul_spec(aspect as int, scale);
    let depth = clamp(far - near);
    rows(
        [div_spec(near as int, r) as i32, 0, 0, 0],
        [0, div_spec(near as int, scale) as i32, 0, 0],
        [
            0,
            0,
            div_spec(clamp(-far - near), depth) as i32,
            div_spec(mul_spec(clamp(-2 * far), near as int), depth) as i32,
        ],
        [0, 0, negated(ONE as int) as i32, 0],
    )
}

fn negate(x: Fixed) -> (r: Fixed)
    ensures
        r == negated(x as int),
{
    saturate(-(x as i128))
}

fn row_dot(m: &Mat4x4, r: usize, v: &Vec4) -> (d: Fixed)
    requires
        r < 4,
    ensures
        d == rescale(row_raw(*m, r as int, *v)),
{
    let row = m.mat[r];
    proof {
        lemma_product_bound(row[0] as int, v[0] as int);
        lemma_product_bound(row[1] as int, v[1] as int);
        lemma_product_bound(row[2] as int, v[2] as int);
        lemma_product_bound(row[3] as int, v[3] as int);
    }
    rescale_raw(row[0] as i128 * v[0] as i128 + row[1] as i128 * v[1] as i128 + row[2] as i128
        * v[2] as i128 + row[3] as i128 * v[3] as i128)
}

fn product_entry(a: &Mat4x4, b: &Mat4x4, r: usize, c: usize) -> (e: Fixed)
    requires
        r < 4,
        c < 4,
    ensures
        e == rescale(mat_raw(*a, *b, r as int, c as int)),
{
    let row = a.mat[r];
    let (b0, b1, b2, b3) = (b.mat[0][c], b.mat[1][c], b.mat[2][c], b.mat[3][c]);
    proof {
        lemma_product_bound(row[0] as int, b0 as int);
        lemma_product_bound(row[1] as int, b1 as int);
        lemma_product_bound(row[2] as int, b2 as int);
        lemma_product_bound(row[3] as int, b3 as int);
    }
    rescale_raw(row[0] as i128 * b0 as i128 + row[1] as i128 * b1 as i128 + row[2] as i128
        * b2 as i128 + row[3] as i128 * b3 as i128)
}

fn product_row_exec(a: &Mat4x4, b: &Mat4x4, r: usize) -> (row: [Fixed; 4])
    requires
        r < 4,
    ensures
        row == product_row(*a, *b, r as int),
{
    let row = [
        product_entry(a, b, r, 0),
        product_entry(a, b, r, 1),
        product_entry(a, b, r, 2),
        product_entry(a, b, r, 3),
    ];
    assert(row =~= product_row(*a, *b, r as int));
    row
}

impl Mat4x4 {
    /// The identity matrix.
    pub fn unit() -> (m: Mat4x4)
        ensures
            m == identity(),
    {
        Mat4x4 { mat: [[ONE, 0, 0, 0], [0, ONE, 0, 0], [0, 0, ONE, 0], [0, 0, 0, ONE]] }
    }

    /// The transpose: entry `(r, c)` is entry `(c, r)` of `self`.
    pub fn transpose(&self) -> (t: Mat4x4)
        ensures
            forall|r: int, c: int| 0 <= r < 4 && 0 <= c < 4 ==> #[trigger] t.mat[r][c] == self.mat[c][r],
    {
        let m = self.mat;
        Mat4x4 {
            mat: [
                [m[0][0], m[1][0], m[2][0], m[3][0]],
                [m[0][1], m[1][1], m[2][1], m[3][1]],
                [m[0][2], m[1][2], m[2][2], m[3][2]],
                [m[0][3], m[1][3], m[2][3], m[3][3]],
            ],
        }
    }

    /// The upper-left 3x3 block of `self` applied to the direction `rhs`.
    pub fn mul_dir(&self, rhs: Vec3) -> (r: Vec3)
        ensures
            r == xyz(apply_linear(*self, [rhs[0], rhs[1], rhs[2], 0])),
    {
        let p = [rhs[0], rhs[1], rhs[2], 0];
        let r = [row_dot(self, 0, &p), row_dot(self, 1, &p), row_dot(self, 2, &p)];
        assert(r =~= xyz(apply_linear(*self, p)));
        r
    }

    /// `self * v` with the perspective divide of `apply_of`.
    pub fn mul_vec(&self, v: Vec4) -> (r: Vec4)
        ensures
            r == apply_of(*self, v),
    {
        let x = row_dot(self, 0, &v);
        let y = row_dot(self, 1, &v);
        let z = row_dot(self, 2, &v);
        let w = row_dot(self, 3, &v);
        let r = if w != 0 && w != ONE {
            [fx_div(x, w), fx_div(y, w), fx_div(z, w), w]
        } else {
            [x, y, z, w]
        };
        assert(r =~= apply_of(*self, v));
        r
    }

    /// The matrix product `self * rhs`.
    pub fn mul_mat(&self, rhs: &Mat4x4) -> (p: Mat4x4)
        ensures
            p == product_of(*self, *rhs),
    {
        let p = Mat4x4 {
            mat: [
                product_row_exec(self, rhs, 0),
                product_row_exec(self, rhs, 1),
                product_row_exec(self, rhs, 2),
                product_row_exec(self, rhs, 3),
            ],
        };
        assert(p.mat =~= product_of(*self, *rhs).mat);
        p
    }
}

/// The translation by `(x, y, z)`.
pub fn translation_mat(x: Fixed, y: Fixed, z: Fixed) -> (m: Mat4x4)
    ensures
        m == translation_of(x, y, z),
{
    Mat4x4 { mat: [[ONE, 0, 0, x], [0, ONE, 0, y], [0, 0, ONE, z], [0, 0, 0, ONE]] }
}

/// The scaling by `(x, y, z)`.
pub fn scale_mat(x: Fixed, y: Fixed, z: Fixed) -> (m: Mat4x4)
    ensures
        m == scaling_of(x, y, z),
{
    Mat4x4 { mat: [[x, 0, 0, 0], [0, y, 0, 0], [0, 0, z, 0], [0, 0, 0, ONE]] }
}

/// The rotation about the x axis by the angle whose cosine is `c` and sine is `s`.
pub fn rotate_x_mat(c: Fixed, s: Fixed) -> (m: Mat4x4)
    ensures
        m == rotation_x_of(c, s),
{
    Mat4x4 { mat: [[ONE, 0, 0, 0], [0, c, negate(s), 0], [0, s, c, 0], [0, 0, 0, ONE]] }
}

/// The rotation about the y axis by the angle whose cosine is `c` and sine is `s`.
pub fn rotate_y_mat(c: Fixed, s: Fixed) -> (m: Mat4x4)
    ensures
        m == rotation_y_of(c, s),
{
    Mat4x4 { mat: [[c, 0, s, 0], [0, ONE, 0, 0], [negate(s), 0, c, 0], [0, 0, 0, ONE]] }
}

/// The rotation about the z axis by the angle whose cosine is `c` and sine is `s`.
pub fn rotate_z_mat(c: Fixed, s: Fixed) -> (m: Mat4x4)
    ensures
        m == rotation_z_of(c, s),
{
    Mat4x4 { mat: [[c, negate(s), 0, 0], [s, c, 0, 0], [0, 0, ONE, 0], [0, 0, 0, ONE]] }
}

/// The first three components of `p`.
pub open spec fn xyz(p: Vec4) -> Vec3 {
    [p[0], p[1], p[2]]
}

/// The point `v` (of weight 1) as a homogeneous point.
pub open spec fn point(v: Vec3) -> Vec4 {
    [v[0], v[1], v[2], ONE]
}

/// `v` rotated about the y axis through the origin.
pub fn rotate_y_vec3(c: Fixed, s: Fixed, v: Vec3) -> (r: Vec3)
    ensures
        r == xyz(apply_of(rotation_y_of(c, s), point(v))),
{
    let n = rotate_y_mat(c, s).mul_vec([v[0], v[1], v[2], ONE]);
    assert([v[0], v[1], v[2], ONE] =~= point(v));
    let r = [n[0], n[1], n[2]];
    assert(r =~= xyz(apply_of(rotation_y_of(c, s), point(v))));
    r
}

/// `v` rotated about the x axis through the origin.
pub fn rotate_x_vec3(c: Fixed, s: Fixed, v: Vec3) -> (r: Vec3)
    ensures
        r == xyz(apply_of(rotation_x_of(c, s), point(v))),
{
    let n = rotate_x_mat(c, s).mul_vec([v[0], v[1], v[2], ONE]);
    assert([v[0], v[1], v[2], ONE] =~= point(v));
    let r = [n[0], n[1], n[2]];
    assert(r =~= xyz(apply_of(rotation_x_of(c, s), point(v))));
    r
}

/// `p` moved by `o`, component-wise, saturated.
pub open spec fn shifted(p: Vec3, o: Vec3) -> Vec3 {
    [clamp(p[0] + o[0]) as i32, clamp(p[1] + o[1]) as i32, clamp(p[2] + o[2]) as i32]
}

fn shift(p: Vec3, o: Vec3) -> (r: Vec3)
    ensures
        r == shifted(p, o),
{
    let r = [
        saturate(p[0] as i128 + o[0] as i128),
        saturate(p[1] as i128 + o[1] as i128),
        saturate(p[2] as i128 + o[2] as i128),
    ];
    assert(r =~= shifted(p, o));
    r
}

/// `v` rotated about the axis parallel to y through `o`.
pub fn rotate_y_around_p_vec3(c: Fixed, s: Fixed, v: Vec3, o: Vec3) -> (r: Vec3)
    ensures
        r == shifted(xyz(apply_of(rotation_y_of(c, s), point(diff_of(v, o)))), o),
{
    let nc = diff(v, o);
    let n = rotate_y_vec3(c, s, nc);
    shift(n, o)
}

/// `v` rotated about the axis parallel to x through `o`.
pub fn rotate_x_around_p_vec3(c: Fixed, s: Fixed, v: Vec3, o: Vec3) -> (r: Vec3)
    ensures
        r == shifted(xyz(apply_of(rotation_x_of(c, s), point(diff_of(v, o)))), o),
{
    let nc = diff(v, o);
    let n = rotate_x_vec3(c, s, nc);
    shift(n, o)
}

/// The view (look-at) matrix of a camera at `eye` looking at `at`. Its rows are
/// the right axis `u = unit(cross(up, n))`, the true up axis `v = cross(n, u)` and
/// the forward axis `n = unit(eye - at)`, each followed by `-dot(axis, eye)`, and
/// then `(0, 0, 0, 1)`.
pub fn viewer(eye: Vec3, at: Vec3, up: Vec3) -> (m: Mat4x4)
    requires
        camera_defined(eye, at, up),
    ensures
        m == view_of(eye, at, up),
{
    let n = unit(diff(eye, at));
    let u = unit(cross(up, n));
    let v = cross(n, u);
    let m = Mat4x4 {
        mat: [
            [u[0], u[1], u[2], negate(dot(u, eye))],
            [v[0], v[1], v[2], negate(dot(v, eye))],
            [n[0], n[1], n[2], negate(dot(n, eye))],
            [0, 0, 0, ONE],
        ],
    };
    assert(m.mat[0] =~= view_row(right_axis(eye, at, up), eye));
    assert(m.mat[1] =~= view_row(up_axis(eye, at, up), eye));
    assert(m.mat[2] =~= view_row(forward_axis(eye, at), eye));
    assert(m.mat =~= view_of(eye, at, up).mat);
    m
}

/// The perspective projection. Distances are positive, with `0 < near < far`;
/// `tan_half_fov` is the tangent of half the vertical field of view. The matrix
/// has `near / r` and `near / t` on its diagonal, where `t = tan_half_fov * near`
/// and `r = aspect * t`, the depth terms `(-far - near) / (far - near)` and
/// `-2 * far * near / (far - near)` in its third row, and `-1` at row 3, column 2,
/// which carries `-z` into `w` for the perspective divide.
pub fn perspective_projection(tan_half_fov: Fixed, aspect: Fixed, far: Fixed, near: Fixed) -> (m: Mat4x4)
    requires
        0 < near < far,
        mul_spec(tan_half_fov as int, near as int) != 0,
        mul_spec(aspect as int, mul_spec(tan_half_fov as int, near as int)) != 0,
    ensures
        m == perspective_of(tan_half_fov, aspect, far, near),
{
    let scale = fx_mul(tan_half_fov, near);
    let r = fx_mul(aspect, scale);
    let t = scale;
    let depth = saturate(far as i128 - near as i128);
    let m = Mat4x4 {
        mat: [
            [fx_div(near, r), 0, 0, 0],
            [0, fx_div(near, t), 0, 0],
            [
                0,
                0,
                fx_div(saturate(-(far as i128) - near as i128), depth),
                fx_div(fx_mul(saturate(-2 * far as i128), near), depth),
            ],
            [0, 0, negate(ONE), 0],
        ],
    };
    assert(m.mat =~= perspective_of(tan_half_fov, aspect, far, near).mat);
    m
}

/// Whether each axis of the view matrix meets `eye` without saturation, the
/// translation terms included.
pub open spec fn view_fits(eye: Vec3, at: Vec3, up: Vec3) -> bool {
    &&& i32::MIN < quot(dot_raw(right_axis(eye, at, up), eye), ONE as int) <= i32::MAX
    &&& i32::MIN < quot(dot_raw(up_axis(eye, at, up), eye), ONE as int) <= i32::MAX
    &&& i32::MIN < quot(dot_raw(forward_axis(eye, at), eye), ONE as int) <= i32::MAX
}

/// The right and forward axes of a defined camera, the first and third rows of
/// its view matrix, are of unit length up to rounding: their squared lengths lie
/// within `6 / ONE` of 1.
pub proof fn lemma_view_axes_unit(eye: Vec3, at: Vec3, up: Vec3)
    requires
        camera_defined(eye, at, up),
    ensures
        ONE * ONE - 6 * ONE <= dot_raw(right_axis(eye, at, up), right_axis(eye, at, up)) <= ONE * ONE
            + 6 * ONE,
        ONE * ONE - 6 * ONE <= dot_raw(forward_axis(eye, at), forward_axis(eye, at)) <= ONE * ONE + 6
            * ONE,
{
    lemma_unit_length(diff_of(eye, at));
    lemma_unit_length(cross_of(up, forward_axis(eye, at)));
}

proof fn lemma_view_row_at_eye(a: Vec3, eye: Vec3)
    requires
        i32::MIN < quot(dot_raw(a, eye), ONE as int) <= i32::MAX,
    ensures
        rescale(row_raw(rows(view_row(a, eye), view_row(a, eye), view_row(a, eye), view_row(a, eye)), 0, point(eye))) == 0,
{
    let one = ONE as int;
    let d = dot_raw(a, eye);
    let q = quot(d, one);
    let r = view_row(a, eye);
    assert(r[3] == -q);
    lemma_quot_parts(d, one);
    let m = rows(r, r, r, r);
    assert(row_raw(m, 0, point(eye)) == d + (-q) * one);
    let e = d - q * one;
    assert(-one < e < one);
    vstd::arithmetic::div_mod::lemma_basic_div(mag(e), one);
}

/// The camera sits at the origin of its own frame: the view matrix takes `eye`
/// to `(0, 0, 0, 1)`. This holds wherever no term of the view matrix saturates
/// when it meets `eye`.
pub proof fn lemma_viewer_fixes_eye(eye: Vec3, at: Vec3, up: Vec3)
    requires
        camera_defined(eye, at, up),
        view_fits(eye, at, up),
    ensures
        apply_of(view_of(eye, at, up), point(eye)) == [0i32, 0, 0, ONE],
{
    let m = view_of(eye, at, up);
    let p = point(eye);
    let one = ONE as int;
    let ru = view_row(right_axis(eye, at, up), eye);
    let rv = view_row(up_axis(eye, at, up), eye);
    let rn = view_row(forward_axis(eye, at), eye);
    lemma_view_row_at_eye(right_axis(eye, at, up), eye);
    lemma_view_row_at_eye(up_axis(eye, at, up), eye);
    lemma_view_row_at_eye(forward_axis(eye, at), eye);
    assert(row_raw(m, 0, p) == row_raw(rows(ru, ru, ru, ru), 0, p));
    assert(row_raw(m, 1, p) == row_raw(rows(rv, rv, rv, rv), 0, p));
    assert(row_raw(m, 2, p) == row_raw(rows(rn, rn, rn, rn), 0, p));
    assert(m.mat[3][0] == 0 && m.mat[3][1] == 0 && m.mat[3][2] == 0 && m.mat[3][3] == ONE);
    assert(p[3] == ONE);
    assert(row_raw(m, 3, p) == one * one);
    lemma_quot_exact(one, one);
    assert(apply_of(m, p) =~= [0i32, 0, 0, ONE]);
}

/// Whether the raw value `p` (of scale `ONE * ONE`) comes back to scale `ONE`
/// with neither rounding nor saturation.
pub open spec fn exact(p: int) -> bool {
    p % (ONE as int) == 0 && clamp(quot(p, ONE as int)) == quot(p, ONE as int)
}

/// Whether every entry of `a * b` is computed exactly.
pub open spec fn product_exact(a: Mat4x4, b: Mat4x4) -> bool {
    forall|r: int, c: int| 0 <= r < 4 && 0 <= c < 4 ==> exact(#[trigger] mat_raw(a, b, r, c))
}

/// Whether every row of `m` meets `v` exactly.
pub open spec fn apply_exact(m: Mat4x4, v: Vec4) -> bool {
    forall|r: int| 0 <= r < 4 ==> exact(#[trigger] row_raw(m, r, v))
}

/// Whether `w` is a weight that the perspective divide leaves alone.
pub open spec fn plain_weight(w: int) -> bool {
    w == 0 || w == ONE
}

/// The identity matrix leaves every point whose weight is 0 or 1 unchanged.
/// (A point of any other weight is divided by it, as `apply_of` says.)
pub proof fn lemma_identity_apply(v: Vec4)
    requires
        plain_weight(v[3] as int),
    ensures
        apply_of(identity(), v) == v,
{
    let one = ONE as int;
    let id = identity();
    assert(id.mat[0][0] == ONE && id.mat[0][1] == 0 && id.mat[0][2] == 0 && id.mat[0][3] == 0);
    assert(row_raw(identity(), 0, v) == one * v[0]);
    assert(row_raw(identity(), 1, v) == one * v[1]);
    assert(row_raw(identity(), 2, v) == one * v[2]);
    assert(row_raw(identity(), 3, v) == one * v[3]);
    lemma_quot_exact(v[0] as int, one);
    lemma_quot_exact(v[1] as int, one);
    lemma_quot_exact(v[2] as int, one);
    lemma_quot_exact(v[3] as int, one);
    assert(apply_of(identity(), v) =~= v);
}

proof fn lemma_dist_right(s0: int, s1: int, s2: int, s3: int, x: int)
    ensures
        (s0 + s1 + s2 + s3) * x == s0 * x + s1 * x + s2 * x + s3 * x,
{
    assert((s0 + s1 + s2 + s3) * x == s0 * x + s1 * x + s2 * x + s3 * x) by (nonlinear_arith);
}

proof fn lemma_dist_left(x: int, t0: int, t1: int, t2: int, t3: int)
    ensures
        x * (t0 + t1 + t2 + t3) == x * t0 + x * t1 + x * t2 + x * t3,
{
    assert(x * (t0 + t1 + t2 + t3) == x * t0 + x * t1 + x * t2 + x * t3) by (nonlinear_arith);
}

proof fn lemma_assoc(x: int, y: int, z: int)
    ensures
        x * (y * z) == (x * y) * z,
{
    assert(x * (y * z) == (x * y) * z) by (nonlinear_arith);
}

/// Entry `(k, c)` of `a * b` taken against `v`, summed over `c`, is row `k` of
/// `a` taken against the column sums of `b` with `v`.
proof fn lemma_sum_swap(a: Mat4x4, b: Mat4x4, v: Vec4, k: int)
    requires
        0 <= k < 4,
    ensures
        mat_raw(a, b, k, 0) * v[0] + mat_raw(a, b, k, 1) * v[1] + mat_raw(a, b, k, 2) * v[2]
            + mat_raw(a, b, k, 3) * v[3] == a.mat[k][0] * row_raw(b, 0, v) + a.mat[k][1] * row_raw(
            b, 1, v) + a.mat[k][2] * row_raw(b, 2, v) + a.mat[k][3] * row_raw(b, 3, v),
{
    let m = a.mat;
    let n = b.mat;
    lemma_dist_right(m[k][0] * n[0][0], m[k][1] * n[1][0], m[k][2] * n[2][0], m[k][3] * n[3][0], v[0] as int);
    lemma_dist_right(m[k][0] * n[0][1], m[k][1] * n[1][1], m[k][2] * n[2][1], m[k][3] * n[3][1], v[1] as int);
    lemma_dist_right(m[k][0] * n[0][2], m[k][1] * n[1][2], m[k][2] * n[2][2], m[k][3] * n[3][2], v[2] as int);
    lemma_dist_right(m[k][0] * n[0][3], m[k][1] * n[1][3], m[k][2] * n[2][3], m[k][3] * n[3][3], v[3] as int);
    lemma_dist_left(m[k][0] as int, n[0][0] * v[0], n[0][1] * v[1], n[0][2] * v[2], n[0][3] * v[3]);
    lemma_assoc(m[k][0] as int, n[0][0] as int, v[0] as int);
    lemma_assoc(m[k][0] as int, n[0][1] as int, v[1] as int);
    lemma_assoc(m[k][0] as int, n[0][2] as int, v[2] as int);
    lemma_assoc(m[k][0] as int, n[0][3] as int, v[3] as int);
    lemma_dist_left(m[k][1] as int, n[1][0] * v[0], n[1][1] * v[1], n[1][2] * v[2], n[1][3] * v[3]);
    lemma_assoc(m[k][1] as int, n[1][0] as int, v[0] as int);
    lemma_assoc(m[k][1] as int, n[1][1] as int, v[1] as int);
    lemma_assoc(m[k][1] as int, n[1][2] as int, v[2] as int);
    lemma_assoc(m[k][1] as int, n[1][3] as int, v[3] as int);
    lemma_dist_left(m[k][2] as int, n[2][0] * v[0], n[2][1] * v[1], n[2][2] * v[2], n[2][3] * v[3]);
    lemma_assoc(m[k][2] as int, n[2][0] as int, v[0] as int);
    lemma_assoc(m[k][2] as int, n[2][1] as int, v[1] as int);
    lemma_assoc(m[k][2] as int, n[2][2] as int, v[2] as int);
    lemma_assoc(m[k][2] as int, n[2][3] as int, v[3] as int);
    lemma_dist_left(m[k][3] as int, n[3][0] * v[0], n[3][1] * v[1], n[3][2] * v[2], n[3][3] * v[3]);
    lemma_assoc(m[k][3] as int, n[3][0] as int, v[0] as int);
    lemma_assoc(m[k][3] as int, n[3][1] as int, v[1] as int);
    lemma_assoc(m[k][3] as int, n[3][2] as int, v[2] as int);
    lemma_assoc(m[k][3] as int, n[3][3] as int, v[3] as int);
    assert(mat_raw(a, b, k, 0) * v[0] == (m[k][0] * n[0][0]) * v[0] + (m[k][1] * n[1][0]) * v[0] + (m[k][2] * n[2][0]) * v[0] + (m[k][3] * n[3][0]) * v[0]);
    assert(mat_raw(a, b, k, 1) * v[1] == (m[k][0] * n[0][1]) * v[1] + (m[k][1] * n[1][1]) * v[1] + (m[k][2] * n[2][1]) * v[1] + (m[k][3] * n[3][1]) * v[1]);
    assert(mat_raw(a, b, k, 2) * v[2] == (m[k][0] * n[0][2]) * v[2] + (m[k][1] * n[1][2]) * v[2] + (m[k][2] * n[2][2]) * v[2] + (m[k][3] * n[3][2]) * v[2]);
    assert(mat_raw(a, b, k, 3) * v[3] == (m[k][0] * n[0][3]) * v[3] + (m[k][1] * n[1][3]) * v[3] + (m[k][2] * n[2][3]) * v[3] + (m[k][3] * n[3][3]) * v[3]);
    assert(m[k][0] * row_raw(b, 0, v) == (m[k][0] * n[0][0]) * v[0] + (m[k][0] * n[0][1]) * v[1] + (m[k][0] * n[0][2]) * v[2] + (m[k][0] * n[0][3]) * v[3]);
    assert(m[k][1] * row_raw(b, 1, v) == (m[k][1] * n[1][0]) * v[0] + (m[k][1] * n[1][1]) * v[1] + (m[k][1] * n[1][2]) * v[2] + (m[k][1] * n[1][3]) * v[3]);
    assert(m[k][2] * row_raw(b, 2, v) == (m[k][2] * n[2][0]) * v[0] + (m[k][2] * n[2][1]) * v[1] + (m[k][2] * n[2][2]) * v[2] + (m[k][2] * n[2][3]) * v[3]);
    assert(m[k][3] * row_raw(b, 3, v) == (m[k][3] * n[3][0]) * v[0] + (m[k][3] * n[3][1]) * v[1] + (m[k][3] * n[3][2]) * v[2] + (m[k][3] * n[3][3]) * v[3]);
}

proof fn lemma_scale_term(one: int, p: int, v: int)
    ensures
        one * (p * v) == (one * p) * v,
        one * (v * p) == v * (one * p),
{
    assert(one * (p * v) == (one * p) * v) by (nonlinear_arith);
    assert(one * (v * p) == v * (one * p)) by (nonlinear_arith);
}

proof fn lemma_scaled_sum(one: int, x0: int, x1: int, x2: int, x3: int, v0: int, v1: int, v2: int, v3: int)
    ensures
        one * (x0 * v0 + x1 * v1 + x2 * v2 + x3 * v3) == (one * x0) * v0 + (one * x1) * v1 + (one
            * x2) * v2 + (one * x3) * v3,
        one * (v0 * x0 + v1 * x1 + v2 * x2 + v3 * x3) == v0 * (one * x0) + v1 * (one * x1) + v2 * (
        one * x2) + v3 * (one * x3),
{
    lemma_dist_left(one, x0 * v0, x1 * v1, x2 * v2, x3 * v3);
    lemma_dist_left(one, v0 * x0, v1 * x1, v2 * x2, v3 * x3);
    lemma_scale_term(one, x0, v0);
    lemma_scale_term(one, x1, v1);
    lemma_scale_term(one, x2, v2);
    lemma_scale_term(one, x3, v3);
}

proof fn lemma_exact_parts(p: int)
    requires
        exact(p),
    ensures
        (ONE as int) * rescale(p) == p,
{
    let one = ONE as int;
    vstd::arithmetic::div_mod::lemma_fundamental_div_mod(p, one);
    lemma_quot_exact(p / one, one);
}

proof fn lemma_row_assoc(a: Mat4x4, b: Mat4x4, v: Vec4, k: int)
    requires
        0 <= k < 4,
        product_exact(a, b),
        apply_exact(b, v),
        plain_weight(apply_of(b, v)[3] as int),
    ensures
        row_raw(product_of(a, b), k, v) == row_raw(a, k, apply_of(b, v)),
{
    let one = ONE as int;
    let ab = product_of(a, b);
    let bv = apply_of(b, v);
    assert forall|c: int| 0 <= c < 4 implies one * ab.mat[k][c] == mat_raw(a, b, k, c) by {
        assert(exact(mat_raw(a, b, k, c)));
        lemma_exact_parts(mat_raw(a, b, k, c));
    }
    assert forall|j: int| 0 <= j < 4 implies one * bv[j] == row_raw(b, j, v) by {
        assert(exact(row_raw(b, j, v)));
        lemma_exact_parts(row_raw(b, j, v));
    }
    lemma_sum_swap(a, b, v, k);
    let m = a.mat;
    lemma_scaled_sum(
        one,
        ab.mat[k][0] as int, ab.mat[k][1] as int, ab.mat[k][2] as int, ab.mat[k][3] as int,
        v[0] as int, v[1] as int, v[2] as int, v[3] as int,
    );
    lemma_scaled_sum(
        one,
        bv[0] as int, bv[1] as int, bv[2] as int, bv[3] as int,
        m[k][0] as int, m[k][1] as int, m[k][2] as int, m[k][3] as int,
    );
    assert(one * row_raw(ab, k, v) == one * row_raw(a, k, bv));
}

/// Multiplying a point by `a * b` is multiplying it by `b`, then by `a`. This holds
/// where both products are computed without rounding and `b * v` has a weight of
/// 0 or 1, so that no perspective divide comes between the two steps.
pub proof fn lemma_apply_assoc(a: Mat4x4, b: Mat4x4, v: Vec4)
    requires
        product_exact(a, b),
        apply_exact(b, v),
        plain_weight(apply_of(b, v)[3] as int),
    ensures
        apply_of(product_of(a, b), v) == apply_of(a, apply_of(b, v)),
{
    lemma_row_assoc(a, b, v, 0);
    lemma_row_assoc(a, b, v, 1);
    lemma_row_assoc(a, b, v, 2);
    lemma_row_assoc(a, b, v, 3);
    assert(apply_of(product_of(a, b), v) =~= apply_of(a, apply_of(b, v)));
}

} // verus!
