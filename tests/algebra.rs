use wireframe::fixed::{from_int, fx_div, fx_mul, isqrt, ONE};
use wireframe::matrix::{
    perspective_projection, rotate_y_around_p_vec3, rotate_y_mat, rotate_y_vec3, scale_mat,
    translation_mat, viewer, Mat4x4,
};
use wireframe::vector::{add, add_scalar, comp_dot, cross, diff, dot, inv, neg, unit};

const HALF: i32 = ONE / 2;

fn whole(v: [i32; 3]) -> [i32; 3] {
    [v[0] * ONE, v[1] * ONE, v[2] * ONE]
}

#[test]
fn fixed_point_arithmetic() {
    assert_eq!(from_int(3), 3 * ONE);
    assert_eq!(from_int(-2), -2 * ONE);
    assert_eq!(fx_mul(3 * ONE, HALF), 3 * HALF);
    assert_eq!(fx_mul(-1, 1), 0);
    assert_eq!(fx_mul(-3 * ONE, HALF), -3 * HALF);
    assert_eq!(fx_div(ONE, 4 * ONE), ONE / 4);
    assert_eq!(fx_div(-ONE, 3 * ONE), -21845);
    assert_eq!(fx_div(ONE, -3 * ONE), -21845);
    assert_eq!(fx_div(ONE, 3 * ONE), 21845);
    assert_eq!(fx_mul(i32::MAX, i32::MAX), i32::MAX);
    assert_eq!(from_int(40000), i32::MAX);
    assert_eq!(isqrt(24), 4);
    assert_eq!(isqrt(25), 5);
}

#[test]
fn vector_basics() {
    let a = whole([1, 2, 3]);
    let b = whole([4, -5, 6]);
    assert_eq!(add(a, b), whole([5, -3, 9]));
    assert_eq!(diff(a, b), whole([-3, 7, -3]));
    assert_eq!(neg(a), whole([-1, -2, -3]));
    assert_eq!(add_scalar(a, ONE), whole([2, 3, 4]));
    assert_eq!(wireframe::vector::mul(a, 2 * ONE), whole([2, 4, 6]));
    assert_eq!(comp_dot(a, b), whole([4, -10, 18]));
    assert_eq!(inv(whole([2, 4, -1])), [HALF, ONE / 4, -ONE]);
    assert_eq!(dot(a, b), 12 * ONE);
}

#[test]
fn cross_follows_right_hand_rule() {
    let x = whole([1, 0, 0]);
    let y = whole([0, 1, 0]);
    assert_eq!(cross(x, y), whole([0, 0, 1]));
    assert_eq!(cross(y, x), whole([0, 0, -1]));
    assert_eq!(cross(whole([1, 2, 3]), whole([4, 5, 6])), whole([-3, 6, -3]));
}

#[test]
fn cross_is_orthogonal_to_its_factors() {
    let a = [70000, -123457, 99999];
    let b = [-31415, 27182, 16180];
    let c = cross(a, b);
    let bound_a = (70000 + 123457 + 99999) / ONE;
    let bound_b = (31415 + 27182 + 16180) / ONE;
    assert!(dot(c, a).abs() <= bound_a);
    assert!(dot(c, b).abs() <= bound_b);
    let exact = cross(whole([2, -1, 2]), whole([-1, 2, 2]));
    assert_eq!(dot(exact, whole([2, -1, 2])), 0);
    assert_eq!(dot(exact, whole([-1, 2, 2])), 0);
}

#[test]
fn cross_is_anti_symmetric() {
    assert_eq!(cross([0, 0, 1], [0, 1, 0]), [0, 0, 0]);
    assert_eq!(cross([0, 0, 1], [0, 1, 0]), neg(cross([0, 1, 0], [0, 0, 1])));
    let a = [70000, -123457, 99999];
    let b = [-31415, 27182, 16180];
    assert_eq!(cross(a, b), neg(cross(b, a)));
    assert_eq!(cross(whole([1, 2, 3]), whole([4, 5, 6])), neg(cross(whole([4, 5, 6]), whole([1, 2, 3]))));
}

#[test]
fn unit_of_short_vectors() {
    assert_eq!(unit([1, 1, 0]), [46341, 46341, 0]);
    assert_eq!(unit([0, -3, 0]), [0, -ONE, 0]);
    assert_eq!(unit([2, 0, 0]), [ONE, 0, 0]);
}

#[test]
fn unit_divides_by_length() {
    assert_eq!(unit(whole([3, 4, 0])), [39321, 52428, 0]);
    assert_eq!(unit(whole([0, 0, -7])), [0, 0, -ONE]);
    assert_eq!(unit([1, 0, 0]), [ONE, 0, 0]);
}

#[test]
fn unit_has_unit_length() {
    let long = [[123456, -654321, 111111], [ONE, ONE, ONE], [5 * ONE, 0, -12 * ONE], [7, 9000, -300000]];
    let short = [[1, 1, 0], [1, -2, 3], [0, 0, -1], [3, 4, 12], [-5, 7, 1], [i32::MAX, i32::MIN, 1]];
    for v in long.iter().chain(short.iter()) {
        let u = unit(*v);
        let sq: i64 = u.iter().map(|c| (*c as i64) * (*c as i64)).sum();
        let one = (ONE as i64) * (ONE as i64);
        assert!((sq - one).abs() <= 6 * ONE as i64, "{:?} -> {:?}", v, u);
    }
}

#[test]
fn identity_leaves_points_alone() {
    let id = Mat4x4::unit();
    for v in [[ONE, -2 * ONE, 3, ONE], [5, 6, 7, 0], [i32::MAX, i32::MIN, 0, ONE]] {
        assert_eq!(id.mul_vec(v), v);
    }
}

#[test]
fn weight_other_than_one_is_divided_out() {
    let id = Mat4x4::unit();
    assert_eq!(id.mul_vec([2 * ONE, 4 * ONE, -6 * ONE, 2 * ONE]), [ONE, 2 * ONE, -3 * ONE, 2 * ONE]);
}

#[test]
fn matrix_product_is_associative_on_points() {
    let a = translation_mat(ONE, -2 * ONE, 3 * ONE);
    let b = scale_mat(2 * ONE, 3 * ONE, -ONE);
    let v = [ONE, 2 * ONE, 3 * ONE, ONE];
    let left = a.mul_mat(&b).mul_vec(v);
    let right = a.mul_vec(b.mul_vec(v));
    assert_eq!(left, right);
    assert_eq!(left, [3 * ONE, 4 * ONE, 0, ONE]);
}

#[test]
fn transpose_swaps_rows_and_columns() {
    let t = translation_mat(ONE, 2 * ONE, 3 * ONE).transpose();
    assert_eq!(t.mat[3], [ONE, 2 * ONE, 3 * ONE, ONE]);
    assert_eq!(t.mat[0], [ONE, 0, 0, 0]);
}

#[test]
fn quarter_turn_about_y() {
    let m = rotate_y_mat(0, ONE);
    assert_eq!(m.mul_vec([ONE, 0, 0, ONE]), [0, 0, -ONE, ONE]);
    assert_eq!(rotate_y_vec3(0, ONE, whole([0, 0, 1])), whole([1, 0, 0]));
    assert_eq!(rotate_y_around_p_vec3(0, ONE, whole([2, 0, 0]), whole([1, 0, 0])), whole([1, 0, -1]));
    assert_eq!(m.mul_dir(whole([1, 5, 0])), whole([0, 5, -1]));
}

#[test]
fn viewer_puts_eye_at_origin() {
    let eye = [ONE / 3, 78643, 4 * ONE];
    let m = viewer(eye, [0, 0, 0], whole([0, 1, 0]));
    assert_eq!(m.mul_vec([eye[0], eye[1], eye[2], ONE]), [0, 0, 0, ONE]);
    let m2 = viewer(whole([0, 0, 5]), whole([0, 0, 0]), whole([0, 1, 0]));
    assert_eq!(m2.mat, [[ONE, 0, 0, 0], [0, ONE, 0, 0], [0, 0, ONE, -5 * ONE], [0, 0, 0, ONE]]);
}

#[test]
fn view_frame_is_rigid_for_a_short_up_vector() {
    let m = viewer(whole([0, 0, 1]), [0, 0, 0], [1, 1, 0]);
    assert_eq!(m.mat[0], [46341, -46341, 0, 0]);
    assert_eq!(m.mat[2], [0, 0, ONE, -ONE]);
    let p = m.mul_vec([ONE, 0, 0, ONE]);
    let q = m.mul_vec([0, 0, 0, ONE]);
    let d: i64 = (0..3).map(|i| ((p[i] - q[i]) as i64).pow(2)).sum();
    let one = (ONE as i64) * (ONE as i64);
    assert!((d - one).abs() <= 6 * ONE as i64, "{:?} {:?}", p, q);
    for r in 0..3 {
        let len: i64 = (0..3).map(|c| (m.mat[r][c] as i64).pow(2)).sum();
        assert!((len - one).abs() <= 6 * ONE as i64, "row {}: {:?}", r, m.mat[r]);
    }
}

#[test]
fn perspective_projection_entries() {
    let m = perspective_projection(ONE, 2 * ONE, 10 * ONE, ONE);
    assert_eq!(m.mat[0], [HALF, 0, 0, 0]);
    assert_eq!(m.mat[1], [0, ONE, 0, 0]);
    assert_eq!(m.mat[2][2], fx_div(-11 * ONE, 9 * ONE));
    assert_eq!(m.mat[2][3], fx_div(-20 * ONE, 9 * ONE));
    assert_eq!(m.mat[3], [0, 0, -ONE, 0]);
    let p = m.mul_vec([0, 0, -2 * ONE, ONE]);
    assert_eq!(p[3], 2 * ONE);
}
