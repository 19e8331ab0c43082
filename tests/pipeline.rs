use wireframe::figure::{Edge, Face, Obj3D, Point2, Rgb, Vertex};
use wireframe::fixed::ONE;
use wireframe::matrix::{rotate_z_mat, translation_mat, Mat4x4};
use wireframe::scene::{transform, Mesh};

const HALF: i32 = ONE / 2;

fn point(x: i32, y: i32, z: i32) -> Vertex {
    Vertex::from_vec([x, y, z])
}

/// A cube with edges along a = (2, -1, 2), b = (-1, 2, 2), c = (-2, -2, 1), which are
/// orthogonal, of length 3, and all point partly toward +z; centered at the origin.
fn tilted_cube() -> Obj3D {
    let a = [2, -1, 2];
    let b = [-1, 2, 2];
    let c = [-2, -2, 1];
    let mut obj = Obj3D::new();
    for k in 0..2 {
        for j in 0..2 {
            for i in 0..2 {
                let mut p = [0; 3];
                for d in 0..3 {
                    p[d] = (i * a[d] + j * b[d] + k * c[d]) * ONE - (a[d] + b[d] + c[d]) * HALF;
                }
                obj.push_vertex(point(p[0], p[1], p[2]));
            }
        }
    }
    // vertex (i, j, k) has index i + 2 j + 4 k
    let faces = [
        vec![1, 3, 7, 5],
        vec![0, 4, 6, 2],
        vec![2, 6, 7, 3],
        vec![0, 1, 5, 4],
        vec![4, 5, 7, 6],
        vec![0, 2, 3, 1],
    ];
    for f in faces {
        obj.push_face(Face::new(f));
    }
    obj
}

#[test]
fn face_new_leaves_auxiliary_indices_unset() {
    let f = Face::new(vec![0, 1, 2]);
    assert_eq!(f.vertexes, vec![0, 1, 2]);
    assert_eq!(f.normal_vertex, -1);
    assert_eq!(f.center_vertex, -1);
}

#[test]
fn face_normal_and_centroid() {
    let verts = vec![point(0, 0, 0), point(2 * ONE, 0, 0), point(2 * ONE, 2 * ONE, 0), point(0, 2 * ONE, 0)];
    let (n, c) = Face::new(vec![0, 1, 2, 3]).normal(&verts);
    assert_eq!(c, [ONE, ONE, 0]);
    assert_eq!(n, [ONE, ONE, 4 * ONE]);
}

#[test]
fn push_face_appends_centroid_and_normal_vertices() {
    let mut obj = Obj3D::new();
    obj.push_vertexes(vec![point(0, 0, 0), point(3 * ONE, 0, 0), point(0, 3 * ONE, 0)]);
    let (center, normal) = obj.push_face(Face::new(vec![0, 1, 2]));
    assert_eq!((center, normal), (3, 4));
    assert_eq!(obj.vertexes.len(), 5);
    assert_eq!(obj.vertexes[3], point(ONE, ONE, 0));
    assert_eq!(obj.vertexes[4], point(ONE, ONE, 9 * ONE));
    assert_eq!(obj.faces[0].center_vertex, 3);
    assert_eq!(obj.faces[0].normal_vertex, 4);
    let (center, normal) = obj.push_face(Face::new(vec![2, 1, 0]));
    assert_eq!((center, normal), (5, 6));
    assert_eq!(obj.vertexes.len(), 7);
}

#[test]
fn edges_carry_color_and_label() {
    let red = Rgb { r: 255, g: 0, b: 0 };
    let e = Edge::new_color(0, 1, red).text("X");
    assert_eq!((e.from, e.to, e.color), (0, 1, red));
    assert_eq!(e.text.as_deref(), Some("X"));
    let plain = Edge::new(2, 3);
    assert_eq!(plain.color, Rgb { r: 0, g: 0, b: 0 });
    assert!(plain.text.is_none());
    let d = Edge::default();
    assert_eq!((d.from, d.to), (0, 0));
}

#[test]
fn back_faces_of_cube_are_culled() {
    let mut mesh = Mesh::new();
    *mesh.push_object("cube") = tilted_cube();
    mesh.set_camera([0, 0, 200 * ONE]);
    let cube = mesh.get("cube").unwrap();
    assert_eq!(cube.vertexes.len(), 8 + 12 + 1);
    assert_eq!(cube.vertexes[20], point(0, 0, 200 * ONE));
    let kept: Vec<Vec<usize>> = cube.faces.iter().map(|f| f.vertexes.clone()).collect();
    assert_eq!(kept, vec![vec![1, 3, 7, 5], vec![2, 6, 7, 3], vec![4, 5, 7, 6]]);
}

#[test]
fn axis_aligned_cube_shows_one_face_to_eye_on_axis() {
    let mut obj = Obj3D::new();
    for k in [-1, 1] {
        for j in [-1, 1] {
            for i in [-1, 1] {
                obj.push_vertex(point(i * ONE, j * ONE, k * ONE));
            }
        }
    }
    obj.push_face(Face::new(vec![4, 5, 7, 6]));
    obj.push_face(Face::new(vec![0, 2, 3, 1]));
    obj.push_face(Face::new(vec![1, 3, 7, 5]));
    let mut mesh = Mesh::new();
    *mesh.push_object("box") = obj;
    mesh.set_camera([0, 0, 100 * ONE]);
    let faces = &mesh.get("box").unwrap().faces;
    assert_eq!(faces.len(), 1);
    assert_eq!(faces[0].vertexes, vec![4, 5, 7, 6]);
}

#[test]
fn screen_projection_divides_and_scales() {
    let v = Vertex::from_vec4([ONE, ONE, 0, 2 * ONE]);
    assert_eq!(v.screen(800 * ONE, 600 * ONE), Point2 { x: 400 * ONE, y: -300 * ONE });
    let mut obj = Obj3D::new();
    obj.push_vertex(v);
    obj.push_edge(Edge::new(0, 0));
    let mut mesh = Mesh::new();
    *mesh.push_object("p") = obj;
    let screen = mesh.to_screen(800 * ONE, 600 * ONE);
    assert_eq!(screen.objects.len(), 1);
    assert_eq!(screen.objects[0].0, "p");
    assert_eq!(screen.objects[0].1.points, vec![Point2 { x: 400 * ONE, y: -300 * ONE }]);
    assert_eq!(screen.objects[0].1.edges.len(), 1);
}

#[test]
fn norm_z_flips_y_like_screen() {
    let v = Vertex::from_vec4([0, ONE, 0, ONE]);
    assert_eq!(v.norm_z(ONE, ONE).y, -ONE);
    assert_eq!(v.screen(ONE, ONE).y, -ONE);
}

#[test]
fn point_at_infinity_passes_through() {
    let v = Vertex::from_vec4([5 * ONE, -7 * ONE, 3, 0]);
    assert_eq!(v.screen(800 * ONE, 600 * ONE), Point2 { x: 5 * ONE, y: -7 * ONE });
    assert_eq!(v.norm_z(800 * ONE, 600 * ONE), v);
}

#[test]
fn norm_z_divides_by_weight() {
    let v = Vertex::from_vec4([ONE, -ONE, 3 * ONE, 2 * ONE]);
    assert_eq!(
        v.norm_z(800 * ONE, 600 * ONE),
        Vertex { x: 400 * ONE, y: 300 * ONE, z: 3 * HALF, w: HALF }
    );
}

#[test]
fn transform_then_inverse_restores_vertices() {
    let mut obj = Obj3D::new();
    obj.push_vertexes(vec![point(ONE, 2 * ONE, 3 * ONE), point(-5, 7, 11), point(0, 0, 0)]);
    obj.push_edge(Edge::new(0, 1));
    let mut mesh = Mesh::new();
    *mesh.push_object("o") = obj;
    let there = rotate_z_mat(0, ONE).mul_mat(&translation_mat(3 * ONE, -ONE, HALF));
    let back = translation_mat(-3 * ONE, ONE, -HALF).mul_mat(&rotate_z_mat(0, -ONE));
    let moved = transform(&there, &mesh);
    assert_eq!(moved.objects[0].1.vertexes[0], point(-ONE, 4 * ONE, 3 * ONE + HALF));
    let restored = transform(&back, &moved);
    assert_eq!(restored.objects[0].1.vertexes, mesh.objects[0].1.vertexes);
    assert_eq!(restored.objects[0].1.edges.len(), 1);
}

#[test]
fn transform_keeps_names_edges_and_faces() {
    let mut obj = Obj3D::new();
    obj.push_vertexes(vec![point(0, 0, 0), point(ONE, 0, 0), point(0, ONE, 0)]);
    obj.push_face(Face::new(vec![0, 1, 2]));
    obj.push_edges(vec![Edge::new(0, 1), Edge::new(1, 2)]);
    let mut mesh = Mesh::new();
    *mesh.push_object("a") = obj.clone();
    *mesh.push_object("b") = Obj3D::new();
    let moved = transform(&Mat4x4::unit(), &mesh);
    assert_eq!(moved.objects[0].0, "a");
    assert_eq!(moved.objects[1].0, "b");
    assert_eq!(moved.objects[0].1.vertexes, obj.vertexes);
    assert_eq!(moved.objects[0].1.faces[0].center_vertex, 3);
    assert_eq!(moved.objects[0].1.edges.len(), 2);
}

#[test]
fn lookup_of_missing_object_is_none() {
    let mut mesh = Mesh::new();
    assert!(mesh.get("nothing").is_none());
    *mesh.push_object("axis") = Obj3D::new();
    assert!(mesh.get("axis").is_some());
    assert!(mesh.get("cube").is_none());
}

#[test]
fn pushing_a_name_again_replaces_the_object() {
    let mut mesh = Mesh::new();
    *mesh.push_object("a") = Obj3D::new();
    *mesh.push_object("b") = Obj3D::new();
    let mut obj = Obj3D::new();
    obj.push_vertex(point(ONE, 0, 0));
    *mesh.push_object("a") = obj;
    assert_eq!(mesh.objects.len(), 2);
    assert_eq!(mesh.objects[0].0, "a");
    assert_eq!(mesh.get("a").unwrap().vertexes.len(), 1);
}

#[test]
fn vertex_conversions() {
    let v = Vertex::from([1, 2, 3, 4]);
    assert_eq!(v, Vertex { x: 1, y: 2, z: 3, w: 4 });
    assert_eq!(v.to_vec(), [1, 2, 3, 4]);
    assert_eq!(v.to_vec_3(), [1, 2, 3]);
    assert_eq!(Vertex::from_vec([1, 2, 3]).w, ONE);
}

#[test]
fn centroid_rounds_toward_zero() {
    let verts = vec![point(-1, 0, 0), point(0, 0, 0), point(0, 1, 0)];
    let (_, c) = Face::new(vec![0, 1, 2]).normal(&verts);
    assert_eq!(c, [0, 0, 0]);
    let verts = vec![point(-5, 0, 0), point(0, 0, 0), point(0, 0, 0)];
    let (_, c) = Face::new(vec![0, 1, 2]).normal(&verts);
    assert_eq!(c, [-1, 0, 0]);
}

#[test]
fn empty_scene_stays_empty() {
    let mesh = Mesh::new();
    assert!(transform(&Mat4x4::unit(), &mesh).objects.is_empty());
    assert!(mesh.to_screen(ONE, ONE).objects.is_empty());
    assert!(mesh.to_screen(ONE, ONE).lines().is_empty());
}

#[test]
fn culling_appends_the_eye_to_every_object() {
    let mut mesh = Mesh::new();
    *mesh.push_object("a") = Obj3D::new();
    *mesh.push_object("b") = tilted_cube();
    mesh.set_camera([ONE, 2 * ONE, 3 * ONE]);
    assert_eq!(mesh.get("a").unwrap().vertexes, vec![point(ONE, 2 * ONE, 3 * ONE)]);
    assert_eq!(mesh.get("b").unwrap().vertexes.len(), 21);
}

#[test]
fn projection_saturates_far_points() {
    let v = Vertex::from_vec4([30000 * ONE, 0, 0, ONE]);
    assert_eq!(v.screen(800 * ONE, 600 * ONE).x, i32::MAX);
}

#[test]
fn objects_are_filled_through_the_handle() {
    let mut mesh = Mesh::new();
    let axis = mesh.push_object("axis");
    axis.push_vertex(point(0, 0, -ONE));
    axis.push_vertex(point(ONE / 10, 0, -ONE));
    axis.push_edge(Edge::new_color(0, 1, Rgb { r: 255, g: 0, b: 0 }).text("X"));
    let cube = mesh.push_object("cube");
    cube.push_vertex(point(0, 0, 0));
    assert_eq!(mesh.get("axis").unwrap().vertexes.len(), 2);
    assert_eq!(mesh.get("axis").unwrap().edges[0].text.as_deref(), Some("X"));
    assert_eq!(mesh.get("cube").unwrap().vertexes.len(), 1);
    let again = mesh.push_object("axis");
    assert!(again.vertexes.is_empty());
    assert_eq!(mesh.objects.len(), 2);
}
