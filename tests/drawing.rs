use wireframe::figure::{Edge, Face, Obj3D, Point2, Rgb, Vertex};
use wireframe::fixed::ONE;
use wireframe::scene::{Mesh, Screen};

fn flat_triangle() -> Mesh {
    let mut obj = Obj3D::new();
    obj.push_vertexes(vec![
        Vertex::from_vec([0, 0, 0]),
        Vertex::from_vec([ONE, 0, 0]),
        Vertex::from_vec([0, ONE, 0]),
    ]);
    obj.push_edge(Edge::new_color(0, 1, Rgb { r: 1, g: 2, b: 3 }).text("X"));
    obj.push_edge(Edge::new(1, 2));
    obj.push_faces(vec![Face::new(vec![0, 1, 2])]);
    let mut mesh = Mesh::new();
    *mesh.push_object("tri") = obj;
    mesh
}

fn screen() -> Screen {
    flat_triangle().to_screen(100 * ONE, 50 * ONE)
}

#[test]
fn lines_follow_edges_with_labels_above_their_ends() {
    let lines = screen().lines();
    assert_eq!(lines.len(), 2);
    assert_eq!(lines[0].from, Point2 { x: 0, y: 0 });
    assert_eq!(lines[0].to, Point2 { x: 100 * ONE, y: 0 });
    assert_eq!(lines[0].color, Rgb { r: 1, g: 2, b: 3 });
    assert_eq!(lines[0].label.as_deref(), Some("X"));
    assert_eq!(lines[0].label_at, Point2 { x: 100 * ONE, y: -10 * ONE });
    assert_eq!(lines[1].to, Point2 { x: 0, y: -50 * ONE });
    assert!(lines[1].label.is_none());
}

#[test]
fn outlines_close_each_face() {
    let outlines = screen().outlines();
    assert_eq!(
        outlines,
        vec![vec![
            Point2 { x: 0, y: 0 },
            Point2 { x: 100 * ONE, y: 0 },
            Point2 { x: 0, y: -50 * ONE },
            Point2 { x: 0, y: 0 },
        ]]
    );
}

#[test]
fn push_faces_adds_no_vertices() {
    let mesh = flat_triangle();
    let obj = mesh.get("tri").unwrap();
    assert_eq!(obj.vertexes.len(), 3);
    assert_eq!(obj.faces[0].center_vertex, -1);
}

#[test]
fn mesh_norm_z_scales_every_vertex() {
    let mut obj = Obj3D::new();
    obj.push_vertex(Vertex::from_vec4([ONE, ONE, 2 * ONE, 2 * ONE]));
    obj.push_vertex(Vertex::from_vec4([3, 4, 5, 0]));
    let mut mesh = Mesh::new();
    *mesh.push_object("o") = obj;
    let n = mesh.norm_z(10 * ONE, 20 * ONE);
    assert_eq!(
        n.objects[0].1.vertexes,
        vec![
            Vertex { x: 5 * ONE, y: -10 * ONE, z: ONE, w: ONE / 2 },
            Vertex { x: 3, y: 4, z: 5, w: 0 },
        ]
    );
}
