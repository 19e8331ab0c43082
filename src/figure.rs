//! The geometry model: vertices, edges and faces grouped into objects, and the
//! operations on single vertices and faces.

use vstd::prelude::*;
use crate::fixed::{clamp, div_spec, div_trunc, quot, fx_div, fx_mul, mul_spec, saturate, Fixed, ONE};
use crate::matrix::Vec4;
use crate::vector::{cross, cross_of, diff, diff_of, Vec3};

verus! {

/// A homogeneous point `(x, y, z, w)`; `w` is 1 for a point not yet projected.
#[derive(Clone, Copy, Debug, PartialEq, Eq, Structural)]
pub struct Vertex {
    pub x: Fixed,
    pub y: Fixed,
    pub z: Fixed,
    pub w: Fixed,
}

/// A point on the screen.
#[derive(Clone, Copy, Debug, PartialEq, Eq, Structural)]
pub struct Point2 {
    pub x: Fixed,
    pub y: Fixed,
}

/// A color as red, green and blue intensities.
#[derive(Clone, Copy, Debug, PartialEq, Eq, Structural)]
pub struct Rgb {
    pub r: u8,
    pub g: u8,
    pub b: u8,
}

/// A line between two vertices of an object, given by their indices, with a
/// color and an optional label drawn at its `to` end.
#[derive(Clone, Debug)]
pub struct Edge {
    pub from: usize,
    pub to: usize,
    pub color: Rgb,
    pub text: Option<String>,
}

/// A polygon given by the indices of its vertices, in order, and the indices of
/// the centroid and normal vertices that `Obj3D::push_face` appends for it, or -1
/// while they are unset.
#[derive(Clone, Debug)]
pub struct Face {
    pub vertexes: Vec<usize>,
    pub normal_vertex: i64,
    pub center_vertex: i64,
}

/// What a face is: its vertex indices and its two auxiliary indices.
pub ghost struct FaceView {
    pub vertexes: Seq<usize>,
    pub normal_vertex: int,
    pub center_vertex: int,
}

impl View for Face {
    type V = FaceView;

    open spec fn view(&self) -> FaceView {
        FaceView {
            vertexes: self.vertexes@,
            normal_vertex: self.normal_vertex as int,
            center_vertex: self.center_vertex as int,
        }
    }
}

/// A three-dimensional object: its vertices, and edges and faces that refer to
/// them by index.
#[derive(Clone, Debug)]
pub struct Obj3D {
    pub vertexes: Vec<Vertex>,
    pub edges: Vec<Edge>,
    pub faces: Vec<Face>,
}

/// What an object is: its vertices, edges and faces.
pub ghost struct ObjView {
    pub vertexes: Seq<Vertex>,
    pub edges: Seq<Edge>,
    pub faces: Seq<FaceView>,
}

/// The views of the faces in `faces`.
pub open spec fn faces_view(faces: Seq<Face>) -> Seq<FaceView> {
    faces.map_values(|f: Face| f@)
}

impl View for Obj3D {
    type V = ObjView;

    open spec fn view(&self) -> ObjView {
        ObjView { vertexes: self.vertexes@, edges: self.edges@, faces: faces_view(self.faces@) }
    }
}

/// The object with no vertices, edges or faces.
pub open spec fn empty_obj() -> ObjView {
    ObjView { vertexes: Seq::empty(), edges: Seq::empty(), faces: Seq::empty() }
}

/// The vertex with the coordinates `v`.
pub open spec fn vertex_of(v: Vec4) -> Vertex {
    Vertex { x: v[0], y: v[1], z: v[2], w: v[3] }
}

/// The vertex at the point `v`, with weight 1.
pub open spec fn vertex_at(v: Vec3) -> Vertex {
    Vertex { x: v[0], y: v[1], z: v[2], w: ONE }
}

/// Black.
pub open spec fn black() -> Rgb {
    Rgb { r: 0, g: 0, b: 0 }
}

impl Vertex {
    /// The coordinates `(x, y, z, w)`.
    pub open spec fn vec(self) -> Vec4 {
        [self.x, self.y, self.z, self.w]
    }

    /// The coordinates `(x, y, z)`.
    pub open spec fn vec3(self) -> Vec3 {
        [self.x, self.y, self.z]
    }

    /// The screen point of this vertex in a viewport of `x_size` by `y_size`:
    /// `(x / w * x_size, -y / w * y_size)`, with y flipped so that it grows
    /// downward. A vertex with `w == 0` lies at infinity: it is passed through as
    /// `(x, y)`, unscaled, and nothing is divided by zero.
    pub open spec fn screen_of(self, x_size: Fixed, y_size: Fixed) -> Point2 {
        if self.w == 0 {
            Point2 { x: self.x, y: self.y }
        } else {
            Point2 {
                x: mul_spec(div_spec(self.x as int, self.w as int), x_size as int) as i32,
                y: mul_spec(clamp(-div_spec(self.y as int, self.w as int)), y_size as int) as i32,
            }
        }
    }

    /// The vertex after the perspective divide, scaled to a viewport of `x_size` by
    /// `y_size` like `screen_of`, y flipped: `(x / w * x_size, -y / w * y_size,
    /// z / w, 1 / w)`. A vertex with `w == 0` is returned as it is.
    pub open spec fn norm_z_of(self, x_size: Fixed, y_size: Fixed) -> Vertex {
        if self.w == 0 {
            self
        } else {
            Vertex {
                x: mul_spec(div_spec(self.x as int, self.w as int), x_size as int) as i32,
                y: mul_spec(clamp(-div_spec(self.y as int, self.w as int)), y_size as int) as i32,
                z: div_spec(self.z as int, self.w as int) as i32,
                w: div_spec(ONE as int, self.w as int) as i32,
            }
        }
    }

    /// The vertex with the coordinates `v`.
    pub fn from_vec4(v: Vec4) -> (r: Vertex)
        ensures
            r == vertex_of(v),
    {
        Vertex { x: v[0], y: v[1], z: v[2], w: v[3] }
    }

    /// The vertex at the point `v`, with weight 1.
    pub fn from_vec(v: Vec3) -> (r: Vertex)
        ensures
            r == vertex_at(v),
    {
        Vertex { x: v[0], y: v[1], z: v[2], w: ONE }
    }

    /// The coordinates `(x, y, z, w)`.
    pub fn to_vec(&self) -> (r: Vec4)
        ensures
            r == self.vec(),
    {
        let r = [self.x, self.y, self.z, self.w];
        assert(r =~= self.vec());
        r
    }

    /// The coordinates `(x, y, z)`.
    pub fn to_vec_3(&self) -> (r: Vec3)
        ensures
            r == self.vec3(),
    {
        let r = [self.x, self.y, self.z];
        assert(r =~= self.vec3());
        r
    }

    /// The screen point of this vertex; see `screen_of`.
    pub fn screen(self, x_size: Fixed, y_size: Fixed) -> (p: Point2)
        ensures
            p == self.screen_of(x_size, y_size),
    {
        if self.w == 0 {
            Point2 { x: self.x, y: self.y }
        } else {
            let nx = fx_div(self.x, self.w);
            let ny = fx_div(self.y, self.w);
            Point2 { x: fx_mul(nx, x_size), y: fx_mul(saturate(-(ny as i128)), y_size) }
        }
    }

    /// The vertex after the perspective divide and viewport scaling; see `norm_z_of`.
    pub fn norm_z(self, x_size: Fixed, y_size: Fixed) -> (r: Vertex)
        ensures
            r == self.norm_z_of(x_size, y_size),
    {
        if self.w == 0 {
            self
        } else {
            Vertex {
                x: fx_mul(fx_div(self.x, self.w), x_size),
                y: fx_mul(saturate(-(fx_div(self.y, self.w) as i128)), y_size),
                z: fx_div(self.z, self.w),
                w: fx_div(ONE, self.w),
            }
        }
    }
}

impl From<Vec4> for Vertex {
    /// The vertex with the coordinates `v`.
    fn from(v: Vec4) -> (r: Vertex) {
        Vertex::from_vec4(v)
    }
}

impl vstd::std_specs::convert::FromSpecImpl<Vec4> for Vertex {
    open spec fn obeys_from_spec() -> bool {
        true
    }

    open spec fn from_spec(v: Vec4) -> Vertex {
        vertex_of(v)
    }
}

impl Edge {
    /// A black edge from vertex `from` to vertex `to`, without a label.
    pub fn new(from: usize, to: usize) -> (e: Edge)
        ensures
            e == (Edge { from, to, color: black(), text: None }),
    {
        Edge { from, to, color: Rgb { r: 0, g: 0, b: 0 }, text: None }
    }

    /// An edge of the given color from vertex `from` to vertex `to`, without a label.
    pub fn new_color(from: usize, to: usize, color: Rgb) -> (e: Edge)
        ensures
            e == (Edge { from, to, color, text: None }),
    {
        Edge { from, to, color, text: None }
    }

    /// This edge with the label `text`.
    pub fn text(&self, text: &str) -> (e: Edge)
        ensures
            e.from == self.from,
            e.to == self.to,
            e.color == self.color,
            e.text matches Some(t) && t@ == text@,
    {
        Edge { from: self.from, to: self.to, color: self.color, text: Some(text.to_string()) }
    }

    /// An equal copy of this edge.
    pub fn duplicate(&self) -> (e: Edge)
        ensures
            e == *self,
    {
        let text = match &self.text {
            Some(t) => Some(t.clone()),
            None => None,
        };
        Edge { from: self.from, to: self.to, color: self.color, text }
    }
}

impl Default for Edge {
    /// A black edge from vertex 0 to vertex 0, without a label.
    fn default() -> (e: Edge)
        ensures
            e == (Edge { from: 0, to: 0, color: black(), text: None }),
    {
        Edge { from: 0, to: 0, color: Rgb { r: 0, g: 0, b: 0 }, text: None }
    }
}

/// Sum of coordinate `axis` (0 for x, 1 for y, 2 for z) of the vertices of `verts`
/// at the indices `idx`.
pub open spec fn coord_sum(verts: Seq<Vertex>, idx: Seq<usize>, axis: int) -> int
    decreases idx.len(),
{
    if idx.len() == 0 {
        0
    } else {
        coord_sum(verts, idx.drop_last(), axis) + verts[idx.last() as int].vec3()[axis]
    }
}

/// Whether every index in `idx` names a vertex of `verts`.
pub open spec fn indices_valid(idx: Seq<usize>, n: int) -> bool {
    forall|i: int| 0 <= i < idx.len() ==> #[trigger] idx[i] < n
}

/// The centroid of the face with vertex indices `idx`: the mean of its vertices'
/// coordinates, rounded toward zero.
pub open spec fn centroid_of(verts: Seq<Vertex>, idx: Seq<usize>) -> Vec3 {
    [
        clamp(quot(coord_sum(verts, idx, 0), idx.len() as int)) as i32,
        clamp(quot(coord_sum(verts, idx, 1), idx.len() as int)) as i32,
        clamp(quot(coord_sum(verts, idx, 2), idx.len() as int)) as i32,
    ]
}

/// The normal point of the face: `cross(v1 - v0, v2 - v1)` for its first three
/// vertices, placed at the centroid.
pub open spec fn normal_point_of(verts: Seq<Vertex>, idx: Seq<usize>) -> Vec3 {
    let v0 = verts[idx[0] as int].vec3();
    let v1 = verts[idx[1] as int].vec3();
    let v2 = verts[idx[2] as int].vec3();
    let n = cross_of(diff_of(v1, v0), diff_of(v2, v1));
    let m = centroid_of(verts, idx);
    [clamp(n[0] + m[0]) as i32, clamp(n[1] + m[1]) as i32, clamp(n[2] + m[2]) as i32]
}

impl Face {
    /// A face through the vertices `v`, in order, with its auxiliary indices unset.
    pub fn new(v: Vec<usize>) -> (f: Face)
        requires
            v.len() >= 3,
        ensures
            f@ == (FaceView { vertexes: v@, normal_vertex: -1, center_vertex: -1 }),
    {
        Face { vertexes: v, normal_vertex: -1, center_vertex: -1 }
    }

    /// A copy of this face.
    pub fn duplicate(&self) -> (f: Face)
        ensures
            f@ == self@,
    {
        Face { vertexes: self.vertexes.clone(), normal_vertex: self.normal_vertex, center_vertex: self.center_vertex }
    }

    /// The normal point and the centroid of this face among the vertices `vert`;
    /// see `normal_point_of` and `centroid_of`.
    pub fn normal(&self, vert: &Vec<Vertex>) -> (r: (Vec3, Vec3))
        requires
            self.vertexes.len() >= 3,
            indices_valid(self.vertexes@, vert.len() as int),
        ensures
            r.0 == normal_point_of(vert@, self.vertexes@),
            r.1 == centroid_of(vert@, self.vertexes@),
    {
        let len = self.vertexes.len();
        let mut sx: i128 = 0;
        let mut sy: i128 = 0;
        let mut sz: i128 = 0;
        let mut i: usize = 0;
        while i < len
            invariant
                i <= len,
                len == self.vertexes.len(),
                indices_valid(self.vertexes@, vert.len() as int),
                sx == coord_sum(vert@, self.vertexes@.take(i as int), 0),
                sy == coord_sum(vert@, self.vertexes@.take(i as int), 1),
                sz == coord_sum(vert@, self.vertexes@.take(i as int), 2),
                -0x8000_0000 * i <= sx <= 0x8000_0000 * i,
                -0x8000_0000 * i <= sy <= 0x8000_0000 * i,
                -0x8000_0000 * i <= sz <= 0x8000_0000 * i,
                len <= usize::MAX,
            decreases len - i,
        {
            let v = vert[self.vertexes[i]];
            proof {
                assert(self.vertexes@.take(i as int + 1).drop_last() =~= self.vertexes@.take(i as int));
            }
            sx = sx + v.x as i128;
            sy = sy + v.y as i128;
            sz = sz + v.z as i128;
            i = i + 1;
        }
        proof {
            assert(self.vertexes@.take(len as int) =~= self.vertexes@);
        }
        assert(0x8000_0000 * len <= 0x1_0000_0000_0000_0000_0000_0000_0000) by (nonlinear_arith)
            requires
                len <= usize::MAX,
        ;
        let m = [
            saturate(div_trunc(sx, len as i128)),
            saturate(div_trunc(sy, len as i128)),
            saturate(div_trunc(sz, len as i128)),
        ];
        assert(m =~= centroid_of(vert@, self.vertexes@));
        let v1 = vert[self.vertexes[0]].to_vec_3();
        let v2 = vert[self.vertexes[1]].to_vec_3();
        let v3 = vert[self.vertexes[2]].to_vec_3();
        let n = cross(diff(v2, v1), diff(v3, v2));
        let p = [
            saturate(n[0] as i128 + m[0] as i128),
            saturate(n[1] as i128 + m[1] as i128),
            saturate(n[2] as i128 + m[2] as i128),
        ];
        assert(p =~= normal_point_of(vert@, self.vertexes@));
        (p, m)
    }
}

/// Whether the face `f` has its centroid and normal point among `n` vertices.
pub open spec fn face_anchored(f: FaceView, n: int) -> bool {
    0 <= f.center_vertex < n && 0 <= f.normal_vertex < n
}

/// Whether every face of `o` has its centroid and normal point among the vertices.
pub open spec fn faces_anchored(o: ObjView) -> bool {
    forall|i: int| 0 <= i < o.faces.len() ==> face_anchored(#[trigger] o.faces[i], o.vertexes.len() as int)
}

/// The face `face` with its centroid at vertex `center` and its normal point at
/// vertex `center + 1`.
pub open spec fn placed_face(face: FaceView, center: int) -> FaceView {
    FaceView { vertexes: face.vertexes, normal_vertex: center + 1, center_vertex: center }
}

/// A copy of the vertices `v`.
pub(crate) fn copy_vertices(v: &Vec<Vertex>) -> (r: Vec<Vertex>)
    ensures
        r@ == v@,
{
    let mut r: Vec<Vertex> = Vec::new();
    let mut i: usize = 0;
    while i < v.len()
        invariant
            i <= v.len(),
            r@ == v@.take(i as int),
        decreases v.len() - i,
    {
        r.push(v[i]);
        i = i + 1;
        assert(r@ =~= v@.take(i as int));
    }
    assert(v@.take(v.len() as int) =~= v@);
    r
}

/// A copy of the edges `v`.
pub(crate) fn copy_edges(v: &Vec<Edge>) -> (r: Vec<Edge>)
    ensures
        r@ == v@,
{
    let mut r: Vec<Edge> = Vec::new();
    let mut i: usize = 0;
    while i < v.len()
        invariant
            i <= v.len(),
            r@ == v@.take(i as int),
        decreases v.len() - i,
    {
        r.push(v[i].duplicate());
        i = i + 1;
        assert(r@ =~= v@.take(i as int));
    }
    assert(v@.take(v.len() as int) =~= v@);
    r
}

/// A copy of the faces `v`.
pub(crate) fn copy_faces(v: &Vec<Face>) -> (r: Vec<Face>)
    ensures
        faces_view(r@) == faces_view(v@),
{
    let mut r: Vec<Face> = Vec::new();
    let mut i: usize = 0;
    while i < v.len()
        invariant
            i <= v.len(),
            r@.len() == i,
            forall|j: int| 0 <= j < i ==> #[trigger] r@[j]@ == v@[j]@,
        decreases v.len() - i,
    {
        r.push(v[i].duplicate());
        i = i + 1;
    }
    assert(faces_view(r@) =~= faces_view(v@));
    r
}

impl Obj3D {
    /// An object with no vertices, edges or faces.
    pub fn new() -> (o: Obj3D)
        ensures
            o@ == empty_obj(),
            faces_anchored(o@),
    {
        let o = Obj3D { vertexes: Vec::new(), faces: Vec::new(), edges: Vec::new() };
        assert(o@.faces =~= Seq::<FaceView>::empty());
        o
    }

    /// A copy of this object.
    pub fn duplicate(&self) -> (o: Obj3D)
        ensures
            o@ == self@,
    {
        Obj3D {
            vertexes: copy_vertices(&self.vertexes),
            edges: copy_edges(&self.edges),
            faces: copy_faces(&self.faces),
        }
    }

    /// Adds the face `face`. Two vertices are appended first: the centroid of the
    /// face, then its normal point (see `Face::normal`); the face is stored with
    /// their indices, which are returned as `(center, normal)`.
    pub fn push_face(&mut self, face: Face) -> (r: (usize, usize))
        requires
            face.vertexes.len() >= 3,
            indices_valid(face.vertexes@, old(self).vertexes.len() as int),
            old(self).vertexes.len() + 2 <= i64::MAX,
        ensures
            r.0 == old(self).vertexes.len(),
            r.1 == old(self).vertexes.len() + 1,
            final(self)@ == (ObjView {
                vertexes: old(self)@.vertexes.push(
                    vertex_at(centroid_of(old(self)@.vertexes, face@.vertexes)),
                ).push(vertex_at(normal_point_of(old(self)@.vertexes, face@.vertexes))),
                edges: old(self)@.edges,
                faces: old(self)@.faces.push(placed_face(face@, old(self).vertexes.len() as int)),
            }),
            faces_anchored(old(self)@) ==> faces_anchored(final(self)@),
    {
        let n = self.vertexes.len();
        let (normal, m) = face.normal(&self.vertexes);
        self.vertexes.push(Vertex::from_vec(m));
        self.vertexes.push(Vertex::from_vec(normal));
        assert(self.vertexes.len() == n + 2);
        let f = Face {
            vertexes: face.vertexes,
            normal_vertex: (n + 1) as i64,
            center_vertex: n as i64,
        };
        let ghost old_faces = self.faces@;
        self.faces.push(f);
        assert(faces_view(self.faces@) =~= faces_view(old_faces).push(placed_face(face@, n as int)));
        (n, n + 1)
    }

    /// Adds the vertex `v`.
    pub fn push_vertex(&mut self, v: Vertex)
        ensures
            final(self)@ == (ObjView { vertexes: old(self)@.vertexes.push(v), ..old(self)@ }),
            faces_anchored(old(self)@) ==> faces_anchored(final(self)@),
    {
        self.vertexes.push(v);
        assert(self@.faces == old(self)@.faces);
        assert forall|i: int| 0 <= i < self@.faces.len() && faces_anchored(old(self)@) implies face_anchored(
            #[trigger] self@.faces[i],
            self@.vertexes.len() as int,
        ) by {
            assert(face_anchored(old(self)@.faces[i], old(self)@.vertexes.len() as int));
        }
    }

    /// Adds the vertices `v`, in order.
    pub fn push_vertexes(&mut self, v: Vec<Vertex>)
        ensures
            final(self)@ == (ObjView { vertexes: old(self)@.vertexes + v@, ..old(self)@ }),
            faces_anchored(old(self)@) ==> faces_anchored(final(self)@),
    {
        let ghost start = self@;
        let mut i: usize = 0;
        while i < v.len()
            invariant
                i <= v.len(),
                self@ == (ObjView { vertexes: start.vertexes + v@.take(i as int), ..start }),
            decreases v.len() - i,
        {
            self.vertexes.push(v[i]);
            i = i + 1;
            assert(self@.vertexes =~= start.vertexes + v@.take(i as int));
        }
        assert(v@.take(v.len() as int) =~= v@);
    }

    /// Adds the edge `e`.
    pub fn push_edge(&mut self, e: Edge)
        ensures
            final(self)@ == (ObjView { edges: old(self)@.edges.push(e), ..old(self)@ }),
            faces_anchored(old(self)@) ==> faces_anchored(final(self)@),
    {
        self.edges.push(e);
        assert(self@.faces == old(self)@.faces);
    }

    /// Adds the edges `v`, in order.
    pub fn push_edges(&mut self, v: Vec<Edge>)
        ensures
            final(self)@ == (ObjView { edges: old(self)@.edges + v@, ..old(self)@ }),
            faces_anchored(old(self)@) ==> faces_anchored(final(self)@),
    {
        let ghost start = self@;
        let mut i: usize = 0;
        while i < v.len()
            invariant
                i <= v.len(),
                self@ == (ObjView { edges: start.edges + v@.take(i as int), ..start }),
            decreases v.len() - i,
        {
            self.edges.push(v[i].duplicate());
            i = i + 1;
            assert(self@.edges =~= start.edges + v@.take(i as int));
        }
        assert(v@.take(v.len() as int) =~= v@);
    }

    /// Adds the faces `v` as they are, in order, without auxiliary vertices.
    pub fn push_faces(&mut self, v: Vec<Face>)
        ensures
            final(self)@ == (ObjView { faces: old(self)@.faces + faces_view(v@), ..old(self)@ }),
    {
        let ghost start = self@;
        let mut i: usize = 0;
        while i < v.len()
            invariant
                i <= v.len(),
                self.vertexes@ == start.vertexes,
                self.edges@ == start.edges,
                self.faces@.len() == start.faces.len() + i,
                forall|j: int| 0 <= j < start.faces.len() ==> #[trigger] self.faces@[j]@ == start.faces[j],
                forall|j: int|
                    start.faces.len() <= j < start.faces.len() + i ==> #[trigger] self.faces@[j]@
                        == v@[j - start.faces.len()]@,
            decreases v.len() - i,
        {
            self.faces.push(v[i].duplicate());
            i = i + 1;
        }
        assert(self@.faces =~= start.faces + faces_view(v@));
    }
}

} // verus!
