//! Scenes of named objects, and the pipeline over them: transforming every
//! vertex by a matrix, back-face culling, and projection to the screen.

use vstd::prelude::*;
use crate::fixed::{clamp, saturate, Fixed, ONE};
use crate::figure::{
    copy_edges, copy_faces, copy_vertices, empty_obj, face_anchored, faces_anchored, faces_view,
    vertex_at, vertex_of, Edge, Face, FaceView, Obj3D, ObjView, Point2, Rgb, Vertex,
};
use crate::matrix::{
    apply_exact, apply_of, identity, lemma_apply_assoc, lemma_identity_apply, mat_raw,
    plain_weight, product_exact, product_of, Mat4x4, Vec4,
};
use crate::vector::Vec3;

verus! {

/// A scene: objects under unique names, in the order in which they were added.
#[derive(Clone, Debug)]
pub struct Mesh {
    pub objects: Vec<(String, Obj3D)>,
}

/// What a scene is: its names and objects, in order.
pub type SceneView = Seq<(Seq<char>, ObjView)>;

impl View for Mesh {
    type V = SceneView;

    open spec fn view(&self) -> SceneView {
        self.objects@.map_values(|e: (String, Obj3D)| (e.0@, e.1@))
    }
}

/// Whether no two entries of `s` share a name.
pub open spec fn names_unique<T>(s: Seq<(Seq<char>, T)>) -> bool {
    forall|i: int, j: int| 0 <= i < j < s.len() ==> #[trigger] s[i].0 != #[trigger] s[j].0
}

/// The position of the entry named `name` in `s`, or -1 where there is none.
pub open spec fn index_of<T>(s: Seq<(Seq<char>, T)>, name: Seq<char>) -> int
    decreases s.len(),
{
    if s.len() == 0 {
        -1
    } else if s.last().0 == name {
        s.len() - 1
    } else {
        index_of(s.drop_last(), name)
    }
}

proof fn lemma_index_of_found<T>(s: Seq<(Seq<char>, T)>, name: Seq<char>, k: int)
    requires
        names_unique(s),
        0 <= k < s.len(),
        s[k].0 == name,
    ensures
        index_of(s, name) == k,
    decreases s.len(),
{
    if k < s.len() - 1 {
        assert(s.last().0 != name);
        assert(s.drop_last()[k] == s[k]);
        lemma_index_of_found(s.drop_last(), name, k);
    }
}

proof fn lemma_index_of_meaning<T>(s: Seq<(Seq<char>, T)>, name: Seq<char>)
    ensures
        -1 <= index_of(s, name) < s.len(),
        index_of(s, name) == -1 ==> forall|j: int| 0 <= j < s.len() ==> #[trigger] s[j].0 != name,
        index_of(s, name) != -1 ==> s[index_of(s, name)].0 == name,
    decreases s.len(),
{
    if s.len() > 0 && s.last().0 != name {
        lemma_index_of_meaning(s.drop_last(), name);
        if index_of(s, name) == -1 {
            assert forall|j: int| 0 <= j < s.len() implies #[trigger] s[j].0 != name by {
                if j < s.len() - 1 {
                    assert(s.drop_last()[j] == s[j]);
                }
            }
        } else {
            assert(s.drop_last()[index_of(s, name)] == s[index_of(s, name)]);
        }
    }
}

/// Storing under `name`, in place or at the end as `index_of` says, keeps names unique.
proof fn lemma_store_keeps_unique(s: SceneView, name: Seq<char>)
    requires
        names_unique(s),
    ensures
        index_of(s, name) != -1 ==> forall|o: ObjView| #[trigger] names_unique(s.update(index_of(s, name), (name, o))),
        index_of(s, name) == -1 ==> forall|o: ObjView| #[trigger] names_unique(s.push((name, o))),
{
    lemma_index_of_meaning(s, name);
    assert forall|o: ObjView| index_of(s, name) != -1 implies #[trigger] names_unique(s.update(index_of(s, name), (name, o))) by {
        let t = s.update(index_of(s, name), (name, o));
        assert forall|i: int, j: int| 0 <= i < j < t.len() implies #[trigger] t[i].0 != #[trigger] t[j].0 by {
            assert(t[i].0 == s[i].0 && t[j].0 == s[j].0);
        }
    }
    assert forall|o: ObjView| index_of(s, name) == -1 implies #[trigger] names_unique(s.push((name, o))) by {
        let t = s.push((name, o));
        assert forall|i: int, j: int| 0 <= i < j < t.len() implies #[trigger] t[i].0 != #[trigger] t[j].0 by {
            if j < s.len() {
                assert(t[i] == s[i] && t[j] == s[j]);
            } else {
                assert(t[i] == s[i]);
            }
        }
    }
}

proof fn lemma_index_of_absent<T>(s: Seq<(Seq<char>, T)>, name: Seq<char>)
    requires
        forall|j: int| 0 <= j < s.len() ==> #[trigger] s[j].0 != name,
    ensures
        index_of(s, name) == -1,
    decreases s.len(),
{
    if s.len() > 0 {
        assert(s.last().0 != name);
        assert forall|j: int| 0 <= j < s.drop_last().len() implies #[trigger] s.drop_last()[j].0 != name by {
            assert(s.drop_last()[j] == s[j]);
        }
        lemma_index_of_absent(s.drop_last(), name);
    }
}

/// `o` with every vertex multiplied by `m` (see `apply_of`); edges and faces kept.
pub open spec fn transformed(m: Mat4x4, o: ObjView) -> ObjView {
    ObjView { vertexes: o.vertexes.map_values(|v: Vertex| vertex_of(apply_of(m, v.vec()))), ..o }
}

/// Whether the face `f` faces the eye at `eye`, judged by its centroid `c` and
/// normal point `n` among `verts`: `dot(n - c, c - eye) < 0`, exactly. Scaling
/// either vector by a positive length does not change the sign of this dot
/// product, so it is the test on the normalized vectors, made without rounding.
pub open spec fn front_facing(f: FaceView, verts: Seq<Vertex>, eye: Vec3) -> bool {
    let c = verts[f.center_vertex].vec3();
    let n = verts[f.normal_vertex].vec3();
    (n[0] - c[0]) * (c[0] - eye[0]) + (n[1] - c[1]) * (c[1] - eye[1]) + (n[2] - c[2]) * (c[2]
        - eye[2]) < 0
}

/// The faces of `faces` that face the eye, in order.
pub open spec fn kept_faces(faces: Seq<FaceView>, verts: Seq<Vertex>, eye: Vec3) -> Seq<FaceView>
    decreases faces.len(),
{
    if faces.len() == 0 {
        Seq::empty()
    } else {
        let rest = kept_faces(faces.drop_last(), verts, eye);
        if front_facing(faces.last(), verts, eye) {
            rest.push(faces.last())
        } else {
            rest
        }
    }
}

/// `o` after back-face culling from `eye`: the eye is appended as a vertex and
/// only the faces that face it are kept.
pub open spec fn culled(o: ObjView, eye: Vec3) -> ObjView {
    ObjView {
        vertexes: o.vertexes.push(vertex_at(eye)),
        edges: o.edges,
        faces: kept_faces(o.faces, o.vertexes, eye),
    }
}

proof fn lemma_wide_product(a: int, b: int)
    requires
        -0x1_0000_0000 <= a <= 0x1_0000_0000,
        -0x1_0000_0000 <= b <= 0x1_0000_0000,
    ensures
        -0x1_0000_0000_0000_0000 <= a * b <= 0x1_0000_0000_0000_0000,
{
    assert(-0x1_0000_0000_0000_0000 <= a * b <= 0x1_0000_0000_0000_0000) by (nonlinear_arith)
        requires
            -0x1_0000_0000 <= a <= 0x1_0000_0000,
            -0x1_0000_0000 <= b <= 0x1_0000_0000,
    ;
}

fn front_facing_exec(f: &Face, verts: &Vec<Vertex>, eye: Vec3) -> (r: bool)
    requires
        0 <= f.center_vertex < verts.len(),
        0 <= f.normal_vertex < verts.len(),
    ensures
        r == front_facing(f@, verts@, eye),
{
    let c = verts[f.center_vertex as usize];
    let n = verts[f.normal_vertex as usize];
    let (a0, a1, a2) = (n.x as i128 - c.x as i128, n.y as i128 - c.y as i128, n.z as i128 - c.z as i128);
    let (b0, b1, b2) = (c.x as i128 - eye[0] as i128, c.y as i128 - eye[1] as i128, c.z as i128 - eye[2] as i128);
    proof {
        lemma_wide_product(a0 as int, b0 as int);
        lemma_wide_product(a1 as int, b1 as int);
        lemma_wide_product(a2 as int, b2 as int);
    }
    let d = a0 * b0 + a1 * b1 + a2 * b2;
    d < 0
}

fn transform_vertices(m: &Mat4x4, v: &Vec<Vertex>) -> (r: Vec<Vertex>)
    ensures
        r@ == v@.map_values(|p: Vertex| vertex_of(apply_of(*m, p.vec()))),
{
    let mut r: Vec<Vertex> = Vec::new();
    let mut i: usize = 0;
    while i < v.len()
        invariant
            i <= v.len(),
            r@.len() == i,
            forall|j: int| 0 <= j < i ==> #[trigger] r@[j] == vertex_of(apply_of(*m, v@[j].vec())),
        decreases v.len() - i,
    {
        let p = m.mul_vec(v[i].to_vec());
        r.push(Vertex::from_vec4(p));
        i = i + 1;
    }
    assert(r@ =~= v@.map_values(|p: Vertex| vertex_of(apply_of(*m, p.vec()))));
    r
}

fn cull_faces(faces: &Vec<Face>, verts: &Vec<Vertex>, eye: Vec3) -> (r: Vec<Face>)
    requires
        forall|i: int| 0 <= i < faces.len() ==> face_anchored(#[trigger] faces@[i]@, verts.len() as int),
    ensures
        faces_view(r@) == kept_faces(faces_view(faces@), verts@, eye),
{
    let mut r: Vec<Face> = Vec::new();
    let mut i: usize = 0;
    while i < faces.len()
        invariant
            i <= faces.len(),
            forall|i: int| 0 <= i < faces.len() ==> face_anchored(#[trigger] faces@[i]@, verts.len() as int),
            faces_view(r@) == kept_faces(faces_view(faces@).take(i as int), verts@, eye),
        decreases faces.len() - i,
    {
        let ghost before = faces_view(r@);
        let ghost fs = faces_view(faces@);
        assert(fs[i as int] == faces@[i as int]@);
        assert(fs.take(i as int + 1).drop_last() =~= fs.take(i as int));
        assert(fs.take(i as int + 1).last() == fs[i as int]);
        if front_facing_exec(&faces[i], verts, eye) {
            r.push(faces[i].duplicate());
            assert(faces_view(r@) =~= before.push(fs[i as int]));
        }
        i = i + 1;
    }
    assert(faces_view(faces@).take(faces.len() as int) =~= faces_view(faces@));
    r
}

impl Mesh {
    /// Whether the names of the objects are unique.
    pub open spec fn wf(&self) -> bool {
        names_unique(self@)
    }

    /// A scene with no objects.
    pub fn new() -> (m: Mesh)
        ensures
            m@ == Seq::<(Seq<char>, ObjView)>::empty(),
            m.wf(),
    {
        let m = Mesh { objects: Vec::new() };
        assert(m@ =~= Seq::<(Seq<char>, ObjView)>::empty());
        m
    }

    /// The position of the object named `name`, if there is one.
    fn find(&self, name: &String) -> (r: Option<usize>)
        requires
            self.wf(),
        ensures
            match r {
                Some(i) => i == index_of(self@, name@) && i < self@.len(),
                None => index_of(self@, name@) == -1,
            },
    {
        let mut i: usize = 0;
        while i < self.objects.len()
            invariant
                self.wf(),
                i <= self.objects.len(),
                forall|j: int| 0 <= j < i ==> #[trigger] self@[j].0 != name@,
            decreases self.objects.len() - i,
        {
            assert(self@[i as int].0 == self.objects@[i as int].0@);
            if self.objects[i].0 == *name {
                proof {
                    lemma_index_of_found(self@, name@, i as int);
                }
                return Some(i);
            }
            assert(self@[i as int].0 == self.objects@[i as int].0@);
            i = i + 1;
        }
        proof {
            lemma_index_of_absent(self@, name@);
        }
        None
    }

    /// The object named `name`, or `None` where the scene has none.
    pub fn get(&self, name: &str) -> (r: Option<&Obj3D>)
        requires
            self.wf(),
        ensures
            index_of(self@, name@) == -1 ==> r is None,
            index_of(self@, name@) != -1 ==> (r matches Some(o) && o@ == self@[index_of(
                self@,
                name@,
            )].1),
    {
        let key = name.to_string();
        match self.find(&key) {
            Some(i) => Some(&self.objects[i].1),
            None => None,
        }
    }

    /// Stores a new, empty object under `name`, in place of the object of that name
    /// where there is one, else after the others, and hands it out for filling.
    /// The names stay unique: the scene afterwards is well formed.
    pub fn push_object(&mut self, name: &str) -> (r: &mut Obj3D)
        requires
            old(self).wf(),
        ensures
            (*r)@ == empty_obj(),
            index_of(old(self)@, name@) != -1 ==> final(self)@ == old(self)@.update(
                index_of(old(self)@, name@),
                (name@, final(r)@),
            ),
            index_of(old(self)@, name@) == -1 ==> final(self)@ == old(self)@.push(
                (name@, final(r)@),
            ),
            index_of(old(self)@, name@) != -1 ==> names_unique(
                old(self)@.update(index_of(old(self)@, name@), (name@, final(r)@)),
            ),
            index_of(old(self)@, name@) == -1 ==> names_unique(old(self)@.push((name@, final(r)@))),
    {
        let key = name.to_string();
        proof {
            lemma_index_of_meaning(self@, name@);
            lemma_store_keeps_unique(self@, name@);
        }
        let i = match self.find(&key) {
            Some(i) => {
                self.objects.set(i, (key, Obj3D::new()));
                i
            },
            None => {
                self.objects.push((key, Obj3D::new()));
                self.objects.len() - 1
            },
        };
        &mut self.objects[i].1
    }
}

/// A two-dimensional object ready to draw: its points on the screen, and the
/// edges and faces that refer to them by index.
#[derive(Clone, Debug)]
pub struct Obj2D {
    pub points: Vec<Point2>,
    pub edges: Vec<Edge>,
    pub faces: Vec<Face>,
}

/// What a two-dimensional object is: its points, edges and faces.
pub ghost struct Obj2DView {
    pub points: Seq<Point2>,
    pub edges: Seq<Edge>,
    pub faces: Seq<FaceView>,
}

impl View for Obj2D {
    type V = Obj2DView;

    open spec fn view(&self) -> Obj2DView {
        Obj2DView { points: self.points@, edges: self.edges@, faces: faces_view(self.faces@) }
    }
}

/// A scene projected to the screen: two-dimensional objects under their names.
#[derive(Clone, Debug)]
pub struct Screen {
    pub objects: Vec<(String, Obj2D)>,
}

impl View for Screen {
    type V = Seq<(Seq<char>, Obj2DView)>;

    open spec fn view(&self) -> Seq<(Seq<char>, Obj2DView)> {
        self.objects@.map_values(|e: (String, Obj2D)| (e.0@, e.1@))
    }
}

/// The scene `s` with every vertex multiplied by `m`.
pub open spec fn transformed_scene(m: Mat4x4, s: SceneView) -> SceneView {
    s.map_values(|e: (Seq<char>, ObjView)| (e.0, transformed(m, e.1)))
}

/// The scene `s` after back-face culling from `eye`.
pub open spec fn culled_scene(s: SceneView, eye: Vec3) -> SceneView {
    s.map_values(|e: (Seq<char>, ObjView)| (e.0, culled(e.1, eye)))
}

/// `o` on a screen of `x_size` by `y_size`: each vertex becomes its screen point
/// (see `Vertex::screen_of`); edges and faces are kept.
pub open spec fn projected(o: ObjView, x_size: Fixed, y_size: Fixed) -> Obj2DView {
    Obj2DView {
        points: o.vertexes.map_values(|v: Vertex| v.screen_of(x_size, y_size)),
        edges: o.edges,
        faces: o.faces,
    }
}

/// Whether every edge of `o` joins two of its vertices.
pub open spec fn edges_in_range(o: ObjView) -> bool {
    forall|i: int|
        0 <= i < o.edges.len() ==> (#[trigger] o.edges[i]).from < o.vertexes.len() && o.edges[i].to
            < o.vertexes.len()
}

/// Whether every face of `o` has a vertex, and all its vertices are among those of `o`.
pub open spec fn faces_in_range(o: ObjView) -> bool {
    forall|i: int|
        0 <= i < o.faces.len() ==> (#[trigger] o.faces[i]).vertexes.len() > 0 && forall|j: int|
            0 <= j < o.faces[i].vertexes.len() ==> #[trigger] o.faces[i].vertexes[j] < o.vertexes.len()
}

/// The scene `s` projected to a screen of `x_size` by `y_size`.
pub open spec fn projected_scene(s: SceneView, x_size: Fixed, y_size: Fixed) -> Seq<(Seq<char>, Obj2DView)> {
    s.map_values(|e: (Seq<char>, ObjView)| (e.0, projected(e.1, x_size, y_size)))
}

fn cull_object(o: &Obj3D, eye: Vec3) -> (r: Obj3D)
    requires
        faces_anchored(o@),
    ensures
        r@ == culled(o@, eye),
{
    assert forall|i: int| 0 <= i < o.faces.len() implies face_anchored(#[trigger] o.faces@[i]@, o.vertexes.len() as int) by {
        assert(o@.faces[i] == o.faces@[i]@);
    }
    let faces = cull_faces(&o.faces, &o.vertexes, eye);
    let mut vertexes = copy_vertices(&o.vertexes);
    vertexes.push(Vertex::from_vec(eye));
    Obj3D { vertexes, edges: copy_edges(&o.edges), faces }
}

fn project_object(o: &Obj3D, x_size: Fixed, y_size: Fixed) -> (r: Obj2D)
    ensures
        r@ == projected(o@, x_size, y_size),
{
    let mut points: Vec<Point2> = Vec::new();
    let mut i: usize = 0;
    while i < o.vertexes.len()
        invariant
            i <= o.vertexes.len(),
            points@.len() == i,
            forall|j: int| 0 <= j < i ==> #[trigger] points@[j] == o.vertexes@[j].screen_of(x_size, y_size),
        decreases o.vertexes.len() - i,
    {
        points.push(o.vertexes[i].screen(x_size, y_size));
        i = i + 1;
    }
    assert(points@ =~= o@.vertexes.map_values(|v: Vertex| v.screen_of(x_size, y_size)));
    Obj2D { points, edges: copy_edges(&o.edges), faces: copy_faces(&o.faces) }
}

/// Every vertex of every object of `scene` multiplied by `m` (see `apply_of`), in a
/// new scene with the same names, edges and faces.
pub fn transform(m: &Mat4x4, scene: &Mesh) -> (r: Mesh)
    ensures
        r@ == transformed_scene(*m, scene@),
        scene.wf() ==> r.wf(),
{
    let mut out: Vec<(String, Obj3D)> = Vec::new();
    let mut i: usize = 0;
    while i < scene.objects.len()
        invariant
            i <= scene.objects.len(),
            out@.len() == i,
            forall|j: int| 0 <= j < i ==> (#[trigger] out@[j]).0@ == scene@[j].0 && out@[j].1@
                == transformed(*m, scene@[j].1),
        decreases scene.objects.len() - i,
    {
        let entry = &scene.objects[i];
        let o = Obj3D {
            vertexes: transform_vertices(m, &entry.1.vertexes),
            edges: copy_edges(&entry.1.edges),
            faces: copy_faces(&entry.1.faces),
        };
        out.push((entry.0.clone(), o));
        i = i + 1;
    }
    let r = Mesh { objects: out };
    assert(r@ =~= transformed_scene(*m, scene@));
    r
}

/// `o` with every vertex put through the perspective divide and scaled to a
/// viewport of `x_size` by `y_size` (see `Vertex::norm_z_of`).
pub open spec fn normalized(o: ObjView, x_size: Fixed, y_size: Fixed) -> ObjView {
    ObjView { vertexes: o.vertexes.map_values(|v: Vertex| v.norm_z_of(x_size, y_size)), ..o }
}

fn normalize_object(o: &Obj3D, x_size: Fixed, y_size: Fixed) -> (r: Obj3D)
    ensures
        r@ == normalized(o@, x_size, y_size),
{
    let mut vertexes: Vec<Vertex> = Vec::new();
    let mut i: usize = 0;
    while i < o.vertexes.len()
        invariant
            i <= o.vertexes.len(),
            vertexes@.len() == i,
            forall|j: int| 0 <= j < i ==> #[trigger] vertexes@[j] == o.vertexes@[j].norm_z_of(x_size, y_size),
        decreases o.vertexes.len() - i,
    {
        vertexes.push(o.vertexes[i].norm_z(x_size, y_size));
        i = i + 1;
    }
    assert(vertexes@ =~= o@.vertexes.map_values(|v: Vertex| v.norm_z_of(x_size, y_size)));
    Obj3D { vertexes, edges: copy_edges(&o.edges), faces: copy_faces(&o.faces) }
}

impl Mesh {
    /// The scene with every vertex put through the perspective divide and scaled to
    /// a viewport of `x_size` by `y_size` (see `Vertex::norm_z_of`).
    pub fn norm_z(&self, x_size: Fixed, y_size: Fixed) -> (r: Mesh)
        ensures
            r@ == self@.map_values(|e: (Seq<char>, ObjView)| (e.0, normalized(e.1, x_size, y_size))),
    {
        let mut out: Vec<(String, Obj3D)> = Vec::new();
        let mut i: usize = 0;
        while i < self.objects.len()
            invariant
                i <= self.objects.len(),
                out@.len() == i,
                forall|j: int| 0 <= j < i ==> (#[trigger] out@[j]).0@ == self@[j].0 && out@[j].1@
                    == normalized(self@[j].1, x_size, y_size),
            decreases self.objects.len() - i,
        {
            let entry = &self.objects[i];
            out.push((entry.0.clone(), normalize_object(&entry.1, x_size, y_size)));
            i = i + 1;
        }
        let r = Mesh { objects: out };
        assert(r@ =~= self@.map_values(
            |e: (Seq<char>, ObjView)| (e.0, normalized(e.1, x_size, y_size)),
        ));
        r
    }

    /// Back-face culling from the eye at `eye`: appends the eye as a vertex of
    /// every object, and keeps only the faces that face it (see `front_facing`).
    pub fn set_camera(&mut self, eye: Vec3)
        requires
            old(self).wf(),
            forall|i: int| 0 <= i < old(self)@.len() ==> faces_anchored(#[trigger] old(self)@[i].1),
        ensures
            final(self)@ == culled_scene(old(self)@, eye),
            final(self).wf(),
    {
        let mut out: Vec<(String, Obj3D)> = Vec::new();
        let mut i: usize = 0;
        while i < self.objects.len()
            invariant
                i <= self.objects.len(),
                self@ == old(self)@,
                forall|i: int| 0 <= i < self@.len() ==> faces_anchored(#[trigger] self@[i].1),
                out@.len() == i,
                forall|j: int| 0 <= j < i ==> (#[trigger] out@[j]).0@ == self@[j].0 && out@[j].1@
                    == culled(self@[j].1, eye),
            decreases self.objects.len() - i,
        {
            let entry = &self.objects[i];
            assert(self@[i as int].1 == entry.1@);
            let o = cull_object(&entry.1, eye);
            out.push((entry.0.clone(), o));
            i = i + 1;
        }
        self.objects = out;
        assert(self@ =~= culled_scene(old(self)@, eye));
    }

    /// The scene projected to a screen of `x_size` by `y_size`: each vertex becomes
    /// its screen point (see `Vertex::screen_of`).
    pub fn to_screen(&self, x_size: Fixed, y_size: Fixed) -> (r: Screen)
        ensures
            r@ == projected_scene(self@, x_size, y_size),
            (forall|i: int| 0 <= i < self@.len() ==> edges_in_range(#[trigger] self@[i].1))
                ==> r.lines_ready(),
            (forall|i: int| 0 <= i < self@.len() ==> faces_in_range(#[trigger] self@[i].1))
                ==> r.outlines_ready(),
    {
        let mut out: Vec<(String, Obj2D)> = Vec::new();
        let mut i: usize = 0;
        while i < self.objects.len()
            invariant
                i <= self.objects.len(),
                out@.len() == i,
                forall|j: int| 0 <= j < i ==> (#[trigger] out@[j]).0@ == self@[j].0 && out@[j].1@
                    == projected(self@[j].1, x_size, y_size),
            decreases self.objects.len() - i,
        {
            let entry = &self.objects[i];
            out.push((entry.0.clone(), project_object(&entry.1, x_size, y_size)));
            i = i + 1;
        }
        let r = Screen { objects: out };
        assert(r@ =~= projected_scene(self@, x_size, y_size));
        assert forall|i: int| 0 <= i < self@.len() && edges_in_range(self@[i].1) implies edges_drawable(
            #[trigger] r@[i].1,
        ) by {
            assert(r@[i].1 == projected(self@[i].1, x_size, y_size));
        }
        assert forall|i: int| 0 <= i < self@.len() && faces_in_range(self@[i].1) implies faces_drawable(
            #[trigger] r@[i].1,
        ) by {
            assert(r@[i].1 == projected(self@[i].1, x_size, y_size));
        }
        r
    }
}

/// Whether `m_inv * m` is exactly the identity, with no rounding in the product.
pub open spec fn inverse_exact(m_inv: Mat4x4, m: Mat4x4) -> bool {
    forall|r: int, c: int|
        0 <= r < 4 && 0 <= c < 4 ==> #[trigger] mat_raw(m_inv, m, r, c) == if r == c {
            ONE * ONE
        } else {
            0
        }
}

/// Whether multiplying the point `v` by `m` is exact and leaves a weight of 0 or 1,
/// so that no rounding or perspective divide happens on the way.
pub open spec fn exact_step(m: Mat4x4, v: Vec4) -> bool {
    plain_weight(v[3] as int) && apply_exact(m, v) && plain_weight(apply_of(m, v)[3] as int)
}

/// Multiplying a point by `m`, then by an exact inverse `m_inv` of `m`, gives the
/// point back, where the first step is exact.
pub proof fn lemma_point_round_trip(m: Mat4x4, m_inv: Mat4x4, v: Vec4)
    requires
        inverse_exact(m_inv, m),
        exact_step(m, v),
    ensures
        apply_of(m_inv, apply_of(m, v)) == v,
{
    let one = ONE as int;
    assert forall|r: int, c: int| 0 <= r < 4 && 0 <= c < 4 implies crate::matrix::exact(
        #[trigger] mat_raw(m_inv, m, r, c),
    ) by {
        vstd::arithmetic::div_mod::lemma_mod_multiples_basic(one, one);
        crate::fixed::lemma_quot_exact(one, one);
        crate::fixed::lemma_quot_exact(0, one);
    }
    assert(product_exact(m_inv, m));
    lemma_apply_assoc(m_inv, m, v);
    crate::fixed::lemma_quot_exact(one, one);
    crate::fixed::lemma_quot_exact(0, one);
    let p = product_of(m_inv, m);
    assert(p.mat[0] =~= identity().mat[0]);
    assert(p.mat[1] =~= identity().mat[1]);
    assert(p.mat[2] =~= identity().mat[2]);
    assert(p.mat[3] =~= identity().mat[3]);
    assert(p.mat =~= identity().mat);
    lemma_identity_apply(v);
}

/// Transforming a scene by `m` and then by an exact inverse `m_inv` of `m` restores
/// every vertex, where each vertex's step through `m` is exact: no rounding, and a
/// weight of 0 or 1 before and after (as for a translation by any amount, or a
/// rotation by a quarter turn, of points of weight 1).
pub proof fn lemma_transform_round_trip(m: Mat4x4, m_inv: Mat4x4, s: SceneView)
    requires
        inverse_exact(m_inv, m),
        forall|i: int, k: int|
            0 <= i < s.len() && 0 <= k < s[i].1.vertexes.len() ==> exact_step(m, #[trigger] s[i].1.vertexes[k].vec()),
    ensures
        transformed_scene(m_inv, transformed_scene(m, s)) == s,
{
    let t = transformed_scene(m_inv, transformed_scene(m, s));
    assert forall|i: int| 0 <= i < s.len() implies #[trigger] t[i] == s[i] by {
        let o = s[i].1;
        let back = transformed(m_inv, transformed(m, o));
        assert forall|k: int| 0 <= k < o.vertexes.len() implies #[trigger] back.vertexes[k] == o.vertexes[k] by {
            let v = o.vertexes[k];
            assert(exact_step(m, s[i].1.vertexes[k].vec()));
            lemma_point_round_trip(m, m_inv, v.vec());
            let mid = vertex_of(apply_of(m, v.vec()));
            assert(mid.vec() =~= apply_of(m, v.vec()));
            assert(vertex_of(v.vec()) == v);
        }
        assert(back.vertexes =~= o.vertexes);
    }
    assert(t =~= s);
}

/// A line for the drawing surface: its two ends on the screen, its color, and an
/// optional label, drawn at `label_at`.
#[derive(Clone, Debug)]
pub struct Segment {
    pub from: Point2,
    pub to: Point2,
    pub color: Rgb,
    pub label: Option<String>,
    pub label_at: Point2,
}

/// Where the label of a line that ends at `p` is drawn: 10 units above `p`, that
/// is toward smaller y, since screen y grows downward.
pub open spec fn label_point(p: Point2) -> Point2 {
    Point2 { x: p.x, y: clamp(p.y - 10 * ONE) as i32 }
}

/// The line of the edge `e` among the points of `o`.
pub open spec fn segment_of(o: Obj2DView, e: Edge) -> Segment {
    Segment {
        from: o.points[e.from as int],
        to: o.points[e.to as int],
        color: e.color,
        label: e.text,
        label_at: label_point(o.points[e.to as int]),
    }
}

/// The closed outline of the face `f` among the points of `o`: its points in
/// order, then its first point again.
pub open spec fn outline_of(o: Obj2DView, f: FaceView) -> Seq<Point2> {
    f.vertexes.map_values(|k: usize| o.points[k as int]).push(o.points[f.vertexes[0] as int])
}

/// Whether every edge of `o` joins two of its points.
pub open spec fn edges_drawable(o: Obj2DView) -> bool {
    forall|i: int|
        0 <= i < o.edges.len() ==> (#[trigger] o.edges[i]).from < o.points.len() && o.edges[i].to
            < o.points.len()
}

/// Whether every face of `o` has a vertex, and all its vertices are points of `o`.
pub open spec fn faces_drawable(o: Obj2DView) -> bool {
    forall|i: int|
        0 <= i < o.faces.len() ==> (#[trigger] o.faces[i]).vertexes.len() > 0 && forall|j: int|
            0 <= j < o.faces[i].vertexes.len() ==> #[trigger] o.faces[i].vertexes[j] < o.points.len()
}

/// The lines of all the edges of the screen, object by object, in order.
pub open spec fn screen_segments(s: Seq<(Seq<char>, Obj2DView)>) -> Seq<Segment>
    decreases s.len(),
{
    if s.len() == 0 {
        Seq::empty()
    } else {
        screen_segments(s.drop_last()) + s.last().1.edges.map_values(|e: Edge| segment_of(s.last().1, e))
    }
}

/// The outlines of all the faces of the screen, object by object, in order.
pub open spec fn screen_outlines(s: Seq<(Seq<char>, Obj2DView)>) -> Seq<Seq<Point2>>
    decreases s.len(),
{
    if s.len() == 0 {
        Seq::empty()
    } else {
        screen_outlines(s.drop_last()) + s.last().1.faces.map_values(|f: FaceView| outline_of(s.last().1, f))
    }
}

fn segment(o: &Obj2D, e: &Edge) -> (r: Segment)
    requires
        e.from < o.points.len(),
        e.to < o.points.len(),
    ensures
        r == segment_of(o@, *e),
{
    let to = o.points[e.to];
    let d = e.duplicate();
    Segment {
        from: o.points[e.from],
        to,
        color: e.color,
        label: d.text,
        label_at: Point2 { x: to.x, y: saturate(to.y as i128 - 10 * ONE as i128) },
    }
}

fn outline(o: &Obj2D, f: &Face) -> (r: Vec<Point2>)
    requires
        f.vertexes.len() > 0,
        forall|j: int| 0 <= j < f.vertexes.len() ==> #[trigger] f.vertexes@[j] < o.points.len(),
    ensures
        r@ == outline_of(o@, f@),
{
    let mut r: Vec<Point2> = Vec::new();
    let mut i: usize = 0;
    while i < f.vertexes.len()
        invariant
            i <= f.vertexes.len(),
            forall|j: int| 0 <= j < f.vertexes.len() ==> #[trigger] f.vertexes@[j] < o.points.len(),
            r@.len() == i,
            forall|j: int| 0 <= j < i ==> #[trigger] r@[j] == o.points@[f.vertexes@[j] as int],
        decreases f.vertexes.len() - i,
    {
        r.push(o.points[f.vertexes[i]]);
        i = i + 1;
    }
    r.push(o.points[f.vertexes[0]]);
    assert(r@ =~= outline_of(o@, f@));
    r
}

impl Screen {
    /// Whether every edge of every object joins two of its points.
    pub open spec fn lines_ready(&self) -> bool {
        forall|i: int| 0 <= i < self@.len() ==> edges_drawable(#[trigger] self@[i].1)
    }

    /// Whether every face of every object has a vertex, and only points of its object.
    pub open spec fn outlines_ready(&self) -> bool {
        forall|i: int| 0 <= i < self@.len() ==> faces_drawable(#[trigger] self@[i].1)
    }

    /// The lines to draw, one per edge, object by object: from the point of the
    /// edge's `from` vertex to that of its `to` vertex, with the edge's color and
    /// label; the label stands 10 units above the `to` end.
    pub fn lines(&self) -> (r: Vec<Segment>)
        requires
            self.lines_ready(),
        ensures
            r@ == screen_segments(self@),
    {
        let mut r: Vec<Segment> = Vec::new();
        let mut i: usize = 0;
        while i < self.objects.len()
            invariant
                self.lines_ready(),
                i <= self.objects.len(),
                r@ == screen_segments(self@.take(i as int)),
            decreases self.objects.len() - i,
        {
            let o = &self.objects[i].1;
            let ghost before = r@;
            let ghost ov = self@[i as int].1;
            assert(ov == o@);
            assert(edges_drawable(ov));
            assert(self@.take(i as int + 1).drop_last() =~= self@.take(i as int));
            let mut k: usize = 0;
            while k < o.edges.len()
                invariant
                    edges_drawable(o@),
                    k <= o.edges.len(),
                    r@.len() == before.len() + k,
                    forall|j: int| 0 <= j < before.len() ==> #[trigger] r@[j] == before[j],
                    forall|j: int|
                        before.len() <= j < before.len() + k ==> #[trigger] r@[j] == segment_of(
                            o@,
                            o.edges@[j - before.len()],
                        ),
                decreases o.edges.len() - k,
            {
                assert(o@.edges[k as int] == o.edges@[k as int]);
                r.push(segment(o, &o.edges[k]));
                k = k + 1;
            }
            assert(r@ =~= before + o@.edges.map_values(|e: Edge| segment_of(o@, e)));
            i = i + 1;
        }
        assert(self@.take(self.objects.len() as int) =~= self@);
        r
    }

    /// The closed outlines to draw, one per face, object by object: the points of
    /// the face's vertices in order, then its first point again.
    pub fn outlines(&self) -> (r: Vec<Vec<Point2>>)
        requires
            self.outlines_ready(),
        ensures
            r@.map_values(|p: Vec<Point2>| p@) == screen_outlines(self@),
    {
        let mut r: Vec<Vec<Point2>> = Vec::new();
        let mut i: usize = 0;
        while i < self.objects.len()
            invariant
                self.outlines_ready(),
                i <= self.objects.len(),
                r@.map_values(|p: Vec<Point2>| p@) == screen_outlines(self@.take(i as int)),
            decreases self.objects.len() - i,
        {
            let o = &self.objects[i].1;
            let ghost before = r@.map_values(|p: Vec<Point2>| p@);
            let ghost ov = self@[i as int].1;
            assert(ov == o@);
            assert(faces_drawable(ov));
            assert(self@.take(i as int + 1).drop_last() =~= self@.take(i as int));
            let mut k: usize = 0;
            while k < o.faces.len()
                invariant
                    faces_drawable(o@),
                    k <= o.faces.len(),
                    r@.len() == before.len() + k,
                    forall|j: int| 0 <= j < before.len() ==> #[trigger] r@[j]@ == before[j],
                    forall|j: int|
                        before.len() <= j < before.len() + k ==> #[trigger] r@[j]@ == outline_of(
                            o@,
                            o.faces@[j - before.len()]@,
                        ),
                decreases o.faces.len() - k,
            {
                assert(o@.faces[k as int] == o.faces@[k as int]@);
                r.push(outline(o, &o.faces[k]));
                k = k + 1;
            }
            assert(r@.map_values(|p: Vec<Point2>| p@) =~= before + o@.faces.map_values(
                |f: FaceView| outline_of(o@, f),
            ));
            i = i + 1;
        }
        assert(self@.take(self.objects.len() as int) =~= self@);
        r
    }
}

} // verus!
