use vstd::prelude::*;
use crate::buffer::MAX_VERTICES;
use crate::buffer::MeshBuffer;
use crate::buffer::MeshError;
use crate::buffer::MeshView;
use crate::buffer::Vec2i;
use crate::buffer::Vec3i;
use crate::buffer::empty_mesh;
use crate::buffer::wf_mesh;
use crate::direction::AADirection;

verus! {

/// One rectangular face to emit: its direction, the voxel coordinate of its
/// origin (minimum) corner, and its extent in voxel units along the two axes
/// perpendicular to the direction. A unit voxel face has extent (1, 1).
pub ghost struct FaceRec {
    pub d: AADirection,
    pub x: int,
    pub y: int,
    pub z: int,
    pub w: int,
    pub h: int,
}

impl FaceRec {
    /// The face lies inside the chunk and has a nonempty extent no larger
    /// than one chunk side.
    pub open spec fn wf(self) -> bool {
        &&& 0 <= self.x < 16 && 0 <= self.y < 16 && 0 <= self.z < 16
        &&& 1 <= self.w <= 16 && 1 <= self.h <= 16
        &&& self.d.axis() == 0 ==> self.y + self.w <= 16 && self.z + self.h <= 16
        &&& self.d.axis() == 1 ==> self.x + self.w <= 16 && self.z + self.h <= 16
        &&& self.d.axis() == 2 ==> self.x + self.w <= 16 && self.y + self.h <= 16
    }
}

/// An exec-level face rectangle, as the meshing strategies hand it to the
/// emitter.
#[derive(Copy, Clone, PartialEq, Eq, Structural, Debug)]
pub struct QuadFace {
    pub d: AADirection,
    pub x: usize,
    pub y: usize,
    pub z: usize,
    pub w: usize,
    pub h: usize,
}

impl View for QuadFace {
    type V = FaceRec;

    open spec fn view(&self) -> FaceRec {
        FaceRec {
            d: self.d,
            x: self.x as int,
            y: self.y as int,
            z: self.z as int,
            w: self.w as int,
            h: self.h as int,
        }
    }
}

/// The faces a quad list stands for.
pub open spec fn faces_of(qs: Seq<QuadFace>) -> Seq<FaceRec> {
    Seq::new(qs.len(), |i: int| qs[i]@)
}

/// Offset of corner k (0..4) along the face's first perpendicular axis:
/// corners run (0,0), (w,0), (w,h), (0,h).
pub open spec fn corner_u(k: int, w: int) -> int {
    if k == 1 || k == 2 {
        w
    } else {
        0
    }
}

/// Offset of corner k along the face's second perpendicular axis.
pub open spec fn corner_v(k: int, h: int) -> int {
    if k == 2 || k == 3 {
        h
    } else {
        0
    }
}

/// Position of corner k of a face: the origin voxel coordinate plus the
/// corner offsets along the two perpendicular axes; the coordinate along the
/// face's own axis is origin + 1 for positive directions (the far side of
/// the origin voxel) and origin for negative ones.
pub open spec fn face_vertex(f: FaceRec, k: int) -> Vec3i {
    let u = corner_u(k, f.w);
    let v = corner_v(k, f.h);
    let p = if f.d.spec_positive() {
        1int
    } else {
        0int
    };
    if f.d.axis() == 0 {
        Vec3i { x: (f.x + p) as i32, y: (f.y + u) as i32, z: (f.z + v) as i32 }
    } else if f.d.axis() == 1 {
        Vec3i { x: (f.x + u) as i32, y: (f.y + p) as i32, z: (f.z + v) as i32 }
    } else {
        Vec3i { x: (f.x + u) as i32, y: (f.y + v) as i32, z: (f.z + p) as i32 }
    }
}

/// The outward unit normal of every vertex of a face in direction d.
pub open spec fn dir_normal(d: AADirection) -> Vec3i {
    Vec3i { x: d.offset_x() as i32, y: d.offset_y() as i32, z: d.offset_z() as i32 }
}

/// UV of corner k: the raw rectangle extents in texel units, spanning
/// [0, w] x [0, h]; per-material texture scaling is the host's concern.
pub open spec fn face_uv(k: int, w: int, h: int) -> Vec2i {
    Vec2i { x: corner_u(k, w) as i32, y: corner_v(k, h) as i32 }
}

/// Whether direction d uses the corner order as-is for its two triangles.
/// The corner loop is counter-clockwise in (u, v) space, which faces outward
/// exactly for X+, Y- and Z-; the other three flip the winding so that the
/// triangles face outward too.
pub open spec fn standard_winding(d: AADirection) -> bool {
    d.spec_positive() == (d.axis() != 1)
}

/// The corner picked by the j-th (0..6) emitted index of a face: triangles
/// (0,1,2) and (2,3,0), with the middle corners swapped where the winding
/// flips.
pub open spec fn winding_offset(d: AADirection, j: int) -> int {
    if standard_winding(d) {
        if j == 0 {
            0
        } else if j == 1 {
            1
        } else if j == 2 {
            2
        } else if j == 3 {
            2
        } else if j == 4 {
            3
        } else {
            0
        }
    } else {
        if j == 0 {
            0
        } else if j == 1 {
            2
        } else if j == 2 {
            1
        } else if j == 3 {
            2
        } else if j == 4 {
            0
        } else {
            3
        }
    }
}

/// The six indices of a face whose first vertex sits at `base`.
pub open spec fn face_indices(d: AADirection, base: int) -> Seq<u16> {
    Seq::new(6, |j: int| (base + winding_offset(d, j)) as u16)
}

/// What one emitter call appends: 4 vertices and 6 indices based at the
/// buffer's vertex count at call time.
pub open spec fn emit_face(m: MeshView, f: FaceRec) -> MeshView {
    MeshView {
        positions: m.positions + Seq::new(4, |k: int| face_vertex(f, k)),
        normals: m.normals + Seq::new(4, |k: int| dir_normal(f.d)),
        uvs: m.uvs + Seq::new(4, |k: int| face_uv(k, f.w, f.h)),
        indices: m.indices + face_indices(f.d, m.positions.len() as int),
    }
}

/// The buffer contents produced by emitting the given faces in order into a
/// fresh buffer.
pub open spec fn render(faces: Seq<FaceRec>) -> MeshView
    decreases faces.len(),
{
    if faces.len() == 0 {
        empty_mesh()
    } else {
        emit_face(render(faces.drop_last()), faces.last())
    }
}

/// Appends one rectangular face to the buffer: exactly 4 vertices (with the
/// outward normal of `direction` and UVs spanning the rectangle extents) and
/// 6 indices forming two consistently wound triangles, based at the buffer's
/// current vertex count, so sequential calls append without collision.
pub fn insert_face(
    direction: AADirection,
    x: usize,
    y: usize,
    z: usize,
    w: usize,
    h: usize,
    mesh: &mut MeshBuffer,
)
    requires
        x < 16,
        y < 16,
        z < 16,
        1 <= w <= 16,
        1 <= h <= 16,
        old(mesh)@.positions.len() + 4 <= MAX_VERTICES,
    ensures
        final(mesh)@ == emit_face(
            old(mesh)@,
            FaceRec { d: direction, x: x as int, y: y as int, z: z as int, w: w as int, h: h as int },
        ),
{
    let ghost f = FaceRec {
        d: direction,
        x: x as int,
        y: y as int,
        z: z as int,
        w: w as int,
        h: h as int,
    };
    let ghost m0 = old(mesh)@;
    let base = mesh.vertex_count();
    let a = direction.axis_index();
    let positive = direction.is_positive();
    let nx: i32 = if a == 0 { if positive { 1 } else { -1 } } else { 0 };
    let ny: i32 = if a == 1 { if positive { 1 } else { -1 } } else { 0 };
    let nz: i32 = if a == 2 { if positive { 1 } else { -1 } } else { 0 };
    let normal = Vec3i { x: nx, y: ny, z: nz };
    assert(normal == dir_normal(direction));
    let p: usize = if positive { 1 } else { 0 };
    let mut k: usize = 0;
    while k < 4
        invariant
            k <= 4,
            x < 16,
            y < 16,
            z < 16,
            w <= 16,
            h <= 16,
            p == if f.d.spec_positive() { 1int } else { 0int },
            a == f.d.axis(),
            normal == dir_normal(f.d),
            f == (FaceRec {
                d: f.d,
                x: x as int,
                y: y as int,
                z: z as int,
                w: w as int,
                h: h as int,
            }),
            mesh@.positions == m0.positions + Seq::new(k as nat, |i: int| face_vertex(f, i)),
            mesh@.normals == m0.normals + Seq::new(k as nat, |i: int| dir_normal(f.d)),
            mesh@.uvs == m0.uvs + Seq::new(k as nat, |i: int| face_uv(i, f.w, f.h)),
            mesh@.indices == m0.indices,
        decreases 4 - k,
    {
        let cu: usize = if k == 1 || k == 2 { w } else { 0 };
        let cv: usize = if k == 2 || k == 3 { h } else { 0 };
        let corner = if a == 0 {
            Vec3i { x: (x + p) as i32, y: (y + cu) as i32, z: (z + cv) as i32 }
        } else if a == 1 {
            Vec3i { x: (x + cu) as i32, y: (y + p) as i32, z: (z + cv) as i32 }
        } else {
            Vec3i { x: (x + cu) as i32, y: (y + cv) as i32, z: (z + p) as i32 }
        };
        let uv = Vec2i { x: cu as i32, y: cv as i32 };
        assert(corner == face_vertex(f, k as int));
        assert(uv == face_uv(k as int, f.w, f.h));
        mesh.push_vertex(corner, normal, uv);
        proof {
            assert(mesh@.positions =~= m0.positions + Seq::new(
                (k + 1) as nat,
                |i: int| face_vertex(f, i),
            ));
            assert(mesh@.normals =~= m0.normals + Seq::new(
                (k + 1) as nat,
                |i: int| dir_normal(f.d),
            ));
            assert(mesh@.uvs =~= m0.uvs + Seq::new(
                (k + 1) as nat,
                |i: int| face_uv(i, f.w, f.h),
            ));
        }
        k = k + 1;
    }
    let standard = (a != 1) == positive;
    assert(standard == standard_winding(f.d));
    let o1: usize = if standard { 1 } else { 2 };
    let o2: usize = if standard { 2 } else { 1 };
    let o4: usize = if standard { 3 } else { 0 };
    let o5: usize = if standard { 0 } else { 3 };
    mesh.push_index(base as u16);
    mesh.push_index((base + o1) as u16);
    mesh.push_index((base + o2) as u16);
    mesh.push_index((base + 2) as u16);
    mesh.push_index((base + o4) as u16);
    mesh.push_index((base + o5) as u16);
    proof {
        assert(mesh@.indices =~= m0.indices + face_indices(f.d, m0.positions.len() as int));
        assert(mesh@.positions =~= emit_face(m0, f).positions);
        assert(mesh@.normals =~= emit_face(m0, f).normals);
        assert(mesh@.uvs =~= emit_face(m0, f).uvs);
    }
}

/// The integer cross product of (b - a) and (c - a): the unnormalized
/// geometric normal of triangle (a, b, c), its sign given by the winding.
pub open spec fn triangle_cross(a: Vec3i, b: Vec3i, c: Vec3i) -> (int, int, int) {
    let ex = b.x - a.x;
    let ey = b.y - a.y;
    let ez = b.z - a.z;
    let fx = c.x - a.x;
    let fy = c.y - a.y;
    let fz = c.z - a.z;
    (ey * fz - ez * fy, ez * fx - ex * fz, ex * fy - ey * fx)
}

/// Evaluates the triangle cross product from the two edge vectors.
proof fn lemma_cross_eval(a: Vec3i, b: Vec3i, c: Vec3i, ex: int, ey: int, ez: int, fx: int, fy: int, fz: int)
    requires
        b.x - a.x == ex,
        b.y - a.y == ey,
        b.z - a.z == ez,
        c.x - a.x == fx,
        c.y - a.y == fy,
        c.z - a.z == fz,
    ensures
        triangle_cross(a, b, c) == (ey * fz - ez * fy, ez * fx - ex * fz, ex * fy - ey * fx),
{
}

/// Winding and normal consistency: the two triangles of an emitted quad
/// share one geometric normal, the face area times the direction's unit
/// normal, so both face outward along the emission direction; every stored
/// vertex normal is that unit normal by construction.
#[verifier::spinoff_prover]
#[verifier::rlimit(50)]
pub proof fn lemma_quad_winding(f: FaceRec)
    requires
        f.wf(),
    ensures
        ({
            let n = dir_normal(f.d);
            let area = f.w * f.h;
            &&& triangle_cross(
                face_vertex(f, winding_offset(f.d, 0)),
                face_vertex(f, winding_offset(f.d, 1)),
                face_vertex(f, winding_offset(f.d, 2)),
            ) == (area * n.x, area * n.y, area * n.z)
            &&& triangle_cross(
                face_vertex(f, winding_offset(f.d, 3)),
                face_vertex(f, winding_offset(f.d, 4)),
                face_vertex(f, winding_offset(f.d, 5)),
            ) == (area * n.x, area * n.y, area * n.z)
        }),
{
    let n = dir_normal(f.d);
    let area = f.w * f.h;
    let a1 = face_vertex(f, winding_offset(f.d, 0));
    let b1 = face_vertex(f, winding_offset(f.d, 1));
    let c1 = face_vertex(f, winding_offset(f.d, 2));
    let a2 = face_vertex(f, winding_offset(f.d, 3));
    let b2 = face_vertex(f, winding_offset(f.d, 4));
    let c2 = face_vertex(f, winding_offset(f.d, 5));
    match f.d {
        AADirection::XPositive => {
            assert((f.x + 1) as i32 == f.x + 1 && f.x as i32 == f.x);
            assert((f.y + f.w) as i32 == f.y + f.w && f.y as i32 == f.y);
            assert((f.z + f.h) as i32 == f.z + f.h && f.z as i32 == f.z);
            assert(n.x == 1 && n.y == 0 && n.z == 0);
            lemma_cross_eval(a1, b1, c1, 0, f.w, 0, 0, f.w, f.h);
            assert(triangle_cross(a1, b1, c1).0 == f.w * f.h - 0 * f.w);
            assert(f.w * f.h - 0 * f.w == area * n.x) by (nonlinear_arith)
                requires
                    area == f.w * f.h, n.x == 1, n.y == 0, n.z == 0,
            ;
            assert(triangle_cross(a1, b1, c1).1 == 0 * 0 - 0 * f.h);
            assert(0 * 0 - 0 * f.h == area * n.y) by (nonlinear_arith)
                requires
                    area == f.w * f.h, n.x == 1, n.y == 0, n.z == 0,
            ;
            assert(triangle_cross(a1, b1, c1).2 == 0 * f.w - f.w * 0);
            assert(0 * f.w - f.w * 0 == area * n.z) by (nonlinear_arith)
                requires
                    area == f.w * f.h, n.x == 1, n.y == 0, n.z == 0,
            ;
            assert(triangle_cross(a1, b1, c1) == (area * n.x, area * n.y, area * n.z));
            lemma_cross_eval(a2, b2, c2, 0, (-f.w), 0, 0, (-f.w), (-f.h));
            assert(triangle_cross(a2, b2, c2).0 == (-f.w) * (-f.h) - 0 * (-f.w));
            assert((-f.w) * (-f.h) - 0 * (-f.w) == area * n.x) by (nonlinear_arith)
                requires
                    area == f.w * f.h, n.x == 1, n.y == 0, n.z == 0,
            ;
            assert(triangle_cross(a2, b2, c2).1 == 0 * 0 - 0 * (-f.h));
            assert(0 * 0 - 0 * (-f.h) == area * n.y) by (nonlinear_arith)
                requires
                    area == f.w * f.h, n.x == 1, n.y == 0, n.z == 0,
            ;
            assert(triangle_cross(a2, b2, c2).2 == 0 * (-f.w) - (-f.w) * 0);
            assert(0 * (-f.w) - (-f.w) * 0 == area * n.z) by (nonlinear_arith)
                requires
                    area == f.w * f.h, n.x == 1, n.y == 0, n.z == 0,
            ;
            assert(triangle_cross(a2, b2, c2) == (area * n.x, area * n.y, area * n.z));
        },
        AADirection::XNegative => {
            assert((f.x + 1) as i32 == f.x + 1 && f.x as i32 == f.x);
            assert((f.y + f.w) as i32 == f.y + f.w && f.y as i32 == f.y);
            assert((f.z + f.h) as i32 == f.z + f.h && f.z as i32 == f.z);
            assert(n.x == -1 && n.y == 0 && n.z == 0);
            lemma_cross_eval(a1, b1, c1, 0, f.w, f.h, 0, f.w, 0);
            assert(triangle_cross(a1, b1, c1).0 == f.w * 0 - f.h * f.w);
            assert(f.w * 0 - f.h * f.w == area * n.x) by (nonlinear_arith)
                requires
                    area == f.w * f.h, n.x == -1, n.y == 0, n.z == 0,
            ;
            assert(triangle_cross(a1, b1, c1).1 == f.h * 0 - 0 * 0);
            assert(f.h * 0 - 0 * 0 == area * n.y) by (nonlinear_arith)
                requires
                    area == f.w * f.h, n.x == -1, n.y == 0, n.z == 0,
            ;
            assert(triangle_cross(a1, b1, c1).2 == 0 * f.w - f.w * 0);
            assert(0 * f.w - f.w * 0 == area * n.z) by (nonlinear_arith)
                requires
                    area == f.w * f.h, n.x == -1, n.y == 0, n.z == 0,
            ;
            assert(triangle_cross(a1, b1, c1) == (area * n.x, area * n.y, area * n.z));
            lemma_cross_eval(a2, b2, c2, 0, (-f.w), (-f.h), 0, (-f.w), 0);
            assert(triangle_cross(a2, b2, c2).0 == (-f.w) * 0 - (-f.h) * (-f.w));
            assert((-f.w) * 0 - (-f.h) * (-f.w) == area * n.x) by (nonlinear_arith)
                requires
                    area == f.w * f.h, n.x == -1, n.y == 0, n.z == 0,
            ;
            assert(triangle_cross(a2, b2, c2).1 == (-f.h) * 0 - 0 * 0);
            assert((-f.h) * 0 - 0 * 0 == area * n.y) by (nonlinear_arith)
                requires
                    area == f.w * f.h, n.x == -1, n.y == 0, n.z == 0,
            ;
            assert(triangle_cross(a2, b2, c2).2 == 0 * (-f.w) - (-f.w) * 0);
            assert(0 * (-f.w) - (-f.w) * 0 == area * n.z) by (nonlinear_arith)
                requires
                    area == f.w * f.h, n.x == -1, n.y == 0, n.z == 0,
            ;
            assert(triangle_cross(a2, b2, c2) == (area * n.x, area * n.y, area * n.z));
        },
        AADirection::YPositive => {
            assert((f.y + 1) as i32 == f.y + 1 && f.y as i32 == f.y);
            assert((f.x + f.w) as i32 == f.x + f.w && f.x as i32 == f.x);
            assert((f.z + f.h) as i32 == f.z + f.h && f.z as i32 == f.z);
            assert(n.x == 0 && n.y == 1 && n.z == 0);
            lemma_cross_eval(a1, b1, c1, f.w, 0, f.h, f.w, 0, 0);
            assert(triangle_cross(a1, b1, c1).0 == 0 * 0 - f.h * 0);
            assert(0 * 0 - f.h * 0 == area * n.x) by (nonlinear_arith)
                requires
                    area == f.w * f.h, n.x == 0, n.y == 1, n.z == 0,
            ;
            assert(triangle_cross(a1, b1, c1).1 == f.h * f.w - f.w * 0);
            assert(f.h * f.w - f.w * 0 == area * n.y) by (nonlinear_arith)
                requires
                    area == f.w * f.h, n.x == 0, n.y == 1, n.z == 0,
            ;
            assert(triangle_cross(a1, b1, c1).2 == f.w * 0 - 0 * f.w);
            assert(f.w * 0 - 0 * f.w == area * n.z) by (nonlinear_arith)
                requires
                    area == f.w * f.h, n.x == 0, n.y == 1, n.z == 0,
            ;
            assert(triangle_cross(a1, b1, c1) == (area * n.x, area * n.y, area * n.z));
            lemma_cross_eval(a2, b2, c2, (-f.w), 0, (-f.h), (-f.w), 0, 0);
            assert(triangle_cross(a2, b2, c2).0 == 0 * 0 - (-f.h) * 0);
            assert(0 * 0 - (-f.h) * 0 == area * n.x) by (nonlinear_arith)
                requires
                    area == f.w * f.h, n.x == 0, n.y == 1, n.z == 0,
            ;
            assert(triangle_cross(a2, b2, c2).1 == (-f.h) * (-f.w) - (-f.w) * 0);
            assert((-f.h) * (-f.w) - (-f.w) * 0 == area * n.y) by (nonlinear_arith)
                requires
                    area == f.w * f.h, n.x == 0, n.y == 1, n.z == 0,
            ;
            assert(triangle_cross(a2, b2, c2).2 == (-f.w) * 0 - 0 * (-f.w));
            assert((-f.w) * 0 - 0 * (-f.w) == area * n.z) by (nonlinear_arith)
                requires
                    area == f.w * f.h, n.x == 0, n.y == 1, n.z == 0,
            ;
            assert(triangle_cross(a2, b2, c2) == (area * n.x, area * n.y, area * n.z));
        },
        AADirection::YNegative => {
            assert((f.y + 1) as i32 == f.y + 1 && f.y as i32 == f.y);
            assert((f.x + f.w) as i32 == f.x + f.w && f.x as i32 == f.x);
            assert((f.z + f.h) as i32 == f.z + f.h && f.z as i32 == f.z);
            assert(n.x == 0 && n.y == -1 && n.z == 0);
            lemma_cross_eval(a1, b1, c1, f.w, 0, 0, f.w, 0, f.h);
            assert(triangle_cross(a1, b1, c1).0 == 0 * f.h - 0 * 0);
            assert(0 * f.h - 0 * 0 == area * n.x) by (nonlinear_arith)
                requires
                    area == f.w * f.h, n.x == 0, n.y == -1, n.z == 0,
            ;
            assert(triangle_cross(a1, b1, c1).1 == 0 * f.w - f.w * f.h);
            assert(0 * f.w - f.w * f.h == area * n.y) by (nonlinear_arith)
                requires
                    area == f.w * f.h, n.x == 0, n.y == -1, n.z == 0,
            ;
            assert(triangle_cross(a1, b1, c1).2 == f.w * 0 - 0 * f.w);
            assert(f.w * 0 - 0 * f.w == area * n.z) by (nonlinear_arith)
                requires
                    area == f.w * f.h, n.x == 0, n.y == -1, n.z == 0,
            ;
            assert(triangle_cross(a1, b1, c1) == (area * n.x, area * n.y, area * n.z));
            lemma_cross_eval(a2, b2, c2, (-f.w), 0, 0, (-f.w), 0, (-f.h));
            assert(triangle_cross(a2, b2, c2).0 == 0 * (-f.h) - 0 * 0);
            assert(0 * (-f.h) - 0 * 0 == area * n.x) by (nonlinear_arith)
                requires
                    area == f.w * f.h, n.x == 0, n.y == -1, n.z == 0,
            ;
            assert(triangle_cross(a2, b2, c2).1 == 0 * (-f.w) - (-f.w) * (-f.h));
            assert(0 * (-f.w) - (-f.w) * (-f.h) == area * n.y) by (nonlinear_arith)
                requires
                    area == f.w * f.h, n.x == 0, n.y == -1, n.z == 0,
            ;
            assert(triangle_cross(a2, b2, c2).2 == (-f.w) * 0 - 0 * (-f.w));
            assert((-f.w) * 0 - 0 * (-f.w) == area * n.z) by (nonlinear_arith)
                requires
                    area == f.w * f.h, n.x == 0, n.y == -1, n.z == 0,
            ;
            assert(triangle_cross(a2, b2, c2) == (area * n.x, area * n.y, area * n.z));
        },
        AADirection::ZPositive => {
            assert((f.z + 1) as i32 == f.z + 1 && f.z as i32 == f.z);
            assert((f.x + f.w) as i32 == f.x + f.w && f.x as i32 == f.x);
            assert((f.y + f.h) as i32 == f.y + f.h && f.y as i32 == f.y);
            assert(n.x == 0 && n.y == 0 && n.z == 1);
            lemma_cross_eval(a1, b1, c1, f.w, 0, 0, f.w, f.h, 0);
            assert(triangle_cross(a1, b1, c1).0 == 0 * 0 - 0 * f.h);
            assert(0 * 0 - 0 * f.h == area * n.x) by (nonlinear_arith)
                requires
                    area == f.w * f.h, n.x == 0, n.y == 0, n.z == 1,
            ;
            assert(triangle_cross(a1, b1, c1).1 == 0 * f.w - f.w * 0);
            assert(0 * f.w - f.w * 0 == area * n.y) by (nonlinear_arith)
                requires
                    area == f.w * f.h, n.x == 0, n.y == 0, n.z == 1,
            ;
            assert(triangle_cross(a1, b1, c1).2 == f.w * f.h - 0 * f.w);
            assert(f.w * f.h - 0 * f.w == area * n.z) by (nonlinear_arith)
                requires
                    area == f.w * f.h, n.x == 0, n.y == 0, n.z == 1,
            ;
            assert(triangle_cross(a1, b1, c1) == (area * n.x, area * n.y, area * n.z));
            lemma_cross_eval(a2, b2, c2, (-f.w), 0, 0, (-f.w), (-f.h), 0);
            assert(triangle_cross(a2, b2, c2).0 == 0 * 0 - 0 * (-f.h));
            assert(0 * 0 - 0 * (-f.h) == area * n.x) by (nonlinear_arith)
                requires
                    area == f.w * f.h, n.x == 0, n.y == 0, n.z == 1,
            ;
            assert(triangle_cross(a2, b2, c2).1 == 0 * (-f.w) - (-f.w) * 0);
            assert(0 * (-f.w) - (-f.w) * 0 == area * n.y) by (nonlinear_arith)
                requires
                    area == f.w * f.h, n.x == 0, n.y == 0, n.z == 1,
            ;
            assert(triangle_cross(a2, b2, c2).2 == (-f.w) * (-f.h) - 0 * (-f.w));
            assert((-f.w) * (-f.h) - 0 * (-f.w) == area * n.z) by (nonlinear_arith)
                requires
                    area == f.w * f.h, n.x == 0, n.y == 0, n.z == 1,
            ;
            assert(triangle_cross(a2, b2, c2) == (area * n.x, area * n.y, area * n.z));
        },
        AADirection::ZNegative => {
            assert((f.z + 1) as i32 == f.z + 1 && f.z as i32 == f.z);
            assert((f.x + f.w) as i32 == f.x + f.w && f.x as i32 == f.x);
            assert((f.y + f.h) as i32 == f.y + f.h && f.y as i32 == f.y);
            assert(n.x == 0 && n.y == 0 && n.z == -1);
            lemma_cross_eval(a1, b1, c1, f.w, f.h, 0, f.w, 0, 0);
            assert(triangle_cross(a1, b1, c1).0 == f.h * 0 - 0 * 0);
            assert(f.h * 0 - 0 * 0 == area * n.x) by (nonlinear_arith)
                requires
                    area == f.w * f.h, n.x == 0, n.y == 0, n.z == -1,
            ;
            assert(triangle_cross(a1, b1, c1).1 == 0 * f.w - f.w * 0);
            assert(0 * f.w - f.w * 0 == area * n.y) by (nonlinear_arith)
                requires
                    area == f.w * f.h, n.x == 0, n.y == 0, n.z == -1,
            ;
            assert(triangle_cross(a1, b1, c1).2 == f.w * 0 - f.h * f.w);
            assert(f.w * 0 - f.h * f.w == area * n.z) by (nonlinear_arith)
                requires
                    area == f.w * f.h, n.x == 0, n.y == 0, n.z == -1,
            ;
            assert(triangle_cross(a1, b1, c1) == (area * n.x, area * n.y, area * n.z));
            lemma_cross_eval(a2, b2, c2, (-f.w), (-f.h), 0, (-f.w), 0, 0);
            assert(triangle_cross(a2, b2, c2).0 == (-f.h) * 0 - 0 * 0);
            assert((-f.h) * 0 - 0 * 0 == area * n.x) by (nonlinear_arith)
                requires
                    area == f.w * f.h, n.x == 0, n.y == 0, n.z == -1,
            ;
            assert(triangle_cross(a2, b2, c2).1 == 0 * (-f.w) - (-f.w) * 0);
            assert(0 * (-f.w) - (-f.w) * 0 == area * n.y) by (nonlinear_arith)
                requires
                    area == f.w * f.h, n.x == 0, n.y == 0, n.z == -1,
            ;
            assert(triangle_cross(a2, b2, c2).2 == (-f.w) * 0 - (-f.h) * (-f.w));
            assert((-f.w) * 0 - (-f.h) * (-f.w) == area * n.z) by (nonlinear_arith)
                requires
                    area == f.w * f.h, n.x == 0, n.y == 0, n.z == -1,
            ;
            assert(triangle_cross(a2, b2, c2) == (area * n.x, area * n.y, area * n.z));
        },
    }
}

/// Rendering any face list keeps the buffer invariants, and appends exactly
/// 4 vertices and 6 indices per face.
pub proof fn lemma_render_wf(faces: Seq<FaceRec>)
    ensures
        wf_mesh(render(faces)),
        render(faces).positions.len() == 4 * faces.len(),
        render(faces).normals.len() == 4 * faces.len(),
        render(faces).uvs.len() == 4 * faces.len(),
        render(faces).indices.len() == 6 * faces.len(),
    decreases faces.len(),
{
    if faces.len() == 0 {
    } else {
        lemma_render_wf(faces.drop_last());
        let m = render(faces.drop_last());
        let r = render(faces);
        assert(r == emit_face(m, faces.last()));
        assert forall|j: int| 0 <= j < r.indices.len() implies (#[trigger] r.indices[j])
            < r.positions.len() by {
            if j < m.indices.len() {
                assert(r.indices[j] == m.indices[j]);
            } else {
                let base = m.positions.len() as int;
                let off = winding_offset(faces.last().d, j - m.indices.len());
                assert(r.indices[j] == (base + off) as u16);
                assert(0 <= off <= 3);
                if base + 3 <= u16::MAX {
                    assert((base + off) as u16 == base + off);
                } else {
                    assert((base + off) as u16 <= u16::MAX < base + 4);
                }
            }
        }
    }
}

/// Renders a quad list into a fresh buffer, checking the vertex budget: the
/// result is exactly the rendering of the list, or `VertexBudgetExceeded`
/// exactly when the list needs more than the 16-bit index space, in which
/// case nothing is returned rather than truncated geometry.
pub fn build_buffer(quads: &Vec<QuadFace>) -> (r: Result<MeshBuffer, MeshError>)
    requires
        forall|i: int| 0 <= i < quads@.len() ==> (#[trigger] quads@[i])@.wf(),
    ensures
        match r {
            Ok(b) => {
                &&& b@ == render(faces_of(quads@))
                &&& wf_mesh(b@)
                &&& 4 * quads@.len() <= MAX_VERTICES
            },
            Err(e) => {
                &&& e == MeshError::VertexBudgetExceeded
                &&& 4 * quads@.len() > MAX_VERTICES
            },
        },
{
    let ghost faces = faces_of(quads@);
    let mut mesh = MeshBuffer::new();
    let mut i: usize = 0;
    proof {
        assert(faces.take(0) =~= Seq::<FaceRec>::empty());
    }
    while i < quads.len()
        invariant
            i <= quads@.len(),
            faces == faces_of(quads@),
            faces.len() == quads@.len(),
            forall|j: int| 0 <= j < quads@.len() ==> (#[trigger] quads@[j])@.wf(),
            mesh@ == render(faces.take(i as int)),
            mesh@.positions.len() == 4 * i,
            4 * i <= MAX_VERTICES,
        decreases quads@.len() - i,
    {
        if i >= MAX_VERTICES / 4 {
            return Err(MeshError::VertexBudgetExceeded);
        }
        let q = quads[i];
        insert_face(q.d, q.x, q.y, q.z, q.w, q.h, &mut mesh);
        proof {
            assert(faces.take(i + 1).drop_last() =~= faces.take(i as int));
            assert(faces.take(i + 1).last() == q@);
            assert(render(faces.take(i + 1)) == emit_face(render(faces.take(i as int)), q@));
        }
        i = i + 1;
    }
    proof {
        assert(faces.take(quads@.len() as int) =~= faces);
        lemma_render_wf(faces);
    }
    Ok(mesh)
}

} // verus!
