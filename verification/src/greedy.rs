use vstd::prelude::*;
use crate::buffer::MAX_VERTICES;
use crate::buffer::MeshBuffer;
use crate::buffer::MeshError;
use crate::buffer::MeshView;
use crate::buffer::wf_mesh;
use crate::chunk::Block;
use crate::chunk::Chunk;
use crate::direction::AADirection;
use crate::emitter::FaceRec;
use crate::emitter::faces_of;
use crate::emitter::QuadFace;
use crate::emitter::build_buffer;
use crate::emitter::render;
use crate::mesher::ChunkMesher;
use crate::material::Material;
use crate::material::MaterialID;
use crate::material::MaterialRegistry;
use crate::occlusion::NeighborSnapshot;
use crate::occlusion::face_visible;
use crate::occlusion::face_visible_at;
use crate::occlusion::mat_id_at;
use crate::occlusion::plane_index;
use crate::occlusion::plane_u;
use crate::occlusion::plane_v;

verus! {

/// X coordinate of the voxel at cell (u, v) of slice s perpendicular to d.
pub open spec fn slice_x(d: AADirection, s: int, u: int, v: int) -> int {
    if d.axis() == 0 {
        s
    } else {
        u
    }
}

/// Y coordinate of the voxel at cell (u, v) of slice s perpendicular to d.
pub open spec fn slice_y(d: AADirection, s: int, u: int, v: int) -> int {
    if d.axis() == 0 {
        u
    } else if d.axis() == 1 {
        s
    } else {
        v
    }
}

/// Z coordinate of the voxel at cell (u, v) of slice s perpendicular to d.
pub open spec fn slice_z(d: AADirection, s: int, u: int, v: int) -> int {
    if d.axis() == 2 {
        s
    } else {
        v
    }
}

/// The coordinate of (x, y, z) along d's own axis: which slice it lies in.
pub open spec fn axis_coord(d: AADirection, x: int, y: int, z: int) -> int {
    if d.axis() == 0 {
        x
    } else if d.axis() == 1 {
        y
    } else {
        z
    }
}

/// The 2D mask value of one slice cell: the voxel's material id where its
/// face toward d is visible, 0 (air: no face) otherwise. Keying the mask by
/// material identity keeps faces of different materials from merging.
pub open spec fn mask_cell(
    blocks: Seq<Block>,
    snap: Seq<Option<Seq<MaterialID>>>,
    reg: Seq<Material>,
    d: AADirection,
    s: int,
    u: int,
    v: int,
) -> u32 {
    if face_visible(
        blocks,
        snap,
        reg,
        slice_x(d, s, u, v),
        slice_y(d, s, u, v),
        slice_z(d, s, u, v),
        d,
    ) {
        mat_id_at(blocks, slice_x(d, s, u, v), slice_y(d, s, u, v), slice_z(d, s, u, v))
    } else {
        0
    }
}

/// The slice a face lies in: its origin coordinate along its own axis.
pub open spec fn face_slice(f: FaceRec) -> int {
    if f.d.axis() == 0 {
        f.x
    } else if f.d.axis() == 1 {
        f.y
    } else {
        f.z
    }
}

/// The face's origin along the first perpendicular axis.
pub open spec fn face_u0(f: FaceRec) -> int {
    if f.d.axis() == 0 {
        f.y
    } else {
        f.x
    }
}

/// The face's origin along the second perpendicular axis.
pub open spec fn face_v0(f: FaceRec) -> int {
    if f.d.axis() == 2 {
        f.y
    } else {
        f.z
    }
}

/// Whether slice cell (u, v) lies inside the face's rectangle.
pub open spec fn face_covers_cell(f: FaceRec, u: int, v: int) -> bool {
    face_u0(f) <= u < face_u0(f) + f.w && face_v0(f) <= v < face_v0(f) + f.h
}

/// Whether the unit voxel face of (x, y, z) toward f.d is part of face f.
pub open spec fn face_covers(f: FaceRec, x: int, y: int, z: int) -> bool {
    face_slice(f) == axis_coord(f.d, x, y, z) && face_covers_cell(
        f,
        plane_u(f.d, x, y, z),
        plane_v(f.d, x, y, z),
    )
}

/// Distinct directions have distinct table indices.
pub proof fn lemma_direction_index_injective(a: AADirection, b: AADirection)
    requires
        a.ix() == b.ix(),
    ensures
        a == b,
{
}

/// The cells of a w-by-h rectangle of slice cells based at (u, v).
pub open spec fn rect_set(u: int, v: int, w: int, h: int) -> Set<int> {
    Set::new(
        |k: int|
            exists|du: int, dv: int|
                0 <= du < w && 0 <= dv < h && k == #[trigger] plane_index(u + du, v + dv),
    )
}

/// Whether one whole row segment still matches material m with no cell
/// merged into an earlier rectangle.
pub open spec fn row_ok(mask: Seq<u32>, used: Set<int>, m: u32, u: int, w: int, row: int) -> bool {
    forall|du: int|
        0 <= du < w ==> #[trigger] mask[plane_index(u + du, row)] == m && !used.contains(
            plane_index(u + du, row),
        )
}

/// The width the scan reaches from (u, v): widen along the first
/// perpendicular axis while the material continues unmerged.
pub open spec fn grow_w(mask: Seq<u32>, used: Set<int>, m: u32, u: int, v: int, w: int) -> int
    decreases 16 - w,
{
    if w < 16 && u + w < 16 && mask[plane_index(u + w, v)] == m && !used.contains(
        plane_index(u + w, v),
    ) {
        grow_w(mask, used, m, u, v, w + 1)
    } else {
        w
    }
}

/// The height the scan then reaches: extend whole rows along the second
/// perpendicular axis while every cell of the row still matches.
pub open spec fn grow_h(
    mask: Seq<u32>,
    used: Set<int>,
    m: u32,
    u: int,
    w: int,
    v: int,
    h: int,
) -> int
    decreases 16 - h,
{
    if h < 16 && v + h < 16 && row_ok(mask, used, m, u, w, v + h) {
        grow_h(mask, used, m, u, w, v, h + 1)
    } else {
        h
    }
}

/// The state of the greedy scan of one slice after its first c cells: the
/// cells already merged, and the rectangles emitted so far in order. This
/// pins the strategy's tie-break: cells in row-major order, each unmerged
/// masked cell grown wide along the first perpendicular axis before it is
/// extended along the second.
pub open spec fn slice_step(mask: Seq<u32>, d: AADirection, s: int, c: int) -> (Set<int>, Seq<
    FaceRec,
>)
    decreases c,
{
    if c <= 0 {
        (Set::empty(), Seq::empty())
    } else {
        let prev = slice_step(mask, d, s, c - 1);
        let u = (c - 1) % 16;
        let v = (c - 1) / 16;
        let m = mask[c - 1];
        if m != 0 && !prev.0.contains(c - 1) {
            let w = grow_w(mask, prev.0, m, u, v, 1);
            let h = grow_h(mask, prev.0, m, u, w, v, 1);
            (
                prev.0.union(rect_set(u, v, w, h)),
                prev.1.push(
                    FaceRec {
                        d,
                        x: slice_x(d, s, u, v),
                        y: slice_y(d, s, u, v),
                        z: slice_z(d, s, u, v),
                        w,
                        h,
                    },
                ),
            )
        } else {
            prev
        }
    }
}

/// The rectangles the greedy scan emits for one slice, in emission order.
#[verifier::opaque]
pub open spec fn slice_faces(mask: Seq<u32>, d: AADirection, s: int) -> Seq<FaceRec> {
    slice_step(mask, d, s, 256).1
}

/// The visibility mask of one slice as the sequence of its 256 cells.
#[verifier::opaque]
pub open spec fn mask_seq(
    blocks: Seq<Block>,
    snap: Seq<Option<Seq<MaterialID>>>,
    reg: Seq<Material>,
    d: AADirection,
    s: int,
) -> Seq<u32> {
    Seq::new(256, |c: int| mask_cell(blocks, snap, reg, d, s, c % 16, c / 16))
}

/// The full deterministic greedy face list: the six directions in table
/// order, the 16 slices of each in order, each slice's rectangles in scan
/// order. The greedy strategy's output is exactly the rendering of this
/// list, so repeated generation over one state is bit-identical.
pub open spec fn greedy_faces_upto(
    blocks: Seq<Block>,
    snap: Seq<Option<Seq<MaterialID>>>,
    reg: Seq<Material>,
    t: int,
) -> Seq<FaceRec>
    decreases t,
{
    if t <= 0 {
        Seq::empty()
    } else {
        let d = AADirection::from_ix((t - 1) / 16);
        let s = (t - 1) % 16;
        greedy_faces_upto(blocks, snap, reg, t - 1) + slice_faces(
            mask_seq(blocks, snap, reg, d, s),
            d,
            s,
        )
    }
}

/// The complete greedy face list of one chunk state.
pub open spec fn greedy_faces(
    blocks: Seq<Block>,
    snap: Seq<Option<Seq<MaterialID>>>,
    reg: Seq<Material>,
) -> Seq<FaceRec> {
    greedy_faces_upto(blocks, snap, reg, 96)
}

/// Computes the visibility mask of slice s perpendicular to d.
pub fn build_mask(
    chunk: &Chunk,
    snap: &NeighborSnapshot,
    reg: &MaterialRegistry,
    d: AADirection,
    s: usize,
) -> (m: Vec<u32>)
    requires
        chunk.wf(),
        snap.wf(),
        reg.wf(),
        s < 16,
    ensures
        m@.len() == 256,
        forall|u: int, v: int|
            0 <= u < 16 && 0 <= v < 16 ==> m@[plane_index(u, v)] == mask_cell(
                chunk@.blocks,
                snap@,
                reg@,
                d,
                s as int,
                u,
                v,
            ),
        m@ == mask_seq(chunk@.blocks, snap@, reg@, d, s as int),
{
    let a = d.axis_index();
    let mut m: Vec<u32> = Vec::new();
    let mut v: usize = 0;
    while v < 16
        invariant
            v <= 16,
            a == d.axis(),
            s < 16,
            chunk.wf(),
            snap.wf(),
            reg.wf(),
            m@.len() == 16 * v,
            forall|u2: int, v2: int|
                0 <= u2 < 16 && 0 <= v2 < v ==> m@[plane_index(u2, v2)] == mask_cell(
                    chunk@.blocks,
                    snap@,
                    reg@,
                    d,
                    s as int,
                    u2,
                    v2,
                ),
        decreases 16 - v,
    {
        let mut u: usize = 0;
        while u < 16
            invariant
                u <= 16,
                v < 16,
                a == d.axis(),
                s < 16,
                chunk.wf(),
                snap.wf(),
                reg.wf(),
                m@.len() == 16 * v + u,
                forall|u2: int, v2: int|
                    0 <= u2 < 16 && 0 <= v2 < v ==> m@[plane_index(u2, v2)] == mask_cell(
                        chunk@.blocks,
                        snap@,
                        reg@,
                        d,
                        s as int,
                        u2,
                        v2,
                    ),
                forall|u2: int|
                    0 <= u2 < u ==> m@[plane_index(u2, v as int)] == mask_cell(
                        chunk@.blocks,
                        snap@,
                        reg@,
                        d,
                        s as int,
                        u2,
                        v as int,
                    ),
            decreases 16 - u,
        {
            let x = if a == 0 { s } else { u };
            let y = if a == 0 { u } else if a == 1 { s } else { v };
            let z = if a == 2 { s } else { v };
            let cell: u32 = if face_visible_at(chunk, snap, reg, x, y, z, d) {
                chunk.block_at(x, y, z).material.id
            } else {
                0
            };
            m.push(cell);
            u = u + 1;
        }
        v = v + 1;
    }
    proof {
        reveal(mask_seq);
        assert forall|cc: int|
            0 <= cc < 256 implies m@[cc] == mask_seq(chunk@.blocks, snap@, reg@, d, s as int)[cc] by {
            let u2 = cc % 16;
            let v2 = cc / 16;
            assert(0 <= u2 < 16 && 0 <= v2 < 16);
            assert(plane_index(u2, v2) == cc);
            assert(m@[plane_index(u2, v2)] == mask_cell(chunk@.blocks, snap@, reg@, d, s as int, u2, v2));
        }
        assert(m@ =~= mask_seq(chunk@.blocks, snap@, reg@, d, s as int));
    }
    m
}

/// Whether every cell of one row segment still matches material m and is
/// not yet merged into an earlier rectangle. The ghost set mirrors the
/// merged-cell flags.
fn row_all(
    mask: &Vec<u32>,
    used: &Vec<bool>,
    Ghost(uset): Ghost<Set<int>>,
    m: u32,
    u: usize,
    w: usize,
    row: usize,
) -> (r: bool)
    requires
        mask@.len() == 256,
        used@.len() == 256,
        1 <= w,
        u + w <= 16,
        row < 16,
        forall|k: int| 0 <= k < 256 ==> ((#[trigger] used@[k]) <==> uset.contains(k)),
    ensures
        r == row_ok(mask@, uset, m, u as int, w as int, row as int),
{
    let mut du: usize = 0;
    while du < w
        invariant
            du <= w,
            1 <= w,
            u + w <= 16,
            row < 16,
            mask@.len() == 256,
            used@.len() == 256,
            forall|k: int| 0 <= k < 256 ==> ((#[trigger] used@[k]) <==> uset.contains(k)),
            forall|j: int|
                0 <= j < du ==> #[trigger] mask@[plane_index(u + j, row as int)] == m
                    && !uset.contains(plane_index(u + j, row as int)),
        decreases w - du,
    {
        proof {
            assert(16 * row + u + du == plane_index(u + du, row as int));
            assert(0 <= plane_index(u + du, row as int) < 256);
        }
        if mask[16 * row + u + du] != m || used[16 * row + u + du] {
            proof {
                assert(!(mask@[plane_index(u + du, row as int)] == m && !uset.contains(
                    plane_index(u + du, row as int),
                )));
            }
            return false;
        }
        du = du + 1;
    }
    true
}

/// Greedily partitions the visible mask of one slice into maximal
/// material-uniform rectangles: scan cells row-major, widen along the first
/// perpendicular axis, then extend whole rows along the second, and emit
/// one face per rectangle. The emitted rectangles cover every masked cell
/// exactly once and never cross a material boundary.
#[verifier::spinoff_prover]
#[verifier::rlimit(80)]
pub fn greedy_slice(mask: &Vec<u32>, d: AADirection, s: usize) -> (q: Vec<QuadFace>)
    requires
        mask@.len() == 256,
        s < 16,
    ensures
        faces_of(q@) == slice_faces(mask@, d, s as int),
        forall|i: int|
            0 <= i < q@.len() ==> {
                let f = (#[trigger] q@[i])@;
                &&& f.wf()
                &&& f.d == d
                &&& face_slice(f) == s
                &&& 0 <= face_u0(f) && face_u0(f) + f.w <= 16
                &&& 0 <= face_v0(f) && face_v0(f) + f.h <= 16
            },
        forall|i: int, u: int, v: int|
            0 <= i < q@.len() && 0 <= u < 16 && 0 <= v < 16 && #[trigger] face_covers_cell(
                q@[i]@,
                u,
                v,
            ) ==> mask@[plane_index(u, v)] == mask@[plane_index(face_u0(q@[i]@), face_v0(q@[i]@))]
                && mask@[plane_index(u, v)] != 0,
        forall|u: int, v: int|
            0 <= u < 16 && 0 <= v < 16 && mask@[#[trigger] plane_index(u, v)] != 0 ==> exists|i: int|
                0 <= i < q@.len() && face_covers_cell(q@[i]@, u, v),
        forall|i: int, j: int, u: int, v: int|
            0 <= i < q@.len() && 0 <= j < q@.len() && i != j && #[trigger] face_covers_cell(
                q@[i]@,
                u,
                v,
            ) ==> !#[trigger] face_covers_cell(q@[j]@, u, v),
{
    let a = d.axis_index();
    let mut q: Vec<QuadFace> = Vec::new();
    let mut used: Vec<bool> = Vec::new();
    let mut i: usize = 0;
    while i < 256
        invariant
            i <= 256,
            used@.len() == i,
            forall|j: int| 0 <= j < i ==> !(#[trigger] used@[j]),
        decreases 256 - i,
    {
        used.push(false);
        i = i + 1;
    }
    proof {
        assert(faces_of(q@) =~= slice_step(mask@, d, s as int, 0).1);
    }
    let mut c: usize = 0;
    while c < 256
        invariant
            c <= 256,
            s < 16,
            a == d.axis(),
            mask@.len() == 256,
            used@.len() == 256,
            // a cell is marked used exactly when some emitted face covers it
            forall|u: int, v: int|
                0 <= u < 16 && 0 <= v < 16 ==> ((#[trigger] used@[plane_index(u, v)]) <==> exists|
                    i2: int,
                |
                    0 <= i2 < q@.len() && face_covers_cell(q@[i2]@, u, v)),
            // every masked cell before the scan point is already covered
            forall|c2: int| 0 <= c2 < c && mask@[c2] != 0 ==> #[trigger] used@[c2],
            // faces are well-formed, lie in this slice and direction
            forall|i2: int|
                0 <= i2 < q@.len() ==> {
                    let f = (#[trigger] q@[i2])@;
                    &&& f.wf()
                    &&& f.d == d
                    &&& face_slice(f) == s
                    &&& 0 <= face_u0(f) && face_u0(f) + f.w <= 16
                    &&& 0 <= face_v0(f) && face_v0(f) + f.h <= 16
                },
            // faces cover only cells of their own material, and no empty cell
            forall|i2: int, u: int, v: int|
                0 <= i2 < q@.len() && 0 <= u < 16 && 0 <= v < 16 && #[trigger] face_covers_cell(
                    q@[i2]@,
                    u,
                    v,
                ) ==> mask@[plane_index(u, v)] == mask@[plane_index(
                    face_u0(q@[i2]@),
                    face_v0(q@[i2]@),
                )] && mask@[plane_index(u, v)] != 0,
            // no two faces overlap
            forall|i2: int, j2: int, u: int, v: int|
                0 <= i2 < q@.len() && 0 <= j2 < q@.len() && i2 != j2 && #[trigger] face_covers_cell(
                    q@[i2]@,
                    u,
                    v,
                ) ==> !#[trigger] face_covers_cell(q@[j2]@, u, v),
            // the exec state equals the scan specification
            faces_of(q@) == slice_step(mask@, d, s as int, c as int).1,
            forall|k: int|
                0 <= k < 256 ==> ((#[trigger] used@[k]) <==> slice_step(
                    mask@,
                    d,
                    s as int,
                    c as int,
                ).0.contains(k)),
        decreases 256 - c,
    {
        let u = c % 16;
        let v = c / 16;
        let m = mask[c];
        let ghost uset = slice_step(mask@, d, s as int, c as int).0;
        if m != 0 && !used[c] {
            // widen along u while the material continues and nothing is merged yet
            let mut w: usize = 1;
            while u + w < 16 && mask[16 * v + u + w] == m && !used[16 * v + u + w]
                invariant
                    1 <= w,
                    u + w <= 16,
                    u < 16,
                    v < 16,
                    c == 16 * v + u,
                    mask@.len() == 256,
                    used@.len() == 256,
                    forall|du: int|
                        0 <= du < w ==> #[trigger] mask@[plane_index(u + du, v as int)] == m
                            && !used@[plane_index(u + du, v as int)],
                    forall|k: int| 0 <= k < 256 ==> ((#[trigger] used@[k]) <==> uset.contains(k)),
                    grow_w(mask@, uset, m, u as int, v as int, w as int) == grow_w(
                        mask@,
                        uset,
                        m,
                        u as int,
                        v as int,
                        1,
                    ),
                decreases 16 - w,
            {
                proof {
                    assert(16 * v + u + w == plane_index(u + w, v as int));
                    assert(0 <= plane_index(u + w, v as int) < 256);
                    assert(!uset.contains(plane_index(u + w, v as int)));
                    assert(grow_w(mask@, uset, m, u as int, v as int, w as int) == grow_w(
                        mask@,
                        uset,
                        m,
                        u as int,
                        v as int,
                        w + 1,
                    ));
                }
                w = w + 1;
            }
            proof {
                assert(16 * v + u + w == plane_index(u + w, v as int));
                if u + w < 16 {
                    assert(0 <= plane_index(u + w, v as int) < 256);
                }
                assert(grow_w(mask@, uset, m, u as int, v as int, w as int) == w);
                assert(w as int == grow_w(mask@, uset, m, u as int, v as int, 1));
            }
            // extend whole rows along v while every cell still matches
            let mut h: usize = 1;
            while v + h < 16 && row_all(mask, &used, Ghost(uset), m, u, w, v + h)
                invariant
                    1 <= h,
                    v + h <= 16,
                    1 <= w,
                    u + w <= 16,
                    u < 16,
                    v < 16,
                    mask@.len() == 256,
                    used@.len() == 256,
                    forall|du: int, dv: int|
                        0 <= du < w && 0 <= dv < h ==> #[trigger] mask@[plane_index(u + du, v + dv)]
                            == m && !used@[plane_index(u + du, v + dv)],
                    forall|k: int| 0 <= k < 256 ==> ((#[trigger] used@[k]) <==> uset.contains(k)),
                    w as int == grow_w(mask@, uset, m, u as int, v as int, 1),
                    grow_h(mask@, uset, m, u as int, w as int, v as int, h as int) == grow_h(
                        mask@,
                        uset,
                        m,
                        u as int,
                        w as int,
                        v as int,
                        1,
                    ),
                decreases 16 - h,
            {
                proof {
                    assert(row_ok(mask@, uset, m, u as int, w as int, (v + h) as int));
                    assert forall|du: int, dv: int|
                        0 <= du < w && 0 <= dv < h + 1 implies #[trigger] mask@[plane_index(
                        u + du,
                        v + dv,
                    )] == m && !used@[plane_index(u + du, v + dv)] by {
                        if dv == h {
                            assert(mask@[plane_index(u + du, (v + h) as int)] == m);
                            assert(!uset.contains(plane_index(u + du, (v + h) as int)));
                            assert(0 <= plane_index(u + du, (v + h) as int) < 256);
                        }
                    }
                    assert(grow_h(mask@, uset, m, u as int, w as int, v as int, h as int)
                        == grow_h(mask@, uset, m, u as int, w as int, v as int, h + 1));
                }
                h = h + 1;
            }
            proof {
                assert(grow_h(mask@, uset, m, u as int, w as int, v as int, h as int) == h);
                assert(h as int == grow_h(mask@, uset, m, u as int, w as int, v as int, 1));
            }
            // mark the rectangle as merged
            let ghost used0 = used@;
            let mut dv: usize = 0;
            while dv < h
                invariant
                    dv <= h,
                    1 <= h,
                    v + h <= 16,
                    1 <= w,
                    u + w <= 16,
                    u < 16,
                    v < 16,
                    used@.len() == 256,
                    forall|k: int|
                        0 <= k < 256 ==> ((#[trigger] used@[k]) <==> (used0[k] || exists|
                            du: int,
                            dv2: int,
                        |
                            0 <= du < w && 0 <= dv2 < dv && k == #[trigger] plane_index(
                                u + du,
                                v + dv2,
                            ))),
                decreases h - dv,
            {
                let mut du: usize = 0;
                while du < w
                    invariant
                        du <= w,
                        dv < h,
                        1 <= h,
                        v + h <= 16,
                        1 <= w,
                        u + w <= 16,
                        u < 16,
                        v < 16,
                        used@.len() == 256,
                        forall|k: int|
                            0 <= k < 256 ==> ((#[trigger] used@[k]) <==> (used0[k] || (exists|
                                du2: int,
                                dv2: int,
                            |
                                0 <= du2 < w && 0 <= dv2 < dv && k == #[trigger] plane_index(
                                    u + du2,
                                    v + dv2,
                                )) || (exists|du2: int|
                                0 <= du2 < du && k == #[trigger] plane_index(u + du2, v + dv)))),
                    decreases w - du,
                {
                    used.set(16 * (v + dv) + u + du, true);
                    proof {
                        assert(16 * (v + dv) + u + du == plane_index(u + du, v + dv));
                    }
                    du = du + 1;
                }
                dv = dv + 1;
            }
            let x = if a == 0 { s } else { u };
            let y = if a == 0 { u } else if a == 1 { s } else { v };
            let z = if a == 2 { s } else { v };
            let face = QuadFace { d, x, y, z, w, h };
            proof {
                assert(face_u0(face@) == u && face_v0(face@) == v && face_slice(face@) == s);
                assert forall|u2: int, v2: int|
                    0 <= u2 < 16 && 0 <= v2 < 16 implies ((#[trigger] used@[plane_index(u2, v2)])
                    <==> (used0[plane_index(u2, v2)] || face_covers_cell(face@, u2, v2))) by {
                    assert(0 <= plane_index(u2, v2) < 256);
                    if face_covers_cell(face@, u2, v2) {
                        let du = u2 - u;
                        let dv2 = v2 - v;
                        assert(0 <= du < w && 0 <= dv2 < h);
                        assert(plane_index(u2, v2) == plane_index(u + du, v + dv2));
                    }
                    if exists|du: int, dv2: int|
                        0 <= du < w && 0 <= dv2 < h && plane_index(u2, v2) == #[trigger] plane_index(
                            u + du,
                            v + dv2,
                        ) {
                        let (du, dv2) = choose|du: int, dv2: int|
                            0 <= du < w && 0 <= dv2 < h && plane_index(u2, v2) == #[trigger] plane_index(
                                u + du,
                                v + dv2,
                            );
                        assert(u2 == u + du && v2 == v + dv2) by {
                            assert(16 * v2 + u2 == 16 * (v + dv2) + (u + du));
                            assert(0 <= u2 < 16 && 0 <= u + du < 16);
                        }
                        assert(face_covers_cell(face@, u2, v2));
                    }
                }
            }
            let ghost q0 = q@;
            q.push(face);
            proof {
                let q1 = q@;
                assert(q1 == q0.push(face));
                assert(q1[q0.len() as int] == face);
                assert(face@.wf() && face@.d == d && face_slice(face@) == s && 0 <= face_u0(face@)
                    && face_u0(face@) + face@.w <= 16 && 0 <= face_v0(face@) && face_v0(face@)
                    + face@.h <= 16);
                // every cell of the new rectangle: in range, material m, unmerged before
                assert forall|u2: int, v2: int| #[trigger]
                    face_covers_cell(face@, u2, v2) implies 0 <= u2 < 16 && 0 <= v2 < 16 && mask@[
                    plane_index(u2, v2)
                ] == m && !used0[plane_index(u2, v2)] by {
                    let du = u2 - u;
                    let dv2 = v2 - v;
                    assert(0 <= du < w && 0 <= dv2 < h);
                    assert(mask@[plane_index(u + du, v + dv2)] == m && !used0[plane_index(
                        u + du,
                        v + dv2,
                    )]);
                }
                // a cell is used exactly when some face covers it
                assert forall|u2: int, v2: int|
                    0 <= u2 < 16 && 0 <= v2 < 16 implies ((#[trigger] used@[plane_index(u2, v2)])
                    <==> exists|i2: int|
                    0 <= i2 < q1.len() && face_covers_cell(q1[i2]@, u2, v2)) by {
                    if used@[plane_index(u2, v2)] {
                        if used0[plane_index(u2, v2)] {
                            let i2 = choose|i2: int|
                                0 <= i2 < q0.len() && face_covers_cell(q0[i2]@, u2, v2);
                            assert(face_covers_cell(q1[i2]@, u2, v2));
                        } else {
                            assert(face_covers_cell(face@, u2, v2));
                            assert(face_covers_cell(q1[q0.len() as int]@, u2, v2));
                        }
                    }
                    if exists|i2: int| 0 <= i2 < q1.len() && face_covers_cell(q1[i2]@, u2, v2) {
                        let i2 = choose|i2: int|
                            0 <= i2 < q1.len() && face_covers_cell(q1[i2]@, u2, v2);
                        if i2 < q0.len() {
                            assert(face_covers_cell(q0[i2]@, u2, v2));
                            assert(used0[plane_index(u2, v2)]);
                        } else {
                            assert(face_covers_cell(face@, u2, v2));
                        }
                        assert(used@[plane_index(u2, v2)]);
                    }
                }
                // every masked cell up to and including c is covered now
                assert forall|c2: int| 0 <= c2 < c + 1 && mask@[c2] != 0 implies #[trigger] used@[
                    c2
                ] by {
                    if c2 < c {
                        assert(used0[c2]);
                    } else {
                        assert(c2 == plane_index(u as int, v as int));
                        assert(face_covers_cell(face@, u as int, v as int));
                        assert(used@[plane_index(u as int, v as int)]);
                    }
                }
                // soundness and material uniformity for the extended list
                assert forall|i2: int, u2: int, v2: int|
                    0 <= i2 < q1.len() && 0 <= u2 < 16 && 0 <= v2 < 16 && #[trigger]
                    face_covers_cell(q1[i2]@, u2, v2) implies mask@[plane_index(u2, v2)] == mask@[
                    plane_index(face_u0(q1[i2]@), face_v0(q1[i2]@))
                ] && mask@[plane_index(u2, v2)] != 0 by {
                    if i2 < q0.len() {
                        assert(face_covers_cell(q0[i2]@, u2, v2));
                    } else {
                        assert(q1[i2] == face);
                        assert(mask@[plane_index(u2, v2)] == m);
                        assert(face_covers_cell(face@, u as int, v as int));
                        assert(mask@[plane_index(u as int, v as int)] == m);
                    }
                }
                // no two faces overlap
                assert forall|i2: int, j2: int, u2: int, v2: int|
                    0 <= i2 < q1.len() && 0 <= j2 < q1.len() && i2 != j2 && #[trigger]
                    face_covers_cell(q1[i2]@, u2, v2) implies !#[trigger] face_covers_cell(
                    q1[j2]@,
                    u2,
                    v2,
                ) by {
                    if face_covers_cell(q1[j2]@, u2, v2) {
                        if i2 < q0.len() && j2 < q0.len() {
                            assert(face_covers_cell(q0[i2]@, u2, v2));
                            assert(!face_covers_cell(q0[j2]@, u2, v2));
                        } else if i2 == q0.len() as int {
                            assert(face_covers_cell(face@, u2, v2));
                            assert(!used0[plane_index(u2, v2)]);
                            assert(face_covers_cell(q0[j2]@, u2, v2));
                            assert(used0[plane_index(u2, v2)]);
                        } else {
                            assert(face_covers_cell(face@, u2, v2));
                            assert(!used0[plane_index(u2, v2)]);
                            assert(face_covers_cell(q0[i2]@, u2, v2));
                            assert(used0[plane_index(u2, v2)]);
                        }
                    }
                }
                // the exec step equals the scan specification's step
                let st0 = slice_step(mask@, d, s as int, c as int);
                let st1 = slice_step(mask@, d, s as int, c + 1);
                assert(st0.0 == uset);
                assert((c as int) % 16 == u as int && (c as int) / 16 == v as int);
                assert(mask@[c as int] == m && m != 0);
                assert(0 <= c < 256);
                assert(!used0[c as int]);
                assert(!uset.contains(c as int));
                assert(st1.0 == uset.union(rect_set(u as int, v as int, w as int, h as int)));
                assert(face@ == (FaceRec {
                    d,
                    x: slice_x(d, s as int, u as int, v as int),
                    y: slice_y(d, s as int, u as int, v as int),
                    z: slice_z(d, s as int, u as int, v as int),
                    w: w as int,
                    h: h as int,
                }));
                assert(st1.1 == st0.1.push(face@));
                assert(faces_of(q1) =~= faces_of(q0).push(face@));
                assert(faces_of(q1) == st1.1);
                assert forall|k: int|
                    0 <= k < 256 implies ((#[trigger] used@[k]) <==> st1.0.contains(k)) by {
                    assert((used0[k]) <==> uset.contains(k));
                    if exists|du2: int, dv2: int|
                        0 <= du2 < w && 0 <= dv2 < h && k == #[trigger] plane_index(
                            u + du2,
                            v + dv2,
                        ) {
                        let (du2, dv2) = choose|du2: int, dv2: int|
                            0 <= du2 < w && 0 <= dv2 < h && k == #[trigger] plane_index(
                                u + du2,
                                v + dv2,
                            );
                        assert(rect_set(u as int, v as int, w as int, h as int).contains(k));
                    }
                    if rect_set(u as int, v as int, w as int, h as int).contains(k) {
                        let (du2, dv2) = choose|du2: int, dv2: int|
                            0 <= du2 < w && 0 <= dv2 < h && k == #[trigger] plane_index(
                                u + du2,
                                v + dv2,
                            );
                        assert(exists|du3: int, dv3: int|
                            0 <= du3 < w && 0 <= dv3 < h && k == #[trigger] plane_index(
                                u + du3,
                                v + dv3,
                            ));
                    }
                }
            }
        } else {
            proof {
                assert(0 <= c < 256);
                assert(mask@[c as int] == m);
                assert((used@[c as int]) <==> uset.contains(c as int));
                assert(slice_step(mask@, d, s as int, c + 1) == slice_step(
                    mask@,
                    d,
                    s as int,
                    c as int,
                ));
            }
        }
        c = c + 1;
    }
    proof {
        reveal(slice_faces);
        assert forall|u: int, v: int|
            0 <= u < 16 && 0 <= v < 16 && mask@[#[trigger] plane_index(u, v)] != 0 implies exists|
            i2: int,
        | 0 <= i2 < q@.len() && face_covers_cell(q@[i2]@, u, v) by {
            assert(0 <= plane_index(u, v) < 256);
            assert(used@[plane_index(u, v)]);
        }
    }
    q
}

/// What the greedy strategy guarantees of its face list: every face is
/// well-formed; every unit voxel face a face covers is visible toward that
/// direction and of the material of the face's origin voxel, so faces never
/// span a material boundary; every visible unit face is covered; and no two
/// faces of one direction overlap, so the rectangles partition the visible
/// faces per direction.
pub open spec fn greedy_cover(
    blocks: Seq<Block>,
    snap: Seq<Option<Seq<MaterialID>>>,
    reg: Seq<Material>,
    fs: Seq<FaceRec>,
) -> bool {
    &&& forall|i: int| 0 <= i < fs.len() ==> (#[trigger] fs[i]).wf()
    &&& forall|i: int, x: int, y: int, z: int|
        0 <= i < fs.len() && 0 <= x < 16 && 0 <= y < 16 && 0 <= z < 16 && #[trigger] face_covers(
            fs[i],
            x,
            y,
            z,
        ) ==> face_visible(blocks, snap, reg, x, y, z, fs[i].d) && mat_id_at(blocks, x, y, z)
            == mat_id_at(blocks, fs[i].x, fs[i].y, fs[i].z)
    &&& forall|x: int, y: int, z: int, d: AADirection|
        0 <= x < 16 && 0 <= y < 16 && 0 <= z < 16 && #[trigger] face_visible(
            blocks,
            snap,
            reg,
            x,
            y,
            z,
            d,
        ) ==> exists|i: int|
            0 <= i < fs.len() && fs[i].d == d && #[trigger] face_covers(fs[i], x, y, z)
    &&& forall|i: int, j: int, x: int, y: int, z: int|
        0 <= i < fs.len() && 0 <= j < fs.len() && i != j && fs[i].d == fs[j].d
            && #[trigger] face_covers(fs[i], x, y, z) ==> !#[trigger] face_covers(fs[j], x, y, z)
}

/// The greedy strategy's sweep: for each of the six directions, walk the 16
/// slices perpendicular to it, mask the visible faces of each slice, and
/// partition the mask into material-uniform rectangles.
#[verifier::spinoff_prover]
#[verifier::rlimit(100)]
pub fn greedy_quads(chunk: &Chunk, snap: &NeighborSnapshot, reg: &MaterialRegistry) -> (q: Vec<
    QuadFace,
>)
    requires
        chunk.wf(),
        snap.wf(),
        reg.wf(),
    ensures
        greedy_cover(chunk@.blocks, snap@, reg@, faces_of(q@)),
        forall|i: int| 0 <= i < q@.len() ==> (#[trigger] q@[i])@.wf(),
{
    let ghost bl = chunk@.blocks;
    let ghost sn = snap@;
    let ghost rg = reg@;
    let mut q: Vec<QuadFace> = Vec::new();
    let mut t: usize = 0;
    while t < 96
        invariant
            t <= 96,
            chunk.wf(),
            snap.wf(),
            reg.wf(),
            bl == chunk@.blocks,
            sn == snap@,
            rg == reg@,
            forall|i: int|
                0 <= i < q@.len() ==> {
                    let f = (#[trigger] q@[i])@;
                    &&& f.wf()
                    &&& f.d.ix() * 16 + face_slice(f) < t
                    &&& 0 <= face_slice(f)
                },
            forall|i: int, x: int, y: int, z: int|
                0 <= i < q@.len() && 0 <= x < 16 && 0 <= y < 16 && 0 <= z < 16
                    && #[trigger] face_covers(q@[i]@, x, y, z) ==> face_visible(
                    bl,
                    sn,
                    rg,
                    x,
                    y,
                    z,
                    q@[i]@.d,
                ) && mat_id_at(bl, x, y, z) == mat_id_at(bl, q@[i]@.x, q@[i]@.y, q@[i]@.z),
            forall|x: int, y: int, z: int, d2: AADirection|
                0 <= x < 16 && 0 <= y < 16 && 0 <= z < 16 && #[trigger] face_visible(
                    bl,
                    sn,
                    rg,
                    x,
                    y,
                    z,
                    d2,
                ) && d2.ix() * 16 + axis_coord(d2, x, y, z) < t ==> exists|i: int|
                    0 <= i < q@.len() && q@[i]@.d == d2 && #[trigger] face_covers(q@[i]@, x, y, z),
            forall|i: int, j: int, x: int, y: int, z: int|
                0 <= i < q@.len() && 0 <= j < q@.len() && i != j && q@[i]@.d == q@[j]@.d
                    && #[trigger] face_covers(q@[i]@, x, y, z) ==> !#[trigger] face_covers(
                    q@[j]@,
                    x,
                    y,
                    z,
                ),
        decreases 96 - t,
    {
        let d = AADirection::from_index(t / 16);
        let s = t % 16;
        let mask = build_mask(chunk, snap, reg, d, s);
        let sq = greedy_slice(&mask, d, s);
        let ghost qpre = q@;
        let mut j: usize = 0;
        while j < sq.len()
            invariant
                j <= sq@.len(),
                q@ == qpre + sq@.take(j as int),
            decreases sq@.len() - j,
        {
            q.push(sq[j]);
            proof {
                assert(qpre + sq@.take(j as int) + seq![sq@[j as int]] =~= qpre + sq@.take(
                    j + 1,
                ));
            }
            j = j + 1;
        }
        proof {
            assert(sq@.take(sq@.len() as int) =~= sq@);
            assert(q@ == qpre + sq@);
            let len0 = qpre.len() as int;
            assert(d.ix() == t / 16 && s == t % 16);
            assert(d.ix() * 16 + s == t);
            // the new faces: well-formed, in group t
            assert forall|i: int|
                0 <= i < q@.len() implies {
                let f = (#[trigger] q@[i])@;
                &&& f.wf()
                &&& f.d.ix() * 16 + face_slice(f) < t + 1
                &&& 0 <= face_slice(f)
            } by {
                if i < len0 {
                    assert(q@[i] == qpre[i]);
                } else {
                    assert(q@[i] == sq@[i - len0]);
                    assert(sq@[i - len0]@.d == d && face_slice(sq@[i - len0]@) == s);
                }
            }
            // soundness and material uniformity
            assert forall|i: int, x: int, y: int, z: int|
                0 <= i < q@.len() && 0 <= x < 16 && 0 <= y < 16 && 0 <= z < 16
                    && #[trigger] face_covers(q@[i]@, x, y, z) implies face_visible(
                bl,
                sn,
                rg,
                x,
                y,
                z,
                q@[i]@.d,
            ) && mat_id_at(bl, x, y, z) == mat_id_at(bl, q@[i]@.x, q@[i]@.y, q@[i]@.z) by {
                if i < len0 {
                    assert(q@[i] == qpre[i]);
                    assert(face_covers(qpre[i]@, x, y, z));
                } else {
                    let f = sq@[i - len0]@;
                    assert(q@[i]@ == f);
                    assert(f.d == d && face_slice(f) == s);
                    let pu = plane_u(d, x, y, z);
                    let pv = plane_v(d, x, y, z);
                    assert(face_covers_cell(f, pu, pv));
                    assert(0 <= pu < 16 && 0 <= pv < 16);
                    assert(mask@[plane_index(pu, pv)] == mask@[plane_index(
                        face_u0(f),
                        face_v0(f),
                    )] && mask@[plane_index(pu, pv)] != 0);
                    assert(mask@[plane_index(pu, pv)] == mask_cell(bl, sn, rg, d, s as int, pu, pv));
                    assert(slice_x(d, s as int, pu, pv) == x && slice_y(d, s as int, pu, pv) == y
                        && slice_z(d, s as int, pu, pv) == z);
                    assert(face_visible(bl, sn, rg, x, y, z, d));
                    assert(mask@[plane_index(pu, pv)] == mat_id_at(bl, x, y, z));
                    let u0 = face_u0(f);
                    let v0 = face_v0(f);
                    assert(face_covers_cell(f, u0, v0));
                    assert(0 <= u0 < 16 && 0 <= v0 < 16);
                    assert(mask@[plane_index(u0, v0)] == mask_cell(bl, sn, rg, d, s as int, u0, v0));
                    assert(mask@[plane_index(u0, v0)] != 0);
                    assert(slice_x(d, s as int, u0, v0) == f.x && slice_y(d, s as int, u0, v0)
                        == f.y && slice_z(d, s as int, u0, v0) == f.z);
                    assert(mask@[plane_index(u0, v0)] == mat_id_at(bl, f.x, f.y, f.z));
                }
            }
            // completeness for every group up to and including t
            assert forall|x: int, y: int, z: int, d2: AADirection|
                0 <= x < 16 && 0 <= y < 16 && 0 <= z < 16 && #[trigger] face_visible(
                    bl,
                    sn,
                    rg,
                    x,
                    y,
                    z,
                    d2,
                ) && d2.ix() * 16 + axis_coord(d2, x, y, z) < t + 1 implies exists|i: int|
                0 <= i < q@.len() && q@[i]@.d == d2 && #[trigger] face_covers(q@[i]@, x, y, z) by {
                if d2.ix() * 16 + axis_coord(d2, x, y, z) < t {
                    let i = choose|i: int|
                        0 <= i < qpre.len() && qpre[i]@.d == d2 && #[trigger] face_covers(
                            qpre[i]@,
                            x,
                            y,
                            z,
                        );
                    assert(q@[i] == qpre[i]);
                    assert(face_covers(q@[i]@, x, y, z));
                } else {
                    assert(0 <= axis_coord(d2, x, y, z) < 16);
                    assert(d2.ix() == d.ix()) by {
                        assert(d2.ix() * 16 + axis_coord(d2, x, y, z) == t);
                    }
                    lemma_direction_index_injective(d2, d);
                    assert(axis_coord(d, x, y, z) == s);
                    let pu = plane_u(d, x, y, z);
                    let pv = plane_v(d, x, y, z);
                    assert(0 <= pu < 16 && 0 <= pv < 16);
                    assert(slice_x(d, s as int, pu, pv) == x && slice_y(d, s as int, pu, pv) == y
                        && slice_z(d, s as int, pu, pv) == z);
                    assert(mask@[plane_index(pu, pv)] == mask_cell(bl, sn, rg, d, s as int, pu, pv));
                    assert(mat_id_at(bl, x, y, z) != 0);
                    assert(mask@[plane_index(pu, pv)] != 0);
                    let k = choose|k: int|
                        0 <= k < sq@.len() && face_covers_cell(sq@[k]@, pu, pv);
                    let i = len0 + k;
                    assert(q@[i] == sq@[k]);
                    assert(sq@[k]@.d == d && face_slice(sq@[k]@) == s);
                    assert(face_covers(q@[i]@, x, y, z));
                }
            }
            // disjointness within one direction
            assert forall|i: int, j2: int, x: int, y: int, z: int|
                0 <= i < q@.len() && 0 <= j2 < q@.len() && i != j2 && q@[i]@.d == q@[j2]@.d
                    && #[trigger] face_covers(q@[i]@, x, y, z) implies !#[trigger] face_covers(
                q@[j2]@,
                x,
                y,
                z,
            ) by {
                if face_covers(q@[j2]@, x, y, z) {
                    if i < len0 && j2 < len0 {
                        assert(q@[i] == qpre[i] && q@[j2] == qpre[j2]);
                        assert(face_covers(qpre[i]@, x, y, z));
                        assert(!face_covers(qpre[j2]@, x, y, z));
                    } else if i >= len0 && j2 >= len0 {
                        let fi = sq@[i - len0]@;
                        let fj = sq@[j2 - len0]@;
                        assert(q@[i]@ == fi && q@[j2]@ == fj);
                        let pu = plane_u(d, x, y, z);
                        let pv = plane_v(d, x, y, z);
                        assert(face_covers_cell(fi, pu, pv));
                        assert(face_covers_cell(fj, pu, pv));
                        assert(false);
                    } else {
                        let (iold, inew) = if i < len0 { (i, j2) } else { (j2, i) };
                        let fo = qpre[iold]@;
                        let fn2 = sq@[inew - len0]@;
                        assert(q@[iold]@ == fo && q@[inew]@ == fn2);
                        assert(fo.d == fn2.d);
                        assert(fn2.d == d && face_slice(fn2) == s);
                        assert(fo.d.ix() * 16 + face_slice(fo) < t);
                        assert(face_slice(fo) < s);
                        assert(face_covers(fo, x, y, z) && face_covers(fn2, x, y, z));
                        assert(axis_coord(d, x, y, z) == face_slice(fo));
                        assert(axis_coord(d, x, y, z) == face_slice(fn2));
                        assert(false);
                    }
                }
            }
        }
        t = t + 1;
    }
    proof {
        assert forall|x: int, y: int, z: int, d: AADirection|
            0 <= x < 16 && 0 <= y < 16 && 0 <= z < 16 && #[trigger] face_visible(
                bl,
                sn,
                rg,
                x,
                y,
                z,
                d,
            ) implies exists|i: int|
            0 <= i < faces_of(q@).len() && faces_of(q@)[i].d == d && #[trigger] face_covers(
                faces_of(q@)[i],
                x,
                y,
                z,
            ) by {
            assert(d.ix() * 16 + axis_coord(d, x, y, z) < 96);
            let i = choose|i: int|
                0 <= i < q@.len() && q@[i]@.d == d && #[trigger] face_covers(q@[i]@, x, y, z);
            assert(faces_of(q@)[i] == q@[i]@);
            assert(face_covers(faces_of(q@)[i], x, y, z));
        }
        assert forall|i: int, x: int, y: int, z: int|
            0 <= i < faces_of(q@).len() && 0 <= x < 16 && 0 <= y < 16 && 0 <= z < 16
                && #[trigger] face_covers(faces_of(q@)[i], x, y, z) implies face_visible(
            bl,
            sn,
            rg,
            x,
            y,
            z,
            faces_of(q@)[i].d,
        ) && mat_id_at(bl, x, y, z) == mat_id_at(
            bl,
            faces_of(q@)[i].x,
            faces_of(q@)[i].y,
            faces_of(q@)[i].z,
        ) by {
            assert(faces_of(q@)[i] == q@[i]@);
            assert(face_covers(q@[i]@, x, y, z));
        }
        assert forall|i: int, j: int, x: int, y: int, z: int|
            0 <= i < faces_of(q@).len() && 0 <= j < faces_of(q@).len() && i != j && faces_of(
                q@,
            )[i].d == faces_of(q@)[j].d && #[trigger] face_covers(faces_of(q@)[i], x, y, z) implies
            !#[trigger] face_covers(faces_of(q@)[j], x, y, z) by {
            assert(faces_of(q@)[i] == q@[i]@ && faces_of(q@)[j] == q@[j]@);
            assert(face_covers(q@[i]@, x, y, z));
        }
        assert forall|i: int| 0 <= i < faces_of(q@).len() implies (#[trigger] faces_of(q@)[i]).wf()
        by {
            assert(faces_of(q@)[i] == q@[i]@);
        }
    }
    q
}

/// The greedy strategy's result: the buffer is the rendering of a face
/// list that partitions the visible faces per direction.
pub open spec fn greedy_mesh_of(
    blocks: Seq<Block>,
    snap: Seq<Option<Seq<MaterialID>>>,
    reg: Seq<Material>,
    m: MeshView,
    fs: Seq<FaceRec>,
) -> bool {
    greedy_cover(blocks, snap, reg, fs) && m == render(fs)
}

/// The greedy strategy's full contract: the buffer renders a face list that
/// covers every visible unit face exactly once per direction without
/// crossing a material boundary, or generation is aborted with
/// `VertexBudgetExceeded` exactly when that list would overflow the 16-bit
/// index space.
pub fn greedy_generate_mesh(chunk: &Chunk, snap: &NeighborSnapshot, reg: &MaterialRegistry) -> (r:
    Result<MeshBuffer, MeshError>)
    requires
        chunk.wf(),
        snap.wf(),
        reg.wf(),
    ensures
        match r {
            Ok(b) => {
                &&& wf_mesh(b@)
                &&& exists|fs: Seq<FaceRec>|
                    #[trigger] greedy_mesh_of(chunk@.blocks, snap@, reg@, b@, fs) && 4 * fs.len()
                        <= MAX_VERTICES
            },
            Err(e) => {
                &&& e == MeshError::VertexBudgetExceeded
                &&& exists|fs: Seq<FaceRec>|
                    #[trigger] greedy_cover(chunk@.blocks, snap@, reg@, fs) && 4 * fs.len()
                        > MAX_VERTICES
            },
        },
{
    let q = greedy_quads(chunk, snap, reg);
    let r = build_buffer(&q);
    match r {
        Ok(b) => {
            proof {
                assert(greedy_mesh_of(chunk@.blocks, snap@, reg@, b@, faces_of(q@)));
            }
            Ok(b)
        },
        Err(e) => {
            proof {
                assert(greedy_cover(chunk@.blocks, snap@, reg@, faces_of(q@)));
            }
            Err(e)
        },
    }
}

/// The production strategy: merges coplanar same-material visible faces
/// into maximal rectangles, slice by slice.
pub struct GreedyChunkMesher {}

impl ChunkMesher for GreedyChunkMesher {
    fn generate_mesh(chunk: &Chunk, snap: &NeighborSnapshot, reg: &MaterialRegistry) -> (r: Result<
        MeshBuffer,
        MeshError,
    >) {
        greedy_generate_mesh(chunk, snap, reg)
    }
}

} // verus!
