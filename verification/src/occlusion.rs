use vstd::prelude::*;
use crate::chunk::Block;
use crate::chunk::Chunk;
use crate::chunk::chunk_index;
use crate::direction::AADirection;
use crate::material::AIR_ID;
use crate::material::Material;
use crate::material::MaterialID;
use crate::material::MaterialRegistry;
use crate::material::occludes;

verus! {

/// A read-only copy of one 16 x 16 boundary plane of a chunk, taken before
/// meshing begins so neighbor reads stay snapshot-consistent for the whole
/// generation of one mesh.
pub struct BorderPlane {
    cells: Vec<MaterialID>,
}

impl View for BorderPlane {
    type V = Seq<MaterialID>;

    closed spec fn view(&self) -> Seq<MaterialID> {
        self.cells@
    }
}

/// The linear index of plane cell (u, v).
pub open spec fn plane_index(u: int, v: int) -> int {
    16 * v + u
}

impl BorderPlane {
    pub open spec fn wf(self) -> bool {
        self@.len() == 256
    }

    /// The material in plane cell (u, v).
    pub fn cell(&self, u: usize, v: usize) -> (r: MaterialID)
        requires
            self.wf(),
            u < 16,
            v < 16,
        ensures
            r == self@[plane_index(u as int, v as int)],
    {
        self.cells[16 * v + u]
    }
}

/// The material on the boundary layer of a chunk on its `side` face, at
/// plane cell (u, v). The plane axes are the two axes perpendicular to
/// `side`, in X-before-Y-before-Z order.
pub open spec fn border_cell(blocks: Seq<Block>, side: AADirection, u: int, v: int) -> MaterialID {
    let edge = if side.spec_positive() {
        15int
    } else {
        0int
    };
    if side.axis() == 0 {
        blocks[chunk_index(edge, u, v)].material
    } else if side.axis() == 1 {
        blocks[chunk_index(u, edge, v)].material
    } else {
        blocks[chunk_index(u, v, edge)].material
    }
}

/// Copies the boundary plane of `chunk` on its `side` face.
pub fn border_plane(chunk: &Chunk, side: AADirection) -> (p: BorderPlane)
    requires
        chunk.wf(),
    ensures
        p.wf(),
        forall|u: int, v: int|
            0 <= u < 16 && 0 <= v < 16 ==> p@[plane_index(u, v)] == border_cell(
                chunk@.blocks,
                side,
                u,
                v,
            ),
{
    let a = side.axis_index();
    let edge: usize = if side.is_positive() {
        15
    } else {
        0
    };
    let mut cells: Vec<MaterialID> = Vec::new();
    let mut v: usize = 0;
    while v < 16
        invariant
            v <= 16,
            a == side.axis(),
            edge == (if side.spec_positive() { 15int } else { 0int }),
            chunk.wf(),
            cells@.len() == 16 * v,
            forall|u2: int, v2: int|
                0 <= u2 < 16 && 0 <= v2 < v ==> cells@[plane_index(u2, v2)] == border_cell(
                    chunk@.blocks,
                    side,
                    u2,
                    v2,
                ),
        decreases 16 - v,
    {
        let mut u: usize = 0;
        while u < 16
            invariant
                u <= 16,
                v < 16,
                a == side.axis(),
                edge == (if side.spec_positive() { 15int } else { 0int }),
                chunk.wf(),
                cells@.len() == 16 * v + u,
                forall|u2: int, v2: int|
                    0 <= u2 < 16 && 0 <= v2 < v ==> cells@[plane_index(u2, v2)] == border_cell(
                        chunk@.blocks,
                        side,
                        u2,
                        v2,
                    ),
                forall|u2: int|
                    0 <= u2 < u ==> cells@[plane_index(u2, v as int)] == border_cell(
                        chunk@.blocks,
                        side,
                        u2,
                        v as int,
                    ),
            decreases 16 - u,
        {
            let b = if a == 0 {
                chunk.block_at(edge, u, v)
            } else if a == 1 {
                chunk.block_at(u, edge, v)
            } else {
                chunk.block_at(u, v, edge)
            };
            cells.push(b.material);
            u = u + 1;
        }
        v = v + 1;
    }
    BorderPlane { cells }
}

/// The up-to-6 neighbor border planes a mesher consults for cross-chunk
/// occlusion, indexed by direction. An absent plane means no neighbor is
/// linked there, which reads as air: the face stays visible.
pub struct NeighborSnapshot {
    planes: Vec<Option<BorderPlane>>,
}

impl View for NeighborSnapshot {
    type V = Seq<Option<Seq<MaterialID>>>;

    closed spec fn view(&self) -> Seq<Option<Seq<MaterialID>>> {
        Seq::new(
            self.planes@.len(),
            |i: int|
                match self.planes@[i] {
                    Some(p) => Some(p@),
                    None => None,
                },
        )
    }
}

impl NeighborSnapshot {
    pub open spec fn wf(self) -> bool {
        &&& self@.len() == 6
        &&& forall|i: int|
            0 <= i < 6 ==> ((#[trigger] self@[i]) matches Some(p) ==> p.len() == 256)
    }

    /// A snapshot with no neighbor linked in any direction.
    pub fn empty() -> (s: NeighborSnapshot)
        ensures
            s.wf(),
            forall|i: int| 0 <= i < 6 ==> (#[trigger] s@[i]) is None,
    {
        let mut planes: Vec<Option<BorderPlane>> = Vec::new();
        let mut i: usize = 0;
        while i < 6
            invariant
                i <= 6,
                planes@.len() == i,
                forall|j: int| 0 <= j < i ==> (#[trigger] planes@[j]) is None,
            decreases 6 - i,
        {
            planes.push(None);
            i = i + 1;
        }
        NeighborSnapshot { planes }
    }

    /// Installs the border plane seen through the given direction.
    pub fn set_plane(&mut self, direction: AADirection, p: BorderPlane)
        requires
            old(self).wf(),
            p.wf(),
        ensures
            final(self).wf(),
            final(self)@ == old(self)@.update(direction.ix(), Some(p@)),
    {
        let i = direction.index();
        self.planes.set(i, Some(p));
        proof {
            assert(final(self)@ =~= old(self)@.update(direction.ix(), Some(p@)));
        }
    }

    /// The plane seen through the given direction, if a neighbor is linked.
    pub fn plane(&self, direction: AADirection) -> (r: Option<&BorderPlane>)
        requires
            self.wf(),
        ensures
            match r {
                Some(p) => self@[direction.ix()] == Some(p@),
                None => self@[direction.ix()] is None,
            },
    {
        match &self.planes[direction.index()] {
            Some(p) => Some(p),
            None => None,
        }
    }
}

/// Builds the snapshot for one chunk from whichever of its six neighbors
/// are currently resolvable: for each direction, the neighbor's boundary
/// plane on the side facing back toward the chunk.
pub fn snapshot_from(
    xp: Option<&Chunk>,
    xn: Option<&Chunk>,
    yp: Option<&Chunk>,
    yn: Option<&Chunk>,
    zp: Option<&Chunk>,
    zn: Option<&Chunk>,
) -> (s: NeighborSnapshot)
    requires
        (xp matches Some(c) ==> c.wf()),
        (xn matches Some(c) ==> c.wf()),
        (yp matches Some(c) ==> c.wf()),
        (yn matches Some(c) ==> c.wf()),
        (zp matches Some(c) ==> c.wf()),
        (zn matches Some(c) ==> c.wf()),
    ensures
        s.wf(),
        (match xp {
            Some(c) => s@[0] matches Some(p) && (forall|u: int, v: int|
                0 <= u < 16 && 0 <= v < 16 ==> p[plane_index(u, v)] == border_cell(
                    c@.blocks,
                    AADirection::XNegative,
                    u,
                    v,
                )),
            None => s@[0] is None,
        }),
        (match xn {
            Some(c) => s@[1] matches Some(p) && (forall|u: int, v: int|
                0 <= u < 16 && 0 <= v < 16 ==> p[plane_index(u, v)] == border_cell(
                    c@.blocks,
                    AADirection::XPositive,
                    u,
                    v,
                )),
            None => s@[1] is None,
        }),
        (match yp {
            Some(c) => s@[2] matches Some(p) && (forall|u: int, v: int|
                0 <= u < 16 && 0 <= v < 16 ==> p[plane_index(u, v)] == border_cell(
                    c@.blocks,
                    AADirection::YNegative,
                    u,
                    v,
                )),
            None => s@[2] is None,
        }),
        (match yn {
            Some(c) => s@[3] matches Some(p) && (forall|u: int, v: int|
                0 <= u < 16 && 0 <= v < 16 ==> p[plane_index(u, v)] == border_cell(
                    c@.blocks,
                    AADirection::YPositive,
                    u,
                    v,
                )),
            None => s@[3] is None,
        }),
        (match zp {
            Some(c) => s@[4] matches Some(p) && (forall|u: int, v: int|
                0 <= u < 16 && 0 <= v < 16 ==> p[plane_index(u, v)] == border_cell(
                    c@.blocks,
                    AADirection::ZNegative,
                    u,
                    v,
                )),
            None => s@[4] is None,
        }),
        (match zn {
            Some(c) => s@[5] matches Some(p) && (forall|u: int, v: int|
                0 <= u < 16 && 0 <= v < 16 ==> p[plane_index(u, v)] == border_cell(
                    c@.blocks,
                    AADirection::ZPositive,
                    u,
                    v,
                )),
            None => s@[5] is None,
        }),
{
    let mut s = NeighborSnapshot::empty();
    match xp {
        Some(c) => s.set_plane(AADirection::XPositive, border_plane(c, AADirection::XNegative)),
        None => (),
    }
    match xn {
        Some(c) => s.set_plane(AADirection::XNegative, border_plane(c, AADirection::XPositive)),
        None => (),
    }
    match yp {
        Some(c) => s.set_plane(AADirection::YPositive, border_plane(c, AADirection::YNegative)),
        None => (),
    }
    match yn {
        Some(c) => s.set_plane(AADirection::YNegative, border_plane(c, AADirection::YPositive)),
        None => (),
    }
    match zp {
        Some(c) => s.set_plane(AADirection::ZPositive, border_plane(c, AADirection::ZNegative)),
        None => (),
    }
    match zn {
        Some(c) => s.set_plane(AADirection::ZNegative, border_plane(c, AADirection::ZPositive)),
        None => (),
    }
    s
}

/// The material id of the block at (x, y, z).
pub open spec fn mat_id_at(blocks: Seq<Block>, x: int, y: int, z: int) -> u32 {
    blocks[chunk_index(x, y, z)].material.id
}

/// The plane coordinate of (x, y, z) along the first axis perpendicular to d.
pub open spec fn plane_u(d: AADirection, x: int, y: int, z: int) -> int {
    if d.axis() == 0 {
        y
    } else {
        x
    }
}

/// The plane coordinate of (x, y, z) along the second axis perpendicular to d.
pub open spec fn plane_v(d: AADirection, x: int, y: int, z: int) -> int {
    if d.axis() == 2 {
        y
    } else {
        z
    }
}

/// The material id of the voxel adjacent to (x, y, z) in direction d: taken
/// from this chunk's own blocks when the adjacent voxel is inside the chunk,
/// from the snapshot plane when it crosses the boundary, and air when no
/// neighbor is linked there.
pub open spec fn occluder_id(
    blocks: Seq<Block>,
    snap: Seq<Option<Seq<MaterialID>>>,
    x: int,
    y: int,
    z: int,
    d: AADirection,
) -> u32 {
    let nx = x + d.offset_x();
    let ny = y + d.offset_y();
    let nz = z + d.offset_z();
    if 0 <= nx < 16 && 0 <= ny < 16 && 0 <= nz < 16 {
        mat_id_at(blocks, nx, ny, nz)
    } else {
        match snap[d.ix()] {
            Some(p) => p[plane_index(plane_u(d, x, y, z), plane_v(d, x, y, z))].id,
            None => AIR_ID,
        }
    }
}

/// The occlusion rule: the face of voxel (x, y, z) toward d is visible when
/// the voxel is not air and the adjacent voxel in that direction does not
/// occlude it (it is air, transparent, unregistered, or in an unlinked
/// neighbor).
pub open spec fn face_visible(
    blocks: Seq<Block>,
    snap: Seq<Option<Seq<MaterialID>>>,
    reg: Seq<Material>,
    x: int,
    y: int,
    z: int,
    d: AADirection,
) -> bool {
    mat_id_at(blocks, x, y, z) != AIR_ID && !occludes(reg, occluder_id(blocks, snap, x, y, z, d))
}

/// Decides the occlusion rule for one voxel face.
pub fn face_visible_at(
    chunk: &Chunk,
    snap: &NeighborSnapshot,
    reg: &MaterialRegistry,
    x: usize,
    y: usize,
    z: usize,
    d: AADirection,
) -> (r: bool)
    requires
        chunk.wf(),
        snap.wf(),
        reg.wf(),
        x < 16,
        y < 16,
        z < 16,
    ensures
        r == face_visible(chunk@.blocks, snap@, reg@, x as int, y as int, z as int, d),
{
    let m = chunk.block_at(x, y, z).material;
    if m.id == AIR_ID {
        return false;
    }
    let a = d.axis_index();
    let positive = d.is_positive();
    let ox: i32 = if a == 0 { if positive { 1 } else { -1 } } else { 0 };
    let oy: i32 = if a == 1 { if positive { 1 } else { -1 } } else { 0 };
    let oz: i32 = if a == 2 { if positive { 1 } else { -1 } } else { 0 };
    let nx = x as i32 + ox;
    let ny = y as i32 + oy;
    let nz = z as i32 + oz;
    let occ: MaterialID = if 0 <= nx && nx < 16 && 0 <= ny && ny < 16 && 0 <= nz && nz < 16 {
        chunk.block_at(nx as usize, ny as usize, nz as usize).material
    } else {
        let u: usize = if a == 0 { y } else { x };
        let v: usize = if a == 2 { y } else { z };
        match snap.plane(d) {
            Some(p) => p.cell(u, v),
            None => MaterialID { id: AIR_ID },
        }
    };
    !reg.is_occluding(occ)
}

} // verus!
