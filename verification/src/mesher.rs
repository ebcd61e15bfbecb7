use vstd::prelude::*;
use crate::buffer::MAX_VERTICES;
use crate::buffer::MeshBuffer;
use crate::buffer::MeshError;
use crate::buffer::MeshView;
use crate::buffer::wf_mesh;
use crate::chunk::Block;
use crate::chunk::Chunk;
use crate::direction::AADirection;
use crate::emitter::FaceRec;
use crate::emitter::QuadFace;
use crate::emitter::build_buffer;
use crate::emitter::faces_of;
use crate::emitter::render;
use crate::material::Material;
use crate::material::MaterialID;
use crate::material::MaterialRegistry;
use crate::occlusion::NeighborSnapshot;
use crate::occlusion::face_visible;

verus! {

/// Number of (voxel, direction) pairs the naive sweep enumerates.
pub const NAIVE_STEPS: usize = 24576;

/// Voxel X coordinate of enumeration step i.
pub open spec fn step_x(i: int) -> int {
    (i / 6) % 16
}

/// Voxel Y coordinate of enumeration step i.
pub open spec fn step_y(i: int) -> int {
    (i / 96) % 16
}

/// Voxel Z coordinate of enumeration step i.
pub open spec fn step_z(i: int) -> int {
    i / 1536
}

/// Direction of enumeration step i.
pub open spec fn step_dir(i: int) -> AADirection {
    AADirection::from_ix(i % 6)
}

/// The faces the naive strategy emits for the first n enumeration steps:
/// voxels in storage order (x fastest, then y, then z), the six directions
/// innermost, one unit face per visible voxel face.
pub open spec fn naive_prefix(
    blocks: Seq<Block>,
    snap: Seq<Option<Seq<MaterialID>>>,
    reg: Seq<Material>,
    n: int,
) -> Seq<FaceRec>
    decreases n,
{
    if n <= 0 {
        Seq::empty()
    } else {
        let i = n - 1;
        naive_prefix(blocks, snap, reg, i) + (if face_visible(
            blocks,
            snap,
            reg,
            step_x(i),
            step_y(i),
            step_z(i),
            step_dir(i),
        ) {
            seq![
                FaceRec {
                    d: step_dir(i),
                    x: step_x(i),
                    y: step_y(i),
                    z: step_z(i),
                    w: 1,
                    h: 1,
                },
            ]
        } else {
            Seq::empty()
        })
    }
}

/// The complete, deterministically ordered face list of the naive strategy.
pub open spec fn naive_faces(
    blocks: Seq<Block>,
    snap: Seq<Option<Seq<MaterialID>>>,
    reg: Seq<Material>,
) -> Seq<FaceRec> {
    naive_prefix(blocks, snap, reg, 24576)
}

/// Walks every voxel and direction in a fixed order and collects one unit
/// quad per visible face.
pub fn naive_quads(chunk: &Chunk, snap: &NeighborSnapshot, reg: &MaterialRegistry) -> (q: Vec<
    QuadFace,
>)
    requires
        chunk.wf(),
        snap.wf(),
        reg.wf(),
    ensures
        faces_of(q@) == naive_faces(chunk@.blocks, snap@, reg@),
        forall|i: int| 0 <= i < q@.len() ==> (#[trigger] q@[i])@.wf(),
{
    let mut q: Vec<QuadFace> = Vec::new();
    let mut k: usize = 0;
    proof {
        assert(faces_of(q@) =~= naive_prefix(chunk@.blocks, snap@, reg@, 0));
    }
    while k < NAIVE_STEPS
        invariant
            k <= 24576,
            chunk.wf(),
            snap.wf(),
            reg.wf(),
            faces_of(q@) == naive_prefix(chunk@.blocks, snap@, reg@, k as int),
            forall|i: int| 0 <= i < q@.len() ==> (#[trigger] q@[i])@.wf(),
        decreases 24576 - k,
    {
        let d = AADirection::from_index(k % 6);
        let x = (k / 6) % 16;
        let y = (k / 96) % 16;
        let z = k / 1536;
        if crate::occlusion::face_visible_at(chunk, snap, reg, x, y, z, d) {
            q.push(QuadFace { d, x, y, z, w: 1, h: 1 });
        }
        proof {
            assert(faces_of(q@) =~= naive_prefix(chunk@.blocks, snap@, reg@, k + 1));
        }
        k = k + 1;
    }
    q
}

/// The naive strategy's full contract: the buffer is exactly the rendering
/// of the naive face list, or generation is aborted with
/// `VertexBudgetExceeded` exactly when that list would overflow the 16-bit
/// index space.
pub fn naive_generate_mesh(chunk: &Chunk, snap: &NeighborSnapshot, reg: &MaterialRegistry) -> (r:
    Result<MeshBuffer, MeshError>)
    requires
        chunk.wf(),
        snap.wf(),
        reg.wf(),
    ensures
        match r {
            Ok(b) => {
                &&& b@ == render(naive_faces(chunk@.blocks, snap@, reg@))
                &&& wf_mesh(b@)
                &&& 4 * naive_faces(chunk@.blocks, snap@, reg@).len() <= MAX_VERTICES
            },
            Err(e) => {
                &&& e == MeshError::VertexBudgetExceeded
                &&& 4 * naive_faces(chunk@.blocks, snap@, reg@).len() > MAX_VERTICES
            },
        },
{
    let q = naive_quads(chunk, snap, reg);
    build_buffer(&q)
}

/// A meshing strategy: a pure function of the chunk's block contents and
/// the border occlusion snapshot to a complete triangle mesh. Every
/// strategy maintains the buffer invariants and reports a vertex-budget
/// overflow instead of truncating.
pub trait ChunkMesher {
    fn generate_mesh(chunk: &Chunk, snap: &NeighborSnapshot, reg: &MaterialRegistry) -> (r: Result<
        MeshBuffer,
        MeshError,
    >)
        requires
            chunk.wf(),
            snap.wf(),
            reg.wf(),
        ensures
            (match r {
                Ok(b) => wf_mesh(b@),
                Err(e) => e == MeshError::VertexBudgetExceeded,
            }),
    ;
}

/// The baseline strategy: one unit quad per visible voxel face, no merging.
pub struct NaiveChunkMesher {}

impl ChunkMesher for NaiveChunkMesher {
    fn generate_mesh(chunk: &Chunk, snap: &NeighborSnapshot, reg: &MaterialRegistry) -> (r: Result<
        MeshBuffer,
        MeshError,
    >)
        ensures
            match r {
                Ok(b) => {
                    &&& b@ == render(naive_faces(chunk@.blocks, snap@, reg@))
                    &&& 4 * naive_faces(chunk@.blocks, snap@, reg@).len() <= MAX_VERTICES
                },
                Err(e) => 4 * naive_faces(chunk@.blocks, snap@, reg@).len() > MAX_VERTICES,
            },
    {
        naive_generate_mesh(chunk, snap, reg)
    }
}

/// Meshing reads nothing but the block contents, the snapshot and the
/// registry: two generations over the same state, whatever the dirty flag
/// or the neighbor links did in between, are bit-identical.
pub proof fn lemma_naive_mesh_idempotent(
    blocks: Seq<Block>,
    snap: Seq<Option<Seq<MaterialID>>>,
    reg: Seq<Material>,
    m1: MeshView,
    m2: MeshView,
)
    requires
        m1 == render(naive_faces(blocks, snap, reg)),
        m2 == render(naive_faces(blocks, snap, reg)),
    ensures
        m1 == m2,
{
}

} // verus!
