use vstd::prelude::*;

verus! {

/// Hard cap on vertices per chunk mesh: the 16-bit index space.
pub const MAX_VERTICES: usize = 65536;

/// A 3D point or vector with integral components. Voxel geometry is
/// integral; the host scales to its floating-point vertex format.
#[derive(Copy, Clone, PartialEq, Eq, Structural, Debug)]
pub struct Vec3i {
    pub x: i32,
    pub y: i32,
    pub z: i32,
}

/// A 2D point with integral components, used for texel-unit UV extents.
#[derive(Copy, Clone, PartialEq, Eq, Structural, Debug)]
pub struct Vec2i {
    pub x: i32,
    pub y: i32,
}

/// Why mesh generation for one chunk was aborted. Such a chunk stays dirty
/// and is retried; other chunks are unaffected.
#[derive(Copy, Clone, PartialEq, Eq, Structural, Debug)]
pub enum MeshError {
    /// A block coordinate outside the chunk extents.
    OutOfRange,
    /// The merged geometry would need more than the 16-bit index space
    /// allows; silent wraparound is forbidden.
    VertexBudgetExceeded,
}

/// The mathematical content of a mesh buffer.
pub ghost struct MeshView {
    pub positions: Seq<Vec3i>,
    pub normals: Seq<Vec3i>,
    pub uvs: Seq<Vec2i>,
    pub indices: Seq<u16>,
}

/// The buffer invariants: the attribute arrays are parallel, the index list
/// is whole triangles, and every index addresses an existing vertex.
pub open spec fn wf_mesh(m: MeshView) -> bool {
    &&& m.normals.len() == m.positions.len()
    &&& m.uvs.len() == m.positions.len()
    &&& m.indices.len() % 3 == 0
    &&& forall|j: int| 0 <= j < m.indices.len() ==> (#[trigger] m.indices[j]) < m.positions.len()
}

/// The content of a freshly created buffer.
pub open spec fn empty_mesh() -> MeshView {
    MeshView {
        positions: Seq::empty(),
        normals: Seq::empty(),
        uvs: Seq::empty(),
        indices: Seq::empty(),
    }
}

/// An accumulator of vertex attributes (positions, normals, UVs, all
/// parallel) and 16-bit triangle indices, built incrementally by the face
/// emitter.
pub struct MeshBuffer {
    positions: Vec<Vec3i>,
    normals: Vec<Vec3i>,
    uvs: Vec<Vec2i>,
    indices: Vec<u16>,
}

impl View for MeshBuffer {
    type V = MeshView;

    closed spec fn view(&self) -> MeshView {
        MeshView {
            positions: self.positions@,
            normals: self.normals@,
            uvs: self.uvs@,
            indices: self.indices@,
        }
    }
}

impl MeshBuffer {
    pub fn new() -> (r: MeshBuffer)
        ensures
            r@ == empty_mesh(),
    {
        let r = MeshBuffer {
            positions: Vec::new(),
            normals: Vec::new(),
            uvs: Vec::new(),
            indices: Vec::new(),
        };
        proof {
            assert(r@.positions =~= empty_mesh().positions);
            assert(r@.normals =~= empty_mesh().normals);
            assert(r@.uvs =~= empty_mesh().uvs);
            assert(r@.indices =~= empty_mesh().indices);
        }
        r
    }

    /// The number of vertices accumulated so far: the base index of the next
    /// emitted face.
    pub fn vertex_count(&self) -> (n: usize)
        ensures
            n == self@.positions.len(),
    {
        self.positions.len()
    }

    /// Appends one vertex: its position, normal and UV in lockstep.
    pub fn push_vertex(&mut self, p: Vec3i, n: Vec3i, uv: Vec2i)
        ensures
            final(self)@.positions == old(self)@.positions.push(p),
            final(self)@.normals == old(self)@.normals.push(n),
            final(self)@.uvs == old(self)@.uvs.push(uv),
            final(self)@.indices == old(self)@.indices,
    {
        self.positions.push(p);
        self.normals.push(n);
        self.uvs.push(uv);
    }

    /// Appends one index.
    pub fn push_index(&mut self, ix: u16)
        ensures
            final(self)@.indices == old(self)@.indices.push(ix),
            final(self)@.positions == old(self)@.positions,
            final(self)@.normals == old(self)@.normals,
            final(self)@.uvs == old(self)@.uvs,
    {
        self.indices.push(ix);
    }

    pub fn positions(&self) -> (r: &Vec<Vec3i>)
        ensures
            r@ == self@.positions,
    {
        &self.positions
    }

    pub fn normals(&self) -> (r: &Vec<Vec3i>)
        ensures
            r@ == self@.normals,
    {
        &self.normals
    }

    pub fn uvs(&self) -> (r: &Vec<Vec2i>)
        ensures
            r@ == self@.uvs,
    {
        &self.uvs
    }

    pub fn indices(&self) -> (r: &Vec<u16>)
        ensures
            r@ == self@.indices,
    {
        &self.indices
    }
}

} // verus!
