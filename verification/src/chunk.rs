use vstd::prelude::*;
use crate::buffer::MeshError;
use crate::direction::AADirection;
use crate::material::AIR_ID;
use crate::material::MaterialID;

verus! {

/// Chunk extent along X.
pub const SIZE_X: usize = 16;

/// Chunk extent along Y.
pub const SIZE_Y: usize = 16;

/// Chunk extent along Z.
pub const SIZE_Z: usize = 16;

/// Number of blocks in a chunk.
pub const VOLUME: usize = SIZE_X * SIZE_Y * SIZE_Z;

/// A single voxel cell: a reference to its material. Owned by exactly one
/// chunk cell.
#[derive(Copy, Clone, PartialEq, Eq, Structural, Debug)]
pub struct Block {
    pub material: MaterialID,
}

impl Default for Block {
    /// The default block is air.
    fn default() -> (r: Self)
        ensures
            r.material.id == AIR_ID,
    {
        Block { material: MaterialID { id: AIR_ID } }
    }
}

/// A non-owning handle to a chunk, resolved through the host's chunk
/// registry. Neighbor links never own the neighbor, so mutually adjacent
/// chunks form no ownership cycle.
#[derive(Copy, Clone, PartialEq, Eq, Structural, Hash, Debug)]
pub struct ChunkHandle {
    pub id: u64,
}

/// The linear index of voxel (x, y, z): x varies fastest, then y, then z.
pub open spec fn chunk_index(x: int, y: int, z: int) -> int {
    16 * (16 * z + y) + x
}

/// The mathematical content of a chunk.
pub ghost struct ChunkView {
    pub blocks: Seq<Block>,
    pub updated: bool,
    pub neighbors: Seq<Option<ChunkHandle>>,
}

/// A fixed-size 16 x 16 x 16 grid of blocks, plus up-to-6 non-owning
/// neighbor handles and a dirty flag for change tracking.
pub struct Chunk {
    blocks: Vec<Block>,
    updated: bool,
    neighbors: Vec<Option<ChunkHandle>>,
}

impl View for Chunk {
    type V = ChunkView;

    closed spec fn view(&self) -> ChunkView {
        ChunkView { blocks: self.blocks@, updated: self.updated, neighbors: self.neighbors@ }
    }
}

impl Chunk {
    /// The storage always holds one block per cell and one neighbor slot per
    /// direction.
    pub open spec fn wf(self) -> bool {
        &&& self@.blocks.len() == 4096
        &&& self@.neighbors.len() == 6
    }

    /// A freshly created chunk: all air, no neighbors linked, and marked
    /// changed, so it is meshed at least once.
    pub fn empty() -> (c: Chunk)
        ensures
            c.wf(),
            c@.updated == true,
            forall|i: int| 0 <= i < 4096 ==> (#[trigger] c@.blocks[i]).material.id == AIR_ID,
            forall|i: int| 0 <= i < 6 ==> c@.neighbors[i] is None,
    {
        let mut blocks: Vec<Block> = Vec::new();
        let mut i: usize = 0;
        while i < VOLUME
            invariant
                i <= 4096,
                blocks@.len() == i,
                forall|j: int| 0 <= j < i ==> (#[trigger] blocks@[j]).material.id == AIR_ID,
            decreases 4096 - i,
        {
            blocks.push(Block { material: MaterialID { id: AIR_ID } });
            i = i + 1;
        }
        let mut neighbors: Vec<Option<ChunkHandle>> = Vec::new();
        let mut d: usize = 0;
        while d < 6
            invariant
                d <= 6,
                neighbors@.len() == d,
                forall|j: int| 0 <= j < d ==> neighbors@[j] is None,
            decreases 6 - d,
        {
            neighbors.push(None);
            d = d + 1;
        }
        Chunk { blocks, updated: true, neighbors }
    }

    /// Links the neighbor on the given side. The link is a lookup relation
    /// only; the chunk never owns its neighbor.
    pub fn set_neighbor(&mut self, handle: ChunkHandle, direction: AADirection)
        requires
            old(self).wf(),
        ensures
            final(self).wf(),
            final(self)@.neighbors == old(self)@.neighbors.update(direction.ix(), Some(handle)),
            final(self)@.blocks == old(self)@.blocks,
            final(self)@.updated == old(self)@.updated,
    {
        let i = direction.index();
        self.neighbors.set(i, Some(handle));
    }

    /// The neighbor linked on the given side, if any. Absent links are the
    /// normal state at the edge of the loaded world.
    pub fn get_neighbor(&self, direction: AADirection) -> (r: Option<ChunkHandle>)
        requires
            self.wf(),
        ensures
            r == self@.neighbors[direction.ix()],
    {
        self.neighbors[direction.index()]
    }

    /// All six neighbor slots, indexed by direction.
    pub fn neighbors(&self) -> (r: &Vec<Option<ChunkHandle>>)
        ensures
            r@ == self@.neighbors,
    {
        &self.neighbors
    }

    /// The block at (x, y, z). Out-of-range coordinates are a programming
    /// error and are excluded by the precondition; they are never clamped.
    pub fn block_at(&self, x: usize, y: usize, z: usize) -> (r: &Block)
        requires
            self.wf(),
            x < 16,
            y < 16,
            z < 16,
        ensures
            *r == self@.blocks[chunk_index(x as int, y as int, z as int)],
    {
        &self.blocks[16 * (16 * z + y) + x]
    }

    /// The block at (x, y, z), or `OutOfRange` for a coordinate outside the
    /// chunk extents: the checked form of `block_at` for callers that cannot
    /// establish the bounds themselves. Never clamps.
    pub fn try_block_at(&self, x: usize, y: usize, z: usize) -> (r: Result<Block, MeshError>)
        requires
            self.wf(),
        ensures
            x < 16 && y < 16 && z < 16 ==> r == Ok::<Block, MeshError>(
                self@.blocks[chunk_index(x as int, y as int, z as int)],
            ),
            !(x < 16 && y < 16 && z < 16) ==> r == Err::<Block, MeshError>(MeshError::OutOfRange),
    {
        if x < 16 && y < 16 && z < 16 {
            Ok(*self.block_at(x, y, z))
        } else {
            Err(MeshError::OutOfRange)
        }
    }

    /// Overwrites the block at (x, y, z). Does not touch the dirty flag:
    /// callers that mutate blocks must also call `set_change`, as the change
    /// tracking contract documents.
    pub fn set_block(&mut self, x: usize, y: usize, z: usize, b: Block)
        requires
            old(self).wf(),
            x < 16,
            y < 16,
            z < 16,
        ensures
            final(self).wf(),
            final(self)@.blocks == old(self)@.blocks.update(
                chunk_index(x as int, y as int, z as int),
                b,
            ),
            final(self)@.updated == old(self)@.updated,
            final(self)@.neighbors == old(self)@.neighbors,
    {
        self.blocks.set(16 * (16 * z + y) + x, b);
    }

    /// Whether any block changed since the last successful remesh.
    pub fn has_changed(&self) -> (r: bool)
        ensures
            r == self@.updated,
    {
        self.updated
    }

    /// Marks the chunk dirty. Called by any mutator that touches a block.
    pub fn set_change(&mut self)
        ensures
            final(self)@.updated == true,
            final(self)@.blocks == old(self)@.blocks,
            final(self)@.neighbors == old(self)@.neighbors,
    {
        self.updated = true;
    }

    /// Clears the dirty flag. Called once per tick by the scheduler after it
    /// consumed a successfully generated mesh.
    pub fn clear_change(&mut self)
        ensures
            final(self)@.updated == false,
            final(self)@.blocks == old(self)@.blocks,
            final(self)@.neighbors == old(self)@.neighbors,
    {
        self.updated = false;
    }
}

} // verus!
