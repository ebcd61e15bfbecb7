use voxel_mesh::buffer::MeshBuffer;
use voxel_mesh::buffer::MeshError;
use voxel_mesh::chunk::Block;
use voxel_mesh::chunk::Chunk;
use voxel_mesh::chunk::ChunkHandle;
use voxel_mesh::direction::AADirection;
use voxel_mesh::emitter::QuadFace;
use voxel_mesh::emitter::build_buffer;
use voxel_mesh::emitter::insert_face;
use voxel_mesh::greedy::GreedyChunkMesher;
use voxel_mesh::greedy::greedy_quads;
use voxel_mesh::material::MaterialID;
use voxel_mesh::material::MaterialRegistry;
use voxel_mesh::mesher::ChunkMesher;
use voxel_mesh::mesher::NaiveChunkMesher;
use voxel_mesh::mesher::naive_quads;
use voxel_mesh::occlusion::NeighborSnapshot;
use voxel_mesh::occlusion::snapshot_from;

fn stone_registry() -> (MaterialRegistry, MaterialID) {
    let mut reg = MaterialRegistry::new();
    let stone = reg.register(false, false);
    (reg, stone)
}

fn fill(chunk: &mut Chunk, id: MaterialID) {
    for z in 0..16 {
        for y in 0..16 {
            for x in 0..16 {
                chunk.set_block(x, y, z, Block { material: id });
            }
        }
    }
}

/// The axis of a direction: 0 for X, 1 for Y, 2 for Z.
fn axis_of(d: &AADirection) -> usize {
    d.axis_index()
}

/// Whether quad q covers the unit face of voxel (x, y, z) toward q.d.
fn covers(q: &QuadFace, x: usize, y: usize, z: usize) -> bool {
    match axis_of(&q.d) {
        0 => q.x == x && q.y <= y && y < q.y + q.w && q.z <= z && z < q.z + q.h,
        1 => q.y == y && q.x <= x && x < q.x + q.w && q.z <= z && z < q.z + q.h,
        _ => q.z == z && q.x <= x && x < q.x + q.w && q.y <= y && y < q.y + q.h,
    }
}

fn area_by_dir(quads: &[QuadFace]) -> [usize; 6] {
    let mut a = [0usize; 6];
    for q in quads {
        a[q.d.index()] += q.w * q.h;
    }
    a
}

fn count_by_dir(quads: &[QuadFace]) -> [usize; 6] {
    let mut a = [0usize; 6];
    for q in quads {
        a[q.d.index()] += 1;
    }
    a
}

fn check_buffer_invariants(b: &MeshBuffer) {
    let n = b.positions().len();
    assert_eq!(b.normals().len(), n);
    assert_eq!(b.uvs().len(), n);
    assert_eq!(b.indices().len() % 3, 0);
    for &ix in b.indices().iter() {
        assert!((ix as usize) < n);
    }
}

/// A small asymmetric scene: an L of stone, a glass pane, a lone cube.
fn sample_scene() -> (Chunk, MaterialRegistry) {
    let mut reg = MaterialRegistry::new();
    let stone = reg.register(false, false);
    let glass = reg.register(true, false);
    let mut c = Chunk::empty();
    for x in 0..5 {
        c.set_block(x, 3, 3, Block { material: stone });
    }
    for y in 3..8 {
        c.set_block(4, y, 3, Block { material: stone });
    }
    c.set_block(10, 10, 10, Block { material: stone });
    c.set_block(5, 3, 3, Block { material: glass });
    c.set_block(0, 0, 15, Block { material: stone });
    (c, reg)
}

#[test]
fn empty_chunk_produces_no_faces() {
    let c = Chunk::empty();
    let snap = NeighborSnapshot::empty();
    let (reg, _) = stone_registry();
    let naive = NaiveChunkMesher::generate_mesh(&c, &snap, &reg).unwrap();
    assert_eq!(naive.positions().len(), 0);
    assert_eq!(naive.indices().len(), 0);
    let greedy = GreedyChunkMesher::generate_mesh(&c, &snap, &reg).unwrap();
    assert_eq!(greedy.positions().len(), 0);
    assert_eq!(greedy.indices().len(), 0);
}

#[test]
fn single_voxel_yields_six_unit_quads() {
    let (reg, stone) = stone_registry();
    let mut c = Chunk::empty();
    c.set_block(5, 6, 7, Block { material: stone });
    let snap = NeighborSnapshot::empty();
    let nq = naive_quads(&c, &snap, &reg);
    assert_eq!(nq.len(), 6);
    let gq = greedy_quads(&c, &snap, &reg);
    assert_eq!(gq.len(), 6);
    for q in &gq {
        assert_eq!((q.w, q.h), (1, 1));
    }
    assert_eq!(count_by_dir(&gq), [1, 1, 1, 1, 1, 1]);
    let mesh = GreedyChunkMesher::generate_mesh(&c, &snap, &reg).unwrap();
    assert_eq!(mesh.positions().len(), 24);
    assert_eq!(mesh.indices().len(), 36);
}

#[test]
fn full_chunk_is_a_bounding_box() {
    let (reg, stone) = stone_registry();
    let mut c = Chunk::empty();
    fill(&mut c, stone);
    let snap = NeighborSnapshot::empty();
    let gq = greedy_quads(&c, &snap, &reg);
    assert_eq!(gq.len(), 6);
    for q in &gq {
        assert_eq!((q.w, q.h), (16, 16));
    }
    let nq = naive_quads(&c, &snap, &reg);
    assert_eq!(nq.len(), 6 * 256);
    let mesh = GreedyChunkMesher::generate_mesh(&c, &snap, &reg).unwrap();
    assert_eq!(mesh.positions().len(), 24);
    assert_eq!(mesh.indices().len(), 36);
}

#[test]
fn face_count_equivalence_per_direction() {
    let (c, reg) = sample_scene();
    let snap = NeighborSnapshot::empty();
    let nq = naive_quads(&c, &snap, &reg);
    let gq = greedy_quads(&c, &snap, &reg);
    for q in &nq {
        assert_eq!((q.w, q.h), (1, 1));
    }
    assert_eq!(area_by_dir(&gq), count_by_dir(&nq));
}

#[test]
fn no_double_counting_in_merged_output() {
    let (c, reg) = sample_scene();
    let snap = NeighborSnapshot::empty();
    let nq = naive_quads(&c, &snap, &reg);
    let gq = greedy_quads(&c, &snap, &reg);
    for di in 0..6 {
        let d = AADirection::from_index(di);
        for x in 0..16 {
            for y in 0..16 {
                for z in 0..16 {
                    let covering = gq
                        .iter()
                        .filter(|q| q.d == d && covers(q, x, y, z))
                        .count();
                    let visible = nq
                        .iter()
                        .any(|q| q.d == d && (q.x, q.y, q.z) == (x, y, z));
                    assert_eq!(covering, if visible { 1 } else { 0 });
                }
            }
        }
    }
}

#[test]
fn buffer_invariants_hold_after_generation() {
    let (c, reg) = sample_scene();
    let snap = NeighborSnapshot::empty();
    check_buffer_invariants(&NaiveChunkMesher::generate_mesh(&c, &snap, &reg).unwrap());
    check_buffer_invariants(&GreedyChunkMesher::generate_mesh(&c, &snap, &reg).unwrap());
}

#[test]
fn winding_matches_outward_normal() {
    let (reg, stone) = stone_registry();
    let mut c = Chunk::empty();
    c.set_block(8, 8, 8, Block { material: stone });
    let snap = NeighborSnapshot::empty();
    let mesh = GreedyChunkMesher::generate_mesh(&c, &snap, &reg).unwrap();
    let pos = mesh.positions();
    let nor = mesh.normals();
    let idx = mesh.indices();
    assert_eq!(idx.len() % 6, 0);
    for quad in 0..idx.len() / 6 {
        let base = idx[6 * quad] as usize;
        let n = nor[base];
        for k in 0..4 {
            assert_eq!(nor[base + k], n);
        }
        assert_eq!(n.x.abs() + n.y.abs() + n.z.abs(), 1);
        for tri in 0..2 {
            let a = pos[idx[6 * quad + 3 * tri] as usize];
            let b = pos[idx[6 * quad + 3 * tri + 1] as usize];
            let cv = pos[idx[6 * quad + 3 * tri + 2] as usize];
            let (ex, ey, ez) = (b.x - a.x, b.y - a.y, b.z - a.z);
            let (fx, fy, fz) = (cv.x - a.x, cv.y - a.y, cv.z - a.z);
            let cross = (ey * fz - ez * fy, ez * fx - ex * fz, ex * fy - ey * fx);
            let dot = cross.0 * n.x + cross.1 * n.y + cross.2 * n.z;
            assert!(dot > 0, "triangle winds against its normal");
            assert_eq!((cross.0 * n.y, cross.0 * n.z), (0, 0));
        }
    }
}

#[test]
fn generation_is_idempotent() {
    let (mut c, reg) = sample_scene();
    let snap = NeighborSnapshot::empty();
    let first = GreedyChunkMesher::generate_mesh(&c, &snap, &reg).unwrap();
    c.clear_change();
    let second = GreedyChunkMesher::generate_mesh(&c, &snap, &reg).unwrap();
    assert_eq!(first.positions(), second.positions());
    assert_eq!(first.normals(), second.normals());
    assert_eq!(first.uvs(), second.uvs());
    assert_eq!(first.indices(), second.indices());
    let n1 = NaiveChunkMesher::generate_mesh(&c, &snap, &reg).unwrap();
    let n2 = NaiveChunkMesher::generate_mesh(&c, &snap, &reg).unwrap();
    assert_eq!(n1.positions(), n2.positions());
    assert_eq!(n1.indices(), n2.indices());
}

#[test]
fn occlusion_with_all_neighbors_filled() {
    let (reg, stone) = stone_registry();
    let mut c = Chunk::empty();
    fill(&mut c, stone);
    let mut nb = Chunk::empty();
    fill(&mut nb, stone);
    let snap = snapshot_from(Some(&nb), Some(&nb), Some(&nb), Some(&nb), Some(&nb), Some(&nb));
    let gq = greedy_quads(&c, &snap, &reg);
    assert_eq!(gq.len(), 0);
    let part = snapshot_from(Some(&nb), None, None, None, None, None);
    let gq2 = greedy_quads(&c, &part, &reg);
    assert_eq!(gq2.len(), 5);
}

#[test]
fn material_partition_blocks_merging() {
    let mut reg = MaterialRegistry::new();
    let a = reg.register(false, false);
    let b = reg.register(false, false);
    let mut c = Chunk::empty();
    c.set_block(0, 0, 0, Block { material: a });
    c.set_block(1, 0, 0, Block { material: b });
    let snap = NeighborSnapshot::empty();
    let gq = greedy_quads(&c, &snap, &reg);
    let nq = naive_quads(&c, &snap, &reg);
    assert_eq!(nq.len(), 10);
    assert_eq!(gq.len(), 10);
    for q in &gq {
        assert_eq!((q.w, q.h), (1, 1));
    }
}

#[test]
fn same_material_does_merge() {
    let (reg, stone) = stone_registry();
    let mut c = Chunk::empty();
    c.set_block(0, 0, 0, Block { material: stone });
    c.set_block(1, 0, 0, Block { material: stone });
    let snap = NeighborSnapshot::empty();
    let gq = greedy_quads(&c, &snap, &reg);
    let nq = naive_quads(&c, &snap, &reg);
    assert_eq!(nq.len(), 10);
    assert_eq!(gq.len(), 6);
    assert_eq!(gq.iter().map(|q| q.w * q.h).sum::<usize>(), 10);
}

#[test]
fn transparent_neighbor_keeps_face_visible() {
    let mut reg = MaterialRegistry::new();
    let stone = reg.register(false, false);
    let glass = reg.register(true, false);
    let mut c = Chunk::empty();
    c.set_block(0, 0, 0, Block { material: stone });
    c.set_block(1, 0, 0, Block { material: glass });
    let snap = NeighborSnapshot::empty();
    let nq = naive_quads(&c, &snap, &reg);
    // the stone keeps all 6 faces (glass does not occlude); the glass loses
    // only its face against the stone
    assert_eq!(nq.len(), 11);
}

#[test]
fn dirty_lifecycle() {
    let (reg, stone) = stone_registry();
    let mut c = Chunk::empty();
    assert!(c.has_changed());
    let snap = NeighborSnapshot::empty();
    let _ = GreedyChunkMesher::generate_mesh(&c, &snap, &reg).unwrap();
    c.clear_change();
    assert!(!c.has_changed());
    c.set_block(1, 2, 3, Block { material: stone });
    c.set_change();
    assert!(c.has_changed());
}

#[test]
fn emitter_exact_unit_face() {
    let mut mesh = MeshBuffer::new();
    insert_face(AADirection::XPositive, 0, 0, 0, 1, 1, &mut mesh);
    let p: Vec<(i32, i32, i32)> = mesh.positions().iter().map(|v| (v.x, v.y, v.z)).collect();
    assert_eq!(p, vec![(1, 0, 0), (1, 1, 0), (1, 1, 1), (1, 0, 1)]);
    for n in mesh.normals().iter() {
        assert_eq!((n.x, n.y, n.z), (1, 0, 0));
    }
    let uv: Vec<(i32, i32)> = mesh.uvs().iter().map(|v| (v.x, v.y)).collect();
    assert_eq!(uv, vec![(0, 0), (1, 0), (1, 1), (0, 1)]);
    assert_eq!(mesh.indices().as_slice(), &[0, 1, 2, 2, 3, 0]);
    insert_face(AADirection::YNegative, 2, 3, 4, 2, 5, &mut mesh);
    assert_eq!(mesh.positions().len(), 8);
    assert_eq!(mesh.indices()[6], 4);
    let q: Vec<(i32, i32, i32)> = mesh.positions()[4..].iter().map(|v| (v.x, v.y, v.z)).collect();
    assert_eq!(q, vec![(2, 3, 4), (4, 3, 4), (4, 3, 9), (2, 3, 9)]);
}

#[test]
fn vertex_budget_is_reported_not_truncated() {
    let mut quads: Vec<QuadFace> = Vec::new();
    for _ in 0..16385 {
        quads.push(QuadFace { d: AADirection::XPositive, x: 0, y: 0, z: 0, w: 1, h: 1 });
    }
    match build_buffer(&quads) {
        Err(MeshError::VertexBudgetExceeded) => {}
        _ => panic!("expected the vertex budget error"),
    }
    quads.truncate(16384);
    let b = build_buffer(&quads).unwrap();
    assert_eq!(b.positions().len(), 65536);
}

#[test]
fn out_of_range_is_an_error() {
    let c = Chunk::empty();
    assert_eq!(c.try_block_at(16, 0, 0), Err(MeshError::OutOfRange));
    assert_eq!(c.try_block_at(0, 99, 0), Err(MeshError::OutOfRange));
    let b = c.try_block_at(3, 4, 5).unwrap();
    assert_eq!(b.material.id, 0);
}

#[test]
fn registry_assigns_sequential_ids() {
    let mut reg = MaterialRegistry::new();
    assert_eq!(reg.len(), 1);
    let stone = reg.register(false, false);
    let glass = reg.register(true, false);
    assert_eq!(stone, MaterialID::from(1));
    assert_eq!(glass.id, 2);
    let m = reg.lookup(stone).unwrap();
    assert!(!m.transparent && !m.custom_model);
    let g = reg.lookup(glass).unwrap();
    assert!(g.transparent);
    assert!(reg.lookup(MaterialID::from(9)).is_none());
    assert!(reg.is_occluding(stone));
    assert!(!reg.is_occluding(glass));
    assert!(!reg.is_occluding(MaterialID::from(0)));
    assert!(!reg.is_occluding(MaterialID::from(9)));
}

#[test]
fn chunk_accessors_and_neighbors() {
    let (_, stone) = stone_registry();
    let mut c = Chunk::empty();
    c.set_block(15, 0, 15, Block { material: stone });
    assert_eq!(c.block_at(15, 0, 15).material, stone);
    assert_eq!(c.block_at(0, 0, 0).material.id, 0);
    assert!(c.get_neighbor(AADirection::ZNegative).is_none());
    c.set_neighbor(ChunkHandle { id: 42 }, AADirection::ZNegative);
    assert_eq!(c.get_neighbor(AADirection::ZNegative), Some(ChunkHandle { id: 42 }));
    assert_eq!(c.neighbors().len(), 6);
    assert_eq!(c.neighbors()[AADirection::ZNegative.index()], Some(ChunkHandle { id: 42 }));
}

#[test]
fn direction_classification() {
    for i in 0..6 {
        let d = AADirection::from_index(i);
        assert_eq!(d.index(), i);
        assert_eq!(d.is_positive(), !d.is_negative());
        let o = d.opposite();
        assert_eq!(o.axis_index(), d.axis_index());
        assert_eq!(o.is_positive(), d.is_negative());
    }
    assert!(AADirection::XPositive.is_positive());
    assert!(AADirection::YNegative.is_negative());
}

#[test]
fn boundary_faces_follow_neighbor_content() {
    let (reg, stone) = stone_registry();
    let mut c = Chunk::empty();
    c.set_block(15, 5, 5, Block { material: stone });
    // a neighbor on +X whose x = 0 plane is filled occludes the +X face
    let mut nb = Chunk::empty();
    for y in 0..16 {
        for z in 0..16 {
            nb.set_block(0, y, z, Block { material: stone });
        }
    }
    let snap = snapshot_from(Some(&nb), None, None, None, None, None);
    let nq = naive_quads(&c, &snap, &reg);
    assert_eq!(nq.len(), 5);
    // without the neighbor the face is treated as exposed to air
    let open = NeighborSnapshot::empty();
    let nq2 = naive_quads(&c, &open, &reg);
    assert_eq!(nq2.len(), 6);
}
