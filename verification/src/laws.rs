use vstd::prelude::*;
use crate::chunk::Block;
use crate::chunk::chunk_index;
use crate::counting::count_below;
use crate::counting::lemma_count_disjoint;
use crate::counting::lemma_count_equiv;
use crate::counting::lemma_count_none;
use crate::counting::lemma_count_single;
use crate::direction::AADirection;
use crate::emitter::FaceRec;
use crate::greedy::face_covers;
use crate::greedy::greedy_cover;
use crate::material::Material;
use crate::material::MaterialID;
use crate::mesher::naive_faces;
use crate::mesher::naive_prefix;
use crate::mesher::step_dir;
use crate::mesher::step_x;
use crate::mesher::step_y;
use crate::mesher::step_z;
use crate::occlusion::face_visible;
use vstd::arithmetic::div_mod::lemma_div_denominator;
use vstd::arithmetic::div_mod::lemma_fundamental_div_mod_converse;

verus! {

/// X coordinate of the voxel with storage code c.
pub open spec fn cell_x(c: int) -> int {
    c % 16
}

/// Y coordinate of the voxel with storage code c.
pub open spec fn cell_y(c: int) -> int {
    (c / 16) % 16
}

/// Z coordinate of the voxel with storage code c.
pub open spec fn cell_z(c: int) -> int {
    c / 256
}

/// Whether the voxel with storage code c shows a visible face toward d.
pub open spec fn visible_pred(
    blocks: Seq<Block>,
    snap: Seq<Option<Seq<MaterialID>>>,
    reg: Seq<Material>,
    d: AADirection,
) -> spec_fn(int) -> bool {
    |c: int| face_visible(blocks, snap, reg, cell_x(c), cell_y(c), cell_z(c), d)
}

/// The number of visible unit faces toward d: the surface the mesh must
/// show in that direction, whatever the strategy.
pub open spec fn visible_count(
    blocks: Seq<Block>,
    snap: Seq<Option<Seq<MaterialID>>>,
    reg: Seq<Material>,
    d: AADirection,
) -> int {
    count_below(visible_pred(blocks, snap, reg, d), 4096)
}

/// Whether face f covers the voxel with storage code c.
pub open spec fn covers_pred(f: FaceRec) -> spec_fn(int) -> bool {
    |c: int| face_covers(f, cell_x(c), cell_y(c), cell_z(c))
}

/// Whether some face of direction d in fs covers the voxel with code c.
pub open spec fn covered_pred(fs: Seq<FaceRec>, d: AADirection) -> spec_fn(int) -> bool {
    |c: int|
        exists|i: int|
            0 <= i < fs.len() && (#[trigger] fs[i]).d == d && face_covers(
                fs[i],
                cell_x(c),
                cell_y(c),
                cell_z(c),
            )
}

/// The total area, in unit faces, of the faces of direction d.
pub open spec fn area_dir(fs: Seq<FaceRec>, d: AADirection) -> int
    decreases fs.len(),
{
    if fs.len() == 0 {
        0
    } else {
        area_dir(fs.drop_last(), d) + if fs.last().d == d {
            fs.last().w * fs.last().h
        } else {
            0
        }
    }
}

/// The number of faces of direction d.
pub open spec fn count_dir(fs: Seq<FaceRec>, d: AADirection) -> int
    decreases fs.len(),
{
    if fs.len() == 0 {
        0
    } else {
        count_dir(fs.drop_last(), d) + if fs.last().d == d {
            1int
        } else {
            0int
        }
    }
}

/// For a list of unit faces the area per direction is the face count.
pub proof fn lemma_unit_area_is_count(fs: Seq<FaceRec>, d: AADirection)
    requires
        forall|i: int| 0 <= i < fs.len() ==> (#[trigger] fs[i]).w == 1 && fs[i].h == 1,
    ensures
        area_dir(fs, d) == count_dir(fs, d),
    decreases fs.len(),
{
    if fs.len() > 0 {
        lemma_unit_area_is_count(fs.drop_last(), d);
    }
}

/// A single-row face covers exactly w voxels.
proof fn lemma_face_row(f: FaceRec)
    requires
        f.wf(),
        f.h == 1,
    ensures
        count_below(covers_pred(f), 4096) == f.w,
    decreases f.w,
{
    if f.w == 1 {
        let c0 = chunk_index(f.x, f.y, f.z);
        assert forall|c: int| 0 <= c < 4096 implies #[trigger] covers_pred(f)(c) == (c == c0) by {
            assert(c == cell_x(c) + 16 * cell_y(c) + 256 * cell_z(c));
            assert(0 <= cell_x(c) < 16 && 0 <= cell_y(c) < 16 && 0 <= cell_z(c) < 16);
            if covers_pred(f)(c) {
                assert(cell_x(c) == f.x && cell_y(c) == f.y && cell_z(c) == f.z);
            }
            if c == c0 {
                assert(cell_x(c0) == f.x && cell_y(c0) == f.y && cell_z(c0) == f.z);
                assert(face_covers(f, f.x, f.y, f.z));
            }
        }
        lemma_count_equiv(covers_pred(f), |c: int| c == c0, 4096);
        lemma_count_single(c0, 4096);
    } else {
        let g = FaceRec { w: f.w - 1, ..f };
        let col = if f.d.axis() == 0 {
            FaceRec { y: f.y + f.w - 1, w: 1, ..f }
        } else {
            FaceRec { x: f.x + f.w - 1, w: 1, ..f }
        };
        assert(g.wf() && col.wf());
        lemma_face_row(g);
        lemma_face_row(col);
        assert forall|c: int|
            0 <= c < 4096 implies #[trigger] covers_pred(f)(c) == (covers_pred(g)(c) || covers_pred(
            col,
        )(c)) by {}
        assert forall|c: int|
            0 <= c < 4096 implies !(#[trigger] covers_pred(g)(c) && #[trigger] covers_pred(col)(
            c,
        )) by {}
        lemma_count_disjoint(covers_pred(g), covers_pred(col), 4096);
        lemma_count_equiv(
            covers_pred(f),
            |c: int| covers_pred(g)(c) || covers_pred(col)(c),
            4096,
        );
    }
}

/// A well-formed face covers exactly w * h voxels: its area.
proof fn lemma_face_area(f: FaceRec)
    requires
        f.wf(),
    ensures
        count_below(covers_pred(f), 4096) == f.w * f.h,
    decreases f.h,
{
    if f.h == 1 {
        lemma_face_row(f);
    } else {
        let g = FaceRec { h: f.h - 1, ..f };
        let row = if f.d.axis() == 2 {
            FaceRec { y: f.y + f.h - 1, h: 1, ..f }
        } else {
            FaceRec { z: f.z + f.h - 1, h: 1, ..f }
        };
        assert(g.wf() && row.wf());
        lemma_face_area(g);
        lemma_face_row(row);
        assert forall|c: int|
            0 <= c < 4096 implies #[trigger] covers_pred(f)(c) == (covers_pred(g)(c) || covers_pred(
            row,
        )(c)) by {}
        assert forall|c: int|
            0 <= c < 4096 implies !(#[trigger] covers_pred(g)(c) && #[trigger] covers_pred(row)(
            c,
        )) by {}
        lemma_count_disjoint(covers_pred(g), covers_pred(row), 4096);
        lemma_count_equiv(
            covers_pred(f),
            |c: int| covers_pred(g)(c) || covers_pred(row)(c),
            4096,
        );
        assert(f.w * (f.h - 1) + f.w == f.w * f.h) by (nonlinear_arith);
    }
}

/// Pairwise-disjoint well-formed faces cover exactly their total area.
proof fn lemma_area_count(fs: Seq<FaceRec>, d: AADirection)
    requires
        forall|i: int| 0 <= i < fs.len() ==> (#[trigger] fs[i]).wf(),
        forall|i: int, j: int, x: int, y: int, z: int|
            0 <= i < fs.len() && 0 <= j < fs.len() && i != j && fs[i].d == fs[j].d
                && #[trigger] face_covers(fs[i], x, y, z) ==> !#[trigger] face_covers(
                fs[j],
                x,
                y,
                z,
            ),
    ensures
        count_below(covered_pred(fs, d), 4096) == area_dir(fs, d),
    decreases fs.len(),
{
    if fs.len() == 0 {
        assert forall|c: int| 0 <= c < 4096 implies !#[trigger] covered_pred(fs, d)(c) by {}
        lemma_count_none(covered_pred(fs, d), 4096);
    } else {
        let fs0 = fs.drop_last();
        let f = fs.last();
        assert(forall|i: int| 0 <= i < fs0.len() ==> fs0[i] == fs[i]);
        assert forall|i: int, j: int, x: int, y: int, z: int|
            0 <= i < fs0.len() && 0 <= j < fs0.len() && i != j && fs0[i].d == fs0[j].d
                && #[trigger] face_covers(fs0[i], x, y, z) implies !#[trigger] face_covers(
            fs0[j],
            x,
            y,
            z,
        ) by {
            assert(face_covers(fs[i], x, y, z));
        }
        lemma_area_count(fs0, d);
        if f.d == d {
            lemma_face_area(f);
            assert forall|c: int|
                0 <= c < 4096 implies #[trigger] covered_pred(fs, d)(c) == (covered_pred(fs0, d)(c)
                || covers_pred(f)(c)) by {
                if covered_pred(fs, d)(c) {
                    let i = choose|i: int|
                        0 <= i < fs.len() && (#[trigger] fs[i]).d == d && face_covers(
                            fs[i],
                            cell_x(c),
                            cell_y(c),
                            cell_z(c),
                        );
                    if i < fs0.len() {
                        assert(fs0[i] == fs[i]);
                        assert(covered_pred(fs0, d)(c));
                    } else {
                        assert(fs[i] == f);
                    }
                }
                if covered_pred(fs0, d)(c) {
                    let i = choose|i: int|
                        0 <= i < fs0.len() && (#[trigger] fs0[i]).d == d && face_covers(
                            fs0[i],
                            cell_x(c),
                            cell_y(c),
                            cell_z(c),
                        );
                    assert(fs[i] == fs0[i]);
                    assert(covered_pred(fs, d)(c));
                }
                if covers_pred(f)(c) {
                    assert(fs[fs.len() - 1] == f);
                    assert(covered_pred(fs, d)(c));
                }
            }
            assert forall|c: int|
                0 <= c < 4096 implies !(#[trigger] covered_pred(fs0, d)(c) && #[trigger] covers_pred(
                f,
            )(c)) by {
                if covered_pred(fs0, d)(c) && covers_pred(f)(c) {
                    let i = choose|i: int|
                        0 <= i < fs0.len() && (#[trigger] fs0[i]).d == d && face_covers(
                            fs0[i],
                            cell_x(c),
                            cell_y(c),
                            cell_z(c),
                        );
                    assert(fs[i] == fs0[i]);
                    assert(face_covers(fs[i], cell_x(c), cell_y(c), cell_z(c)));
                    assert(face_covers(fs[fs.len() - 1], cell_x(c), cell_y(c), cell_z(c)));
                    assert(false);
                }
            }
            lemma_count_disjoint(covered_pred(fs0, d), covers_pred(f), 4096);
            lemma_count_equiv(
                covered_pred(fs, d),
                |c: int| covered_pred(fs0, d)(c) || covers_pred(f)(c),
                4096,
            );
        } else {
            assert forall|c: int|
                0 <= c < 4096 implies #[trigger] covered_pred(fs, d)(c) == covered_pred(fs0, d)(
                c,
            ) by {
                if covered_pred(fs, d)(c) {
                    let i = choose|i: int|
                        0 <= i < fs.len() && (#[trigger] fs[i]).d == d && face_covers(
                            fs[i],
                            cell_x(c),
                            cell_y(c),
                            cell_z(c),
                        );
                    assert(i < fs0.len());
                    assert(fs0[i] == fs[i]);
                    assert(covered_pred(fs0, d)(c));
                }
                if covered_pred(fs0, d)(c) {
                    let i = choose|i: int|
                        0 <= i < fs0.len() && (#[trigger] fs0[i]).d == d && face_covers(
                            fs0[i],
                            cell_x(c),
                            cell_y(c),
                            cell_z(c),
                        );
                    assert(fs[i] == fs0[i]);
                    assert(covered_pred(fs, d)(c));
                }
            }
            lemma_count_equiv(covered_pred(fs, d), covered_pred(fs0, d), 4096);
        }
    }
}

/// Any face list that covers the visible faces exactly once per direction
/// has, per direction, total area equal to the number of visible unit faces.
pub proof fn lemma_cover_area(
    blocks: Seq<Block>,
    snap: Seq<Option<Seq<MaterialID>>>,
    reg: Seq<Material>,
    fs: Seq<FaceRec>,
    d: AADirection,
)
    requires
        greedy_cover(blocks, snap, reg, fs),
    ensures
        area_dir(fs, d) == visible_count(blocks, snap, reg, d),
{
    assert forall|c: int|
        0 <= c < 4096 implies #[trigger] covered_pred(fs, d)(c) == visible_pred(
        blocks,
        snap,
        reg,
        d,
    )(c) by {
        let x = cell_x(c);
        let y = cell_y(c);
        let z = cell_z(c);
        assert(0 <= x < 16 && 0 <= y < 16 && 0 <= z < 16);
        if covered_pred(fs, d)(c) {
            let i = choose|i: int|
                0 <= i < fs.len() && (#[trigger] fs[i]).d == d && face_covers(fs[i], x, y, z);
            assert(face_visible(blocks, snap, reg, x, y, z, fs[i].d));
        }
        if visible_pred(blocks, snap, reg, d)(c) {
            assert(face_visible(blocks, snap, reg, x, y, z, d));
            let i = choose|i: int|
                0 <= i < fs.len() && fs[i].d == d && #[trigger] face_covers(fs[i], x, y, z);
            assert(covered_pred(fs, d)(c));
        }
    }
    lemma_count_equiv(covered_pred(fs, d), visible_pred(blocks, snap, reg, d), 4096);
    lemma_area_count(fs, d);
}

/// The unit face the naive sweep considers at enumeration step i.
pub open spec fn step_face(i: int) -> FaceRec {
    FaceRec { d: step_dir(i), x: step_x(i), y: step_y(i), z: step_z(i), w: 1, h: 1 }
}

/// The enumeration step at which the naive sweep considers face f.
pub open spec fn face_code(f: FaceRec) -> int {
    6 * chunk_index(f.x, f.y, f.z) + f.d.ix()
}

/// Decoding a step and re-encoding the face round-trips.
proof fn lemma_step_face_code(i: int)
    requires
        0 <= i < 24576,
    ensures
        face_code(step_face(i)) == i,
        step_face(i).wf(),
{
    let q = i / 6;
    lemma_div_denominator(i, 6, 16);
    lemma_div_denominator(i, 6, 256);
    lemma_div_denominator(q, 16, 16);
    assert(step_dir(i).ix() == i % 6);
    assert(q == 16 * (q / 16) + q % 16);
    assert(q / 16 == 16 * (q / 256) + (q / 16) % 16);
    assert(face_code(step_face(i)) == i);
}

/// A unit face covers exactly its own voxel.
proof fn lemma_unit_covers(f: FaceRec, x: int, y: int, z: int)
    requires
        f.w == 1,
        f.h == 1,
    ensures
        face_covers(f, x, y, z) <==> (x == f.x && y == f.y && z == f.z),
{
}

/// What the naive sweep's prefix has emitted: only well-formed unit faces of
/// visible voxel faces, in strictly increasing enumeration order, and one
/// for every visible voxel face already enumerated.
proof fn lemma_naive_prefix_cover(
    blocks: Seq<Block>,
    snap: Seq<Option<Seq<MaterialID>>>,
    reg: Seq<Material>,
    n: int,
)
    requires
        0 <= n <= 24576,
    ensures
        ({
            let fs = naive_prefix(blocks, snap, reg, n);
            &&& forall|j: int|
                0 <= j < fs.len() ==> {
                    let f = #[trigger] fs[j];
                    &&& f.wf()
                    &&& f.w == 1 && f.h == 1
                    &&& face_visible(blocks, snap, reg, f.x, f.y, f.z, f.d)
                    &&& 0 <= face_code(f) < n
                }
            &&& forall|j1: int, j2: int|
                0 <= j1 < j2 < fs.len() ==> face_code(#[trigger] fs[j1]) < face_code(
                    #[trigger] fs[j2],
                )
            &&& forall|i: int|
                0 <= i < n && #[trigger] face_visible(
                    blocks,
                    snap,
                    reg,
                    step_x(i),
                    step_y(i),
                    step_z(i),
                    step_dir(i),
                ) ==> exists|j: int| 0 <= j < fs.len() && #[trigger] fs[j] == step_face(i)
        }),
    decreases n,
{
    if n > 0 {
        lemma_naive_prefix_cover(blocks, snap, reg, n - 1);
        let fs0 = naive_prefix(blocks, snap, reg, n - 1);
        let fs = naive_prefix(blocks, snap, reg, n);
        let i = n - 1;
        lemma_step_face_code(i);
        if face_visible(blocks, snap, reg, step_x(i), step_y(i), step_z(i), step_dir(i)) {
            assert(fs == fs0 + seq![step_face(i)]);
            assert(fs.len() == fs0.len() + 1);
            assert(fs[fs0.len() as int] == step_face(i));
            assert(forall|j: int| 0 <= j < fs0.len() ==> fs[j] == fs0[j]);
            assert forall|i2: int|
                0 <= i2 < n && #[trigger] face_visible(
                    blocks,
                    snap,
                    reg,
                    step_x(i2),
                    step_y(i2),
                    step_z(i2),
                    step_dir(i2),
                ) implies exists|j: int| 0 <= j < fs.len() && #[trigger] fs[j] == step_face(i2) by {
                if i2 < n - 1 {
                    let j = choose|j: int| 0 <= j < fs0.len() && #[trigger] fs0[j] == step_face(i2);
                    assert(fs[j] == step_face(i2));
                } else {
                    assert(fs[fs0.len() as int] == step_face(i));
                }
            }
        } else {
            assert(fs =~= fs0);
        }
    }
}

/// The naive face list is itself an exact cover of the visible faces: every
/// visible unit face appears as exactly one unit quad (the naive forms of
/// the coverage and no-double-counting laws).
pub proof fn lemma_naive_cover(
    blocks: Seq<Block>,
    snap: Seq<Option<Seq<MaterialID>>>,
    reg: Seq<Material>,
)
    ensures
        greedy_cover(blocks, snap, reg, naive_faces(blocks, snap, reg)),
        forall|i: int|
            0 <= i < naive_faces(blocks, snap, reg).len() ==> (#[trigger] naive_faces(
                blocks,
                snap,
                reg,
            )[i]).w == 1 && naive_faces(blocks, snap, reg)[i].h == 1,
{
    lemma_naive_prefix_cover(blocks, snap, reg, 24576);
    let fs = naive_faces(blocks, snap, reg);
    assert forall|i: int, x: int, y: int, z: int|
        0 <= i < fs.len() && 0 <= x < 16 && 0 <= y < 16 && 0 <= z < 16 && #[trigger] face_covers(
            fs[i],
            x,
            y,
            z,
        ) implies face_visible(blocks, snap, reg, x, y, z, fs[i].d) && crate::occlusion::mat_id_at(
        blocks,
        x,
        y,
        z,
    ) == crate::occlusion::mat_id_at(blocks, fs[i].x, fs[i].y, fs[i].z) by {
        lemma_unit_covers(fs[i], x, y, z);
    }
    assert forall|x: int, y: int, z: int, d: AADirection|
        0 <= x < 16 && 0 <= y < 16 && 0 <= z < 16 && #[trigger] face_visible(
            blocks,
            snap,
            reg,
            x,
            y,
            z,
            d,
        ) implies exists|i: int|
        0 <= i < fs.len() && fs[i].d == d && #[trigger] face_covers(fs[i], x, y, z) by {
        let q = chunk_index(x, y, z);
        let i = 6 * q + d.ix();
        assert(0 <= d.ix() < 6);
        assert(0 <= i < 24576);
        lemma_fundamental_div_mod_converse(i, 6, q, d.ix());
        lemma_fundamental_div_mod_converse(q, 16, 16 * z + y, x);
        lemma_fundamental_div_mod_converse(q / 16, 16, z, y);
        lemma_div_denominator(i, 6, 16);
        lemma_div_denominator(i, 6, 256);
        lemma_div_denominator(q, 16, 16);
        assert(step_x(i) == x && step_y(i) == y && step_z(i) == z);
        assert(step_dir(i) == d) by {
            assert(step_dir(i) == AADirection::from_ix(d.ix()));
        }
        assert(face_visible(blocks, snap, reg, step_x(i), step_y(i), step_z(i), step_dir(i)));
        let j = choose|j: int| 0 <= j < fs.len() && #[trigger] fs[j] == step_face(i);
        lemma_unit_covers(fs[j], x, y, z);
        assert(face_covers(fs[j], x, y, z));
    }
    assert forall|i: int, j: int, x: int, y: int, z: int|
        0 <= i < fs.len() && 0 <= j < fs.len() && i != j && fs[i].d == fs[j].d
            && #[trigger] face_covers(fs[i], x, y, z) implies !#[trigger] face_covers(
        fs[j],
        x,
        y,
        z,
    ) by {
        if face_covers(fs[j], x, y, z) {
            lemma_unit_covers(fs[i], x, y, z);
            lemma_unit_covers(fs[j], x, y, z);
            assert(fs[i] == fs[j]);
            if i < j {
                assert(face_code(fs[i]) < face_code(fs[j]));
            } else {
                assert(face_code(fs[j]) < face_code(fs[i]));
            }
            assert(false);
        }
    }
}

/// Face-count equivalence: for every direction independently, the total
/// visible surface area of the greedy strategy's merged rectangles equals
/// the number of unit quads the naive strategy emits. Merging changes the
/// triangle count, never the set of visible unit faces.
pub proof fn lemma_face_count_equivalence(
    blocks: Seq<Block>,
    snap: Seq<Option<Seq<MaterialID>>>,
    reg: Seq<Material>,
    gfs: Seq<FaceRec>,
    d: AADirection,
)
    requires
        greedy_cover(blocks, snap, reg, gfs),
    ensures
        area_dir(gfs, d) == count_dir(naive_faces(blocks, snap, reg), d),
        area_dir(gfs, d) == visible_count(blocks, snap, reg, d),
{
    lemma_cover_area(blocks, snap, reg, gfs, d);
    lemma_naive_cover(blocks, snap, reg);
    lemma_cover_area(blocks, snap, reg, naive_faces(blocks, snap, reg), d);
    lemma_unit_area_is_count(naive_faces(blocks, snap, reg), d);
}

} // verus!
