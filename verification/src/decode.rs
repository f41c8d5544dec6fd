//! The decode pipeline: header, then block-count block records, each block's
//! tiles folded into a two-level map keyed by primary and secondary mesh
//! code.

use std::collections::BTreeMap;

use vstd::prelude::*;

use crate::block::block_error;
use crate::block::block_run;
use crate::block::block_size;
use crate::block::read_sequential_block;
use crate::block::tile_view;
use crate::cursor::ByteCursor;
use crate::errors::XrainError;
use crate::header::block_count_of;
use crate::header::header_error;
use crate::header::read_header;
use crate::mesh::SecondaryMesh;
use crate::mesh::SecondaryMeshView;

verus! {

broadcast use {vstd::laws_cmp::group_laws_cmp, vstd::std_specs::btree::group_btree_axioms};

/// The synthetic key of a primary mesh: latitude code times 100 plus
/// longitude code.
pub type PrimaryCode = usize;

/// The code of a secondary mesh inside its primary mesh: row times 10 plus
/// column.
pub type SecondaryCode = usize;

/// The assembled result of a decode: primary mesh to secondary mesh to
/// tile. `BTreeMap` keeps key iteration numeric ascending, so exports are
/// deterministic.
pub type MeshMap = BTreeMap<PrimaryCode, BTreeMap<SecondaryCode, SecondaryMesh>>;

/// The primary-mesh key a tile is filed under.
pub open spec fn tile_pc(t: SecondaryMeshView) -> PrimaryCode {
    t.primary_code() as PrimaryCode
}

/// The secondary-mesh code a tile is filed under.
pub open spec fn tile_sc(t: SecondaryMeshView) -> SecondaryCode {
    t.secondary_code() as SecondaryCode
}

/// Folds the tiles of the block at `p`, from tile `j` on, into the
/// mathematical assembly map. A later tile with the same key replaces an
/// earlier one.
pub open spec fn fold_block(
    m: Map<(PrimaryCode, SecondaryCode), SecondaryMeshView>,
    buf: Seq<u8>,
    p: int,
    j: int,
) -> Map<(PrimaryCode, SecondaryCode), SecondaryMeshView>
    decreases block_run(buf, p) - j,
{
    if j >= block_run(buf, p) {
        m
    } else {
        let t = tile_view(buf, p, j);
        fold_block(m.insert((tile_pc(t), tile_sc(t)), t), buf, p, j + 1)
    }
}

/// Folds the tiles of `n` consecutive block records starting at `p`.
pub open spec fn fold_blocks(
    m: Map<(PrimaryCode, SecondaryCode), SecondaryMeshView>,
    buf: Seq<u8>,
    p: int,
    n: int,
) -> Map<(PrimaryCode, SecondaryCode), SecondaryMeshView>
    decreases n,
{
    if n <= 0 {
        m
    } else {
        fold_blocks(fold_block(m, buf, p, 0), buf, p + block_size(buf, p), n - 1)
    }
}

/// The end position of `n` consecutive block records starting at `p`.
pub open spec fn blocks_end(buf: Seq<u8>, p: int, n: int) -> int
    decreases n,
{
    if n <= 0 {
        p
    } else {
        blocks_end(buf, p + block_size(buf, p), n - 1)
    }
}

/// The sum of the run lengths of `n` consecutive block records.
pub open spec fn runs_sum(buf: Seq<u8>, p: int, n: int) -> int
    decreases n,
{
    if n <= 0 {
        0
    } else {
        block_run(buf, p) + runs_sum(buf, p + block_size(buf, p), n - 1)
    }
}

/// The exact failure that decoding `n` consecutive block records reports,
/// or `None` when all of them decode: for each block in stream order,
/// first any truncation, then the empty-run check.
pub open spec fn blocks_error(buf: Seq<u8>, p: int, n: int) -> Option<XrainError>
    decreases n,
{
    if n <= 0 {
        None
    } else if block_error(buf, p) is Some {
        block_error(buf, p)
    } else if block_run(buf, p) == 0 {
        Some(XrainError::EmptyBlock)
    } else {
        blocks_error(buf, p + block_size(buf, p), n - 1)
    }
}

/// The exact failure that decoding the whole buffer reports, or `None`
/// when the buffer is a valid file.
pub open spec fn decode_error(buf: Seq<u8>) -> Option<XrainError> {
    if header_error(buf) is Some {
        header_error(buf)
    } else {
        blocks_error(buf, 64, block_count_of(buf) as int)
    }
}

/// The mathematical content of a decoded buffer: every tile of every
/// block, keyed by primary and secondary code, later tiles replacing
/// earlier ones.
pub open spec fn assembly(buf: Seq<u8>) -> Map<
    (PrimaryCode, SecondaryCode),
    SecondaryMeshView,
> {
    fold_blocks(Map::empty(), buf, 64, block_count_of(buf) as int)
}

/// Every tile of an assembly map is well formed: it holds exactly 1600
/// cells.
pub open spec fn assembly_tiles_wf(
    a: Map<(PrimaryCode, SecondaryCode), SecondaryMeshView>,
) -> bool {
    forall|k: (PrimaryCode, SecondaryCode)| a.contains_key(k) ==> (#[trigger] a[k]).wf()
}

/// Folding the tiles of one block keeps every tile of the assembly well
/// formed: a decoded tile always carries exactly 1600 cells.
proof fn lemma_fold_block_wf(
    m: Map<(PrimaryCode, SecondaryCode), SecondaryMeshView>,
    buf: Seq<u8>,
    p: int,
    j: int,
)
    requires
        assembly_tiles_wf(m),
    ensures
        assembly_tiles_wf(fold_block(m, buf, p, j)),
    decreases block_run(buf, p) - j,
{
    if j < block_run(buf, p) {
        let t = tile_view(buf, p, j);
        assert(t.wf());
        lemma_fold_block_wf(m.insert((tile_pc(t), tile_sc(t)), t), buf, p, j + 1);
    }
}

/// Folding whole block records keeps every tile of the assembly well
/// formed.
proof fn lemma_fold_blocks_wf(
    m: Map<(PrimaryCode, SecondaryCode), SecondaryMeshView>,
    buf: Seq<u8>,
    p: int,
    n: int,
)
    requires
        assembly_tiles_wf(m),
    ensures
        assembly_tiles_wf(fold_blocks(m, buf, p, n)),
    decreases n,
{
    if n > 0 {
        lemma_fold_block_wf(m, buf, p, 0);
        lemma_fold_blocks_wf(fold_block(m, buf, p, 0), buf, p + block_size(buf, p), n - 1);
    }
}

/// Every tile that a decode assembles holds exactly 1600 cells.
pub proof fn lemma_assembly_tiles_wf(buf: Seq<u8>)
    ensures
        assembly_tiles_wf(assembly(buf)),
{
    lemma_fold_blocks_wf(Map::empty(), buf, 64, block_count_of(buf) as int);
}

/// The two-level map `m` holds exactly the tiles of the assembly `a`:
/// a key pair is present in `m` exactly when `a` holds it, present pairs
/// carry the same tile, and no primary entry is empty.
pub open spec fn assembled_matches(
    m: MeshMap,
    a: Map<(PrimaryCode, SecondaryCode), SecondaryMeshView>,
) -> bool {
    &&& forall|pc: PrimaryCode, sc: SecondaryCode|
        #![trigger a.contains_key((pc, sc))]
        #![trigger m@[pc]@.contains_key(sc)]
        (m@.contains_key(pc) && m@[pc]@.contains_key(sc)) <==> a.contains_key((pc, sc))
    &&& forall|pc: PrimaryCode, sc: SecondaryCode|
        #![trigger a[(pc, sc)]]
        a.contains_key((pc, sc)) ==> m@.contains_key(pc) && m@[pc]@.contains_key(sc)
            && m@[pc]@[sc]@ == a[(pc, sc)]
    &&& forall|pc: PrimaryCode| #[trigger]
        m@.contains_key(pc) ==> exists|sc: SecondaryCode| a.contains_key((pc, sc))
}

/// Files one tile into the two-level map under its own mesh codes,
/// replacing any tile already at that key.
pub fn insert_tile(map: &mut MeshMap, mesh: SecondaryMesh)
    ensures
        ({
            let pc = tile_pc(mesh@);
            let sc = tile_sc(mesh@);
            &&& final(map)@.contains_key(pc)
            &&& final(map)@[pc]@ == (if old(map)@.contains_key(pc) {
                old(map)@[pc]@.insert(sc, mesh)
            } else {
                Map::<SecondaryCode, SecondaryMesh>::empty().insert(sc, mesh)
            })
            &&& forall|p: PrimaryCode|
                p != pc ==> ((#[trigger] final(map)@.contains_key(p)) <==> old(
                    map,
                )@.contains_key(p))
            &&& forall|p: PrimaryCode|
                p != pc && old(map)@.contains_key(p) ==> (#[trigger] final(map)@[p]) == old(
                    map,
                )@[p]
        }),
{
    let p_code: usize = (mesh.primary_lat_code as usize) * 100 + (mesh.primary_lon_code as usize);
    let code: usize = (mesh.secondary_lat_code as usize) * 10 + (mesh.secondary_lon_code as usize);
    let mut p_map: BTreeMap<SecondaryCode, SecondaryMesh> = match map.remove(&p_code) {
        Some(existing) => existing,
        None => BTreeMap::new(),
    };
    p_map.insert(code, mesh);
    map.insert(p_code, p_map);
}

/// Filing one more tile keeps the two-level map matched with the assembly:
/// the new tile stands at its own key pair and every other key pair is as
/// before.
proof fn lemma_matches_insert(
    m0: MeshMap,
    m1: MeshMap,
    a: Map<(PrimaryCode, SecondaryCode), SecondaryMeshView>,
    mesh: SecondaryMesh,
)
    requires
        assembled_matches(m0, a),
        ({
            let pc = tile_pc(mesh@);
            let sc = tile_sc(mesh@);
            &&& m1@.contains_key(pc)
            &&& m1@[pc]@ == (if m0@.contains_key(pc) {
                m0@[pc]@.insert(sc, mesh)
            } else {
                Map::<SecondaryCode, SecondaryMesh>::empty().insert(sc, mesh)
            })
            &&& forall|p: PrimaryCode|
                p != pc ==> ((#[trigger] m1@.contains_key(p)) <==> m0@.contains_key(p))
            &&& forall|p: PrimaryCode|
                p != pc && m0@.contains_key(p) ==> (#[trigger] m1@[p]) == m0@[p]
        }),
    ensures
        assembled_matches(m1, a.insert((tile_pc(mesh@), tile_sc(mesh@)), mesh@)),
{
    let pc = tile_pc(mesh@);
    let sc = tile_sc(mesh@);
    let a1 = a.insert((pc, sc), mesh@);
    assert forall|pc2: PrimaryCode, sc2: SecondaryCode|
        (m1@.contains_key(pc2) && m1@[pc2]@.contains_key(sc2)) <==> a1.contains_key(
            (pc2, sc2),
        ) by {
        if pc2 == pc {
            if sc2 != sc {
                assert(a1.contains_key((pc2, sc2)) == a.contains_key((pc2, sc2)));
                assert(m1@[pc]@.contains_key(sc2) == (m0@.contains_key(pc)
                    && m0@[pc]@.contains_key(sc2)));
            }
        } else {
            assert(a1.contains_key((pc2, sc2)) == a.contains_key((pc2, sc2)));
            if m0@.contains_key(pc2) {
                assert(m1@[pc2] == m0@[pc2]);
            }
        }
    }
    assert forall|pc2: PrimaryCode, sc2: SecondaryCode|
        a1.contains_key((pc2, sc2)) implies m1@.contains_key(pc2) && m1@[pc2]@.contains_key(sc2)
        && m1@[pc2]@[sc2]@ == a1[(pc2, sc2)] by {
        if pc2 == pc {
            if sc2 == sc {
                assert(m1@[pc]@[sc] == mesh);
            } else {
                assert(a.contains_key((pc2, sc2)));
                assert(m0@.contains_key(pc) && m0@[pc]@[sc2]@ == a[(pc2, sc2)]);
                assert(m1@[pc]@[sc2] == m0@[pc]@[sc2]);
            }
        } else {
            assert(a.contains_key((pc2, sc2)));
            assert(m1@[pc2] == m0@[pc2]);
        }
    }
    assert forall|pc2: PrimaryCode| #[trigger]
        m1@.contains_key(pc2) implies exists|sc2: SecondaryCode|
        a1.contains_key((pc2, sc2)) by {
        if pc2 == pc {
            assert(a1.contains_key((pc, sc)));
        } else {
            assert(m0@.contains_key(pc2));
            let s = choose|s: SecondaryCode| a.contains_key((pc2, s));
            assert(a.contains_key((pc2, s)));
            assert(a1.contains_key((pc2, s)));
        }
    }
}

/// Splitting the recursion over block records after a clean prefix of `i`
/// of them: positions, run sums, failures and the assembly fold all
/// continue from the prefix's end position.
proof fn lemma_blocks_split(
    m: Map<(PrimaryCode, SecondaryCode), SecondaryMeshView>,
    buf: Seq<u8>,
    p: int,
    i: int,
    n: int,
)
    requires
        0 <= i <= n,
        blocks_error(buf, p, i) is None,
    ensures
        blocks_end(buf, p, n) == blocks_end(buf, blocks_end(buf, p, i), n - i),
        runs_sum(buf, p, n) == runs_sum(buf, p, i) + runs_sum(buf, blocks_end(buf, p, i), n - i),
        blocks_error(buf, p, n) == blocks_error(buf, blocks_end(buf, p, i), n - i),
        fold_blocks(m, buf, p, n) == fold_blocks(
            fold_blocks(m, buf, p, i),
            buf,
            blocks_end(buf, p, i),
            n - i,
        ),
    decreases i,
{
    if i > 0 {
        lemma_blocks_split(fold_block(m, buf, p, 0), buf, p + block_size(buf, p), i - 1, n - 1);
    }
}

/// The block records of a valid region occupy exactly four bytes per block
/// plus 3200 bytes per tile of every run.
pub proof fn lemma_blocks_consume(buf: Seq<u8>, p: int, n: int)
    requires
        n >= 0,
    ensures
        blocks_end(buf, p, n) == p + 4 * n + 3200 * runs_sum(buf, p, n),
    decreases n,
{
    if n > 0 {
        lemma_blocks_consume(buf, p + block_size(buf, p), n - 1);
    }
}

/// After a successful decode the block records fill exactly
/// `4 * block_count + 3200 * (sum of the run lengths)` bytes after the
/// 64-byte header, so the buffer is consumed to its last byte exactly when
/// its length equals that total — the cross-check that the header's
/// data-size field is meant to pass.
pub proof fn lemma_decode_consumes(buf: Seq<u8>)
    requires
        decode_error(buf) is None,
    ensures
        blocks_end(buf, 64, block_count_of(buf) as int) == 64 + 4 * block_count_of(buf) + 3200
            * runs_sum(buf, 64, block_count_of(buf) as int),
        blocks_end(buf, 64, block_count_of(buf) as int) == buf.len() <==> buf.len() == 64 + 4
            * block_count_of(buf) + 3200 * runs_sum(buf, 64, block_count_of(buf) as int),
{
    lemma_blocks_consume(buf, 64, block_count_of(buf) as int);
}

/// Decodes a whole in-memory buffer: the file header, then exactly
/// `block_num` block records, every tile filed into the two-level map.
///
/// The decode either succeeds with the complete assembly or fails with the
/// first fault of the stream; it stops after `block_num` blocks no matter
/// how many bytes remain.
pub fn decode_xrain(buf: &[u8]) -> (r: Result<MeshMap, XrainError>)
    ensures
        match r {
            Ok(m) => {
                &&& decode_error(buf@) is None
                &&& assembled_matches(m, assembly(buf@))
                &&& blocks_end(buf@, 64, block_count_of(buf@) as int) <= buf@.len()
            },
            Err(e) => decode_error(buf@) == Some(e),
        },
{
    let mut cur = ByteCursor::new(buf);
    let header = match read_header(&mut cur) {
        Ok(h) => h,
        Err(e) => {
            return Err(e);
        },
    };
    let mut primary_map: MeshMap = BTreeMap::new();
    let mut i: u16 = 0;
    while i < header.block_num
        invariant
            cur.wf(),
            cur.bytes() == buf@,
            i <= header.block_num,
            header.block_num == block_count_of(buf@),
            header_error(buf@) is None,
            blocks_error(buf@, 64, i as int) is None,
            cur.position() == blocks_end(buf@, 64, i as int),
            assembled_matches(primary_map, fold_blocks(Map::empty(), buf@, 64, i as int)),
        decreases header.block_num as int - i as int,
    {
        let ghost p = cur.position();
        let ghost a0 = fold_blocks(Map::empty(), buf@, 64, i as int);
        proof {
            lemma_blocks_split(Map::empty(), buf@, 64, i as int, header.block_num as int);
        }
        let mut meshes = match read_sequential_block(&mut cur) {
            Ok(ms) => ms,
            Err(e) => {
                return Err(e);
            },
        };
        if meshes.len() == 0 {
            return Err(XrainError::EmptyBlock);
        }
        let ghost run = block_run(buf@, p);
        let ghost acc0 = fold_block(a0, buf@, p, 0);
        let ghost mut acc = a0;
        let mut j: usize = 0;
        let ghost ms0 = meshes@;
        let run_len = meshes.len();
        proof {
            assert(ms0.subrange(0, run_len as int) =~= ms0);
        }
        while j < run_len
            invariant
                j <= run_len,
                run_len == run,
                run == block_run(buf@, p),
                ms0.len() == run_len,
                meshes@ == ms0.subrange(j as int, run_len as int),
                forall|k: int| 0 <= k < run ==> (#[trigger] ms0[k])@ == tile_view(buf@, p, k),
                fold_block(acc, buf@, p, j as int) == acc0,
                acc0 == fold_block(a0, buf@, p, 0),
                assembled_matches(primary_map, acc),
            decreases run_len as int - j as int,
        {
            let mesh = meshes.remove(0);
            proof {
                assert(mesh@ == tile_view(buf@, p, j as int));
                assert(ms0.subrange(j as int, run_len as int).remove(0) =~= ms0.subrange(
                    j as int + 1,
                    run_len as int,
                ));
            }
            let ghost t = mesh@;
            let ghost mesh_snap = mesh;
            let ghost map_before = primary_map;
            insert_tile(&mut primary_map, mesh);
            proof {
                lemma_matches_insert(map_before, primary_map, acc, mesh_snap);
                assert(fold_block(acc, buf@, p, j as int) == fold_block(
                    acc.insert((tile_pc(t), tile_sc(t)), t),
                    buf@,
                    p,
                    j as int + 1,
                ));
                acc = acc.insert((tile_pc(t), tile_sc(t)), t);
            }
            j = j + 1;
        }
        proof {
            assert(fold_block(acc, buf@, p, run) == acc);
            lemma_blocks_split(Map::empty(), buf@, 64, i as int, i as int + 1);
            reveal_with_fuel(fold_blocks, 3);
            reveal_with_fuel(blocks_error, 3);
            reveal_with_fuel(blocks_end, 3);
            assert(blocks_end(buf@, p, 1) == p + block_size(buf@, p));
            assert(fold_blocks(a0, buf@, p, 1) == fold_block(a0, buf@, p, 0));
            assert(blocks_error(buf@, p, 1) is None);
        }
        i = i + 1;
    }
    Ok(primary_map)
}

} // verus!
