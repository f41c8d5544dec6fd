//! Merging the 8x8 secondary meshes of one primary mesh into a contiguous
//! 320x320 raster.

use vstd::prelude::*;

use crate::cell::XrainCell;
use crate::cell::zero_cell;
use crate::decode::MeshMap;
use crate::decode::PrimaryCode;
use crate::decode::SecondaryCode;
use crate::errors::XrainError;
use crate::mesh::PrimaryMesh;
use crate::mesh::SecondaryMesh;
use crate::mesh::SecondaryMeshView;
use crate::mesh::zero_tile;

verus! {

broadcast use {vstd::laws_cmp::group_laws_cmp, vstd::std_specs::btree::group_btree_axioms};

/// The tile filed in `m` under primary key `key` and secondary code `sc`,
/// if any.
pub open spec fn slot_tile(m: MeshMap, key: PrimaryCode, sc: SecondaryCode) -> Option<
    SecondaryMesh,
> {
    if m@.contains_key(key) && m@[key]@.contains_key(sc) {
        Some(m@[key]@[sc])
    } else {
        None
    }
}

/// The cells that stand in for the slot `sc` of primary mesh `key` when
/// merging: the filed tile's cells, or a zero-filled tile for a gap.
pub open spec fn slot_cells_spec(m: MeshMap, key: PrimaryCode, sc: SecondaryCode) -> Seq<
    XrainCell,
> {
    match slot_tile(m, key, sc) {
        Some(tile) => tile@.cells,
        None => zero_tile(),
    }
}

/// A slot is mergeable when it is either absent (it will be zero-filled)
/// or holds a tile of exactly 1600 cells.
pub open spec fn slot_ok(m: MeshMap, key: PrimaryCode, sc: SecondaryCode) -> bool {
    match slot_tile(m, key, sc) {
        Some(tile) => tile@.wf(),
        None => true,
    }
}

/// Every slot of one row band (secondary row `band`, columns 0..8) is
/// mergeable.
pub open spec fn band_ok(m: MeshMap, key: PrimaryCode, band: int) -> bool {
    forall|sx: int| 0 <= sx < 8 ==> #[trigger] slot_ok(m, key, ((band * 10 + sx) as SecondaryCode))
}

/// Every one of the 64 slots of primary mesh `key` is mergeable.
pub open spec fn slots_ok(m: MeshMap, key: PrimaryCode) -> bool {
    forall|band: int| 0 <= band < 8 ==> #[trigger] band_ok(m, key, band)
}

/// The cell of the merged raster at `[row][col]`.
///
/// Raster row 0 is the northernmost, so raster rows `0..40` come from the
/// secondary row band y = 7 and rows `280..320` from y = 0; within a band,
/// column `col` falls in the tile at x = `col / 40`.
pub open spec fn merged_cell(m: MeshMap, key: PrimaryCode, row: int, col: int) -> XrainCell {
    let band = 7 - row / 40;
    let sx = col / 40;
    let sc = (band * 10 + sx) as SecondaryCode;
    slot_cells_spec(m, key, sc)[(row % 40) * 40 + (col % 40)]
}

/// Splitting a flat row-major index: prepending `a` full rows of width `w`
/// to an offset `d` shifts the row by `a` and keeps the column.
proof fn lemma_div_mod_shift(a: int, d: int, w: int)
    requires
        0 <= a,
        0 <= d,
        0 < w,
    ensures
        (a * w + d) / w == a + d / w,
        (a * w + d) % w == d % w,
{
    vstd::arithmetic::div_mod::lemma_fundamental_div_mod(d, w);
    vstd::arithmetic::div_mod::lemma_mod_bound(d, w);
    vstd::arithmetic::mul::lemma_mul_is_distributive_add(w, a, d / w);
    vstd::arithmetic::div_mod::lemma_div_multiples_vanish_fancy(a + d / w, d % w, w);
    vstd::arithmetic::div_mod::lemma_mod_multiples_vanish(a, d, w);
}

/// A flat row-major index built from a row and a column below the width
/// splits back into that row and column.
pub proof fn lemma_row_col(row: int, col: int, w: int)
    requires
        0 <= row,
        0 <= col < w,
    ensures
        (row * w + col) / w == row,
        (row * w + col) % w == col,
{
    lemma_div_mod_shift(row, col, w);
    vstd::arithmetic::div_mod::lemma_basic_div(col, w);
    vstd::arithmetic::div_mod::lemma_small_mod(col as nat, w as nat);
}

/// A raster cell over a slot that holds no tile is a zero cell: gaps in
/// the decoded map never leak garbage into the merged raster.
pub proof fn lemma_gap_fill(m: MeshMap, key: PrimaryCode, row: int, col: int)
    requires
        0 <= row < 320,
        0 <= col < 320,
        slot_tile(m, key, (((7 - row / 40) * 10 + col / 40) as SecondaryCode)) is None,
    ensures
        merged_cell(m, key, row, col) == zero_cell(),
{
    vstd::arithmetic::div_mod::lemma_mod_bound(row, 40);
    vstd::arithmetic::div_mod::lemma_mod_bound(col, 40);
    assert(0 <= (row % 40) * 40 + (col % 40) < 1600);
}

/// A merged raster: 320x320 cells, row-major, row 0 northernmost.
#[derive(Debug, Clone)]
pub struct Raster {
    /// The cells, row-major: index = row * 320 + col.
    pub cells: Vec<XrainCell>,
}

impl Raster {
    /// A raster always holds exactly 320 * 320 cells.
    pub open spec fn wf(self) -> bool {
        self.cells@.len() == 102400
    }

    /// The cell at `[row][col]`.
    pub fn get(&self, row: usize, col: usize) -> (c: XrainCell)
        requires
            self.wf(),
            row < 320,
            col < 320,
        ensures
            c == self.cells@[row * 320 + col],
    {
        self.cells[row * 320 + col]
    }

    /// The strengths of one raster row, west to east: the computed half of
    /// a CSV export line.
    pub fn strength_row(&self, row: usize) -> (r: Vec<u16>)
        requires
            self.wf(),
            row < 320,
        ensures
            r@.len() == 320,
            forall|j: int| 0 <= j < 320 ==> r@[j] == self.cells@[row * 320 + j].strength,
    {
        let mut r: Vec<u16> = Vec::new();
        let mut j: usize = 0;
        while j < 320
            invariant
                j <= 320,
                row < 320,
                self.wf(),
                r@.len() == j,
                forall|k: int| 0 <= k < j ==> r@[k] == self.cells@[row * 320 + k].strength,
            decreases 320 - j,
        {
            r.push(self.cells[row * 320 + j].strength);
            j = j + 1;
        }
        r
    }
}

/// A fresh copy of a cell vector.
fn copy_cells(cells: &Vec<XrainCell>) -> (v: Vec<XrainCell>)
    ensures
        v@ == cells@,
{
    let mut v: Vec<XrainCell> = Vec::new();
    let mut i: usize = 0;
    while i < cells.len()
        invariant
            i <= cells@.len(),
            v@.len() == i,
            forall|k: int| 0 <= k < i ==> v@[k] == cells@[k],
        decreases cells@.len() - i,
    {
        v.push(cells[i]);
        i = i + 1;
    }
    proof {
        assert(v@ =~= cells@);
    }
    v
}

/// The 1600 cells of a zero-filled tile.
fn zero_cells() -> (v: Vec<XrainCell>)
    ensures
        v@ == zero_tile(),
{
    let mut v: Vec<XrainCell> = Vec::new();
    let mut i: usize = 0;
    while i < 1600
        invariant
            i <= 1600,
            v@.len() == i,
            forall|k: int| 0 <= k < i ==> v@[k] == zero_cell(),
        decreases 1600 - i,
    {
        v.push(XrainCell { quality: 0, strength: 0 });
        i = i + 1;
    }
    proof {
        assert(v@ =~= zero_tile());
    }
    v
}

/// A copy of the cells standing in slot `sc` of primary mesh `key`: the
/// filed tile's cells, or 1600 zero cells for a gap. Fails with
/// `ShapeMismatch` when a filed tile does not hold exactly 1600 cells.
fn slot_cells(map: &MeshMap, key: PrimaryCode, sc: SecondaryCode) -> (r: Result<
    Vec<XrainCell>,
    XrainError,
>)
    ensures
        match r {
            Ok(v) => slot_ok(*map, key, sc) && v@ == slot_cells_spec(*map, key, sc),
            Err(e) => !slot_ok(*map, key, sc) && e == XrainError::ShapeMismatch,
        },
{
    let tile_cells: Option<&Vec<XrainCell>> = match map.get(&key) {
        Some(inner) => match inner.get(&sc) {
            Some(tile) => Some(&tile.xrain_cells),
            None => None,
        },
        None => None,
    };
    match tile_cells {
        Some(cells) => {
            if cells.len() != 1600 {
                return Err(XrainError::ShapeMismatch);
            }
            Ok(copy_cells(cells))
        },
        None => Ok(zero_cells()),
    }
}

/// Concatenates the eight tiles of one secondary row band, west to east,
/// into 40 raster rows of 320 cells each.
///
/// `band` is the secondary row index y; the rows produced are the raster
/// rows starting at `(7 - band) * 40` of the final raster. Absent slots
/// contribute zero-filled tiles.
pub fn merge_secondary_mesh_by_row(map: &MeshMap, key: PrimaryCode, band: u8) -> (r: Result<
    Vec<XrainCell>,
    XrainError,
>)
    requires
        band < 8,
    ensures
        match r {
            Ok(v) => {
                &&& band_ok(*map, key, band as int)
                &&& v@.len() == 12800
                &&& forall|idx: int|
                    0 <= idx < 12800 ==> v@[idx] == merged_cell(
                        *map,
                        key,
                        (7 - band) * 40 + idx / 320,
                        idx % 320,
                    )
            },
            Err(e) => !band_ok(*map, key, band as int) && e == XrainError::ShapeMismatch,
        },
{
    let mut tiles: Vec<Vec<XrainCell>> = Vec::new();
    let mut sx: usize = 0;
    while sx < 8
        invariant
            sx <= 8,
            band < 8,
            tiles@.len() == sx,
            forall|k: int|
                0 <= k < sx ==> #[trigger] slot_ok(*map, key, ((band * 10 + k) as SecondaryCode)),
            forall|k: int|
                0 <= k < sx ==> (#[trigger] tiles@[k])@ == slot_cells_spec(
                    *map,
                    key,
                    ((band * 10 + k) as SecondaryCode),
                ),
        decreases 8 - sx,
    {
        let sc: usize = (band as usize) * 10 + sx;
        match slot_cells(map, key, sc) {
            Ok(cells) => {
                tiles.push(cells);
            },
            Err(e) => {
                return Err(e);
            },
        }
        sx = sx + 1;
    }
    let mut v: Vec<XrainCell> = Vec::new();
    let mut rr: usize = 0;
    while rr < 40
        invariant
            rr <= 40,
            band < 8,
            tiles@.len() == 8,
            forall|k: int|
                0 <= k < 8 ==> #[trigger] slot_ok(*map, key, ((band * 10 + k) as SecondaryCode)),
            forall|k: int|
                0 <= k < 8 ==> (#[trigger] tiles@[k])@ == slot_cells_spec(
                    *map,
                    key,
                    ((band * 10 + k) as SecondaryCode),
                ),
            v@.len() == rr * 320,
            forall|idx: int|
                0 <= idx < rr * 320 ==> v@[idx] == merged_cell(
                    *map,
                    key,
                    (7 - band) * 40 + idx / 320,
                    idx % 320,
                ),
        decreases 40 - rr,
    {
        let mut c: usize = 0;
        while c < 320
            invariant
                rr < 40,
                c <= 320,
                band < 8,
                tiles@.len() == 8,
                forall|k: int|
                    0 <= k < 8 ==> #[trigger] slot_ok(
                        *map,
                        key,
                        ((band * 10 + k) as SecondaryCode),
                    ),
                forall|k: int|
                    0 <= k < 8 ==> (#[trigger] tiles@[k])@ == slot_cells_spec(
                        *map,
                        key,
                        ((band * 10 + k) as SecondaryCode),
                    ),
                v@.len() == rr * 320 + c,
                forall|idx: int|
                    0 <= idx < rr * 320 + c ==> v@[idx] == merged_cell(
                        *map,
                        key,
                        (7 - band) * 40 + idx / 320,
                        idx % 320,
                    ),
            decreases 320 - c,
        {
            let sxi = c / 40;
            let cc = c % 40;
            proof {
                assert(0 <= sxi < 8 && cc < 40) by {
                    vstd::arithmetic::div_mod::lemma_div_is_ordered(c as int, 319, 40);
                    vstd::arithmetic::div_mod::lemma_mod_bound(c as int, 40);
                }
                let scv = ((band * 10 + sxi as int) as SecondaryCode);
                assert(slot_ok(*map, key, scv));
                assert(tiles@[sxi as int]@ == slot_cells_spec(*map, key, scv));
                assert(tiles@[sxi as int]@.len() == 1600);
            }
            let cell = tiles[sxi][rr * 40 + cc];
            proof {
                let row = (7 - band) * 40 + rr;
                lemma_row_col(7 - band, rr as int, 40);
                lemma_row_col(rr as int, c as int, 320);
                assert(row / 40 == 7 - band && row % 40 == rr);
                assert(cell == merged_cell(*map, key, row, c as int));
            }
            v.push(cell);
            c = c + 1;
        }
        rr = rr + 1;
    }
    Ok(v)
}

/// Merges the 64 secondary meshes of primary mesh `key` into one 320x320
/// raster: eight row bands, each the west-to-east concatenation of eight
/// tiles, stacked in reversed band order — band y = 7 first, band y = 0
/// last — because the secondary row index grows south to north while
/// raster rows grow north to south.
///
/// Slots with no decoded tile are filled with zero cells, so the raster is
/// always a full 320x320 rectangle no matter how many tiles were decoded;
/// a filed tile of the wrong shape fails with `ShapeMismatch`.
pub fn merge_primary_mesh(map: &MeshMap, key: PrimaryCode) -> (r: Result<Raster, XrainError>)
    ensures
        match r {
            Ok(ras) => {
                &&& slots_ok(*map, key)
                &&& ras.wf()
                &&& forall|idx: int|
                    0 <= idx < 102400 ==> ras.cells@[idx] == merged_cell(
                        *map,
                        key,
                        idx / 320,
                        idx % 320,
                    )
            },
            Err(e) => !slots_ok(*map, key) && e == XrainError::ShapeMismatch,
        },
{
    let mut cells: Vec<XrainCell> = Vec::new();
    let mut band_idx: usize = 0;
    while band_idx < 8
        invariant
            band_idx <= 8,
            cells@.len() == band_idx * 12800,
            forall|b: int| 0 <= b < band_idx ==> #[trigger] band_ok(*map, key, 7 - b),
            forall|idx: int|
                0 <= idx < band_idx * 12800 ==> cells@[idx] == merged_cell(
                    *map,
                    key,
                    idx / 320,
                    idx % 320,
                ),
        decreases 8 - band_idx,
    {
        let band: u8 = (7 - band_idx) as u8;
        let mut row_band = match merge_secondary_mesh_by_row(map, key, band) {
            Ok(v) => v,
            Err(e) => {
                proof {
                    let b = 7 - band_idx as int;
                    assert(!band_ok(*map, key, b));
                    assert(0 <= b < 8);
                    assert(!slots_ok(*map, key));
                }
                return Err(e);
            },
        };
        let ghost old_len = cells@.len() as int;
        cells.append(&mut row_band);
        proof {
            assert forall|idx: int|
                0 <= idx < (band_idx + 1) * 12800 implies cells@[idx] == merged_cell(
                *map,
                key,
                idx / 320,
                idx % 320,
            ) by {
                if idx >= old_len {
                    let d = idx - old_len;
                    assert(cells@[idx] == merged_cell(
                        *map,
                        key,
                        (7 - band) * 40 + d / 320,
                        d % 320,
                    ));
                    lemma_div_mod_shift(40 * (band_idx as int), d, 320);
                    assert(idx == (40 * band_idx) * 320 + d);
                    assert(idx / 320 == 40 * band_idx + d / 320 && idx % 320 == d % 320);
                }
            }
        }
        band_idx = band_idx + 1;
    }
    proof {
        assert forall|b: int| 0 <= b < 8 implies #[trigger] band_ok(*map, key, b) by {
            assert(band_ok(*map, key, 7 - (7 - b)));
        }
    }
    Ok(Raster { cells })
}

/// A map that came out of a decode merges cleanly for every key: each of
/// its tiles holds exactly 1600 cells, so `ShapeMismatch` is structurally
/// unreachable on decoded data and stands only as a defensive check.
pub proof fn lemma_decoded_map_merges(m: MeshMap, buf: Seq<u8>, key: PrimaryCode)
    requires
        crate::decode::assembled_matches(m, crate::decode::assembly(buf)),
    ensures
        slots_ok(m, key),
{
    let a = crate::decode::assembly(buf);
    crate::decode::lemma_assembly_tiles_wf(buf);
    assert forall|band: int| 0 <= band < 8 implies #[trigger] band_ok(m, key, band) by {
        assert forall|sx: int| 0 <= sx < 8 implies #[trigger] slot_ok(
            m,
            key,
            ((band * 10 + sx) as SecondaryCode),
        ) by {
            let sc = ((band * 10 + sx) as SecondaryCode);
            if m@.contains_key(key) && m@[key]@.contains_key(sc) {
                assert(a.contains_key((key, sc)));
                assert(m@[key]@[sc]@ == a[(key, sc)]);
                assert(a[(key, sc)].wf());
            }
        }
    }
}

/// The tile that slot `i` (`i = y * 8 + x`) of primary mesh (`lat`, `lon`)
/// exports: the filed tile, or a zero-filled tile carrying the slot's own
/// mesh codes.
pub open spec fn export_slot(m: MeshMap, lat: u8, lon: u8, i: int) -> SecondaryMeshView {
    let sy = i / 8;
    let sx = i % 8;
    let key = ((lat * 100 + lon) as PrimaryCode);
    let sc = ((sy * 10 + sx) as SecondaryCode);
    match slot_tile(m, key, sc) {
        Some(tile) => tile@,
        None => SecondaryMeshView {
            primary_lat_code: lat,
            primary_lon_code: lon,
            secondary_lat_code: sy as u8,
            secondary_lon_code: sx as u8,
            cells: zero_tile(),
        },
    }
}

/// Gathers the full 8x8 grid of secondary meshes of one primary mesh,
/// synthesizing a zero-filled tile for every absent slot, so that what is
/// exported is always rectangular.
///
/// The tiles come ordered by secondary code: index `i` holds the slot at
/// row y = `i / 8`, column x = `i % 8`.
pub fn export_primary_mesh(map: &MeshMap, lat: u8, lon: u8) -> (pm: PrimaryMesh)
    ensures
        pm.lat == lat,
        pm.lon == lon,
        pm.secondary@.len() == 64,
        forall|i: int|
            0 <= i < 64 ==> (#[trigger] pm.secondary@[i])@ == export_slot(*map, lat, lon, i),
{
    let key: usize = (lat as usize) * 100 + (lon as usize);
    let mut secondary: Vec<SecondaryMesh> = Vec::new();
    let mut i: usize = 0;
    while i < 64
        invariant
            i <= 64,
            key == ((lat * 100 + lon) as PrimaryCode),
            secondary@.len() == i,
            forall|k: int|
                0 <= k < i ==> (#[trigger] secondary@[k])@ == export_slot(*map, lat, lon, k),
        decreases 64 - i,
    {
        let sy = i / 8;
        let sx = i % 8;
        proof {
            assert(sy < 8 && sx < 8) by {
                vstd::arithmetic::div_mod::lemma_div_is_ordered(i as int, 63, 8);
                vstd::arithmetic::div_mod::lemma_mod_bound(i as int, 8);
            }
        }
        let sc: usize = sy * 10 + sx;
        let tile: SecondaryMesh = match map.get(&key) {
            Some(inner) => match inner.get(&sc) {
                Some(found) => SecondaryMesh::new(
                    found.primary_lat_code,
                    found.primary_lon_code,
                    found.secondary_lat_code,
                    found.secondary_lon_code,
                    copy_cells(&found.xrain_cells),
                ),
                None => SecondaryMesh::zeros(lat, lon, sy as u8, sx as u8),
            },
            None => SecondaryMesh::zeros(lat, lon, sy as u8, sx as u8),
        };
        proof {
            assert(tile@ == export_slot(*map, lat, lon, i as int));
        }
        secondary.push(tile);
        i = i + 1;
    }
    PrimaryMesh { lat, lon, secondary }
}

} // verus!
