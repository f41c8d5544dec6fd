//! Block records: a four-byte block header followed by a run of tiles.

use vstd::prelude::*;

use crate::cell::XrainCell;
use crate::cell::cell_at;
use crate::cell::read_cell;
use crate::cursor::ByteCursor;
use crate::cursor::truncated;
use crate::errors::XrainError;
use crate::mesh::CellComposite;
use crate::mesh::SecondaryMesh;
use crate::mesh::SecondaryMeshView;

verus! {

/// A block header: the mesh origin of the first tile of the block and how
/// many consecutive tiles follow.
#[derive(Debug, Clone, Copy, PartialEq, Eq, Structural)]
pub struct XrainBlockHeader {
    /// First two digits of the primary-mesh code of the first tile.
    pub lat: u8,
    /// Last two digits of the primary-mesh code of the first tile.
    pub lon: u8,
    /// Column index (west to east) of the first tile, the low nibble.
    pub first_x: u8,
    /// Row index (south to north) of the first tile, the high nibble.
    pub first_y: u8,
    /// How many consecutive tiles this block carries; zero is legal here
    /// and yields no tiles.
    pub length: u8,
}

impl XrainBlockHeader {
    /// The run length of the block.
    pub fn len(&self) -> (n: u8)
        ensures
            n == self.length,
    {
        self.length
    }
}

/// Latitude byte of the block header at position `p`.
pub open spec fn block_lat(buf: Seq<u8>, p: int) -> u8 {
    buf[p]
}

/// Longitude byte of the block header at position `p`.
pub open spec fn block_lon(buf: Seq<u8>, p: int) -> u8 {
    buf[p + 1]
}

/// Row nibble of the packed grid-position byte.
pub open spec fn block_first_y(buf: Seq<u8>, p: int) -> u8 {
    buf[p + 2] >> 4
}

/// Column nibble of the packed grid-position byte.
pub open spec fn block_first_x(buf: Seq<u8>, p: int) -> u8 {
    buf[p + 2] & 0x0f
}

/// Run length of the block at position `p`.
pub open spec fn block_run(buf: Seq<u8>, p: int) -> int {
    buf[p + 3] as int
}

/// Total size in bytes of the block record at `p`: four header bytes plus
/// 3200 bytes for each tile of the run.
pub open spec fn block_size(buf: Seq<u8>, p: int) -> int {
    4 + 3200 * block_run(buf, p)
}

/// The 1600 cells of the tile stored at byte offset `off`.
pub open spec fn tile_cells(buf: Seq<u8>, off: int) -> Seq<XrainCell> {
    Seq::new(1600, |i: int| cell_at(buf, off + 2 * i))
}

/// The `i`-th tile of the block at `p`, with its derived mesh codes.
///
/// The column index of tile `i` is `first_x + i`; every eight columns it
/// crosses into the next primary mesh to the east, so the primary
/// longitude grows by `(first_x + i) / 8` (wrapping at the byte limit) and
/// the column index is reduced modulo 8. The row never changes within one
/// block.
pub open spec fn tile_view(buf: Seq<u8>, p: int, i: int) -> SecondaryMeshView {
    let cx = block_first_x(buf, p) + i;
    SecondaryMeshView {
        primary_lat_code: block_lat(buf, p),
        primary_lon_code: ((block_lon(buf, p) + cx / 8) % 256) as u8,
        secondary_lat_code: block_first_y(buf, p),
        secondary_lon_code: (cx % 8) as u8,
        cells: tile_cells(buf, p + 4 + 3200 * i),
    }
}

/// The exact failure that decoding the block record at `p` reports, or
/// `None` when the whole record lies within the buffer.
pub open spec fn block_error(buf: Seq<u8>, p: int) -> Option<XrainError> {
    if buf.len() - p < 4 {
        Some(truncated(1, 0))
    } else if buf.len() - p - 4 < 3200 * block_run(buf, p) {
        Some(truncated(2, (buf.len() - p - 4) % 2))
    } else {
        None
    }
}

/// Decodes a four-byte block header: latitude, longitude, the packed
/// grid-position nibbles and the run length. No value is validated here.
pub fn read_block_header(cur: &mut ByteCursor) -> (r: Result<XrainBlockHeader, XrainError>)
    requires
        old(cur).wf(),
    ensures
        final(cur).wf(),
        final(cur).bytes() == old(cur).bytes(),
        match r {
            Ok(h) => {
                let buf = old(cur).bytes();
                let p = old(cur).position();
                &&& old(cur).remaining_spec() >= 4
                &&& h.lat == block_lat(buf, p)
                &&& h.lon == block_lon(buf, p)
                &&& h.first_x == block_first_x(buf, p)
                &&& h.first_y == block_first_y(buf, p)
                &&& h.length as int == block_run(buf, p)
                &&& final(cur).position() == p + 4
            },
            Err(e) => {
                &&& old(cur).remaining_spec() < 4
                &&& e == truncated(1, 0)
            },
        },
{
    let lat = cur.read_u8()?;
    let lon = cur.read_u8()?;
    let grid_position = cur.read_u8()?;
    let xnum = grid_position & 0x0f;
    let ynum = grid_position >> 4;
    let length = cur.read_u8()?;
    Ok(XrainBlockHeader { lat, lon, first_x: xnum, first_y: ynum, length })
}

/// Decodes the 1600 cells of one tile, failing with `Truncated` if the
/// buffer ends mid-tile; a partial tile is never returned.
pub fn read_single_block(cur: &mut ByteCursor) -> (r: Result<CellComposite, XrainError>)
    requires
        old(cur).wf(),
    ensures
        final(cur).wf(),
        final(cur).bytes() == old(cur).bytes(),
        match r {
            Ok(cells) => {
                &&& old(cur).remaining_spec() >= 3200
                &&& cells@ == tile_cells(old(cur).bytes(), old(cur).position())
                &&& final(cur).position() == old(cur).position() + 3200
            },
            Err(e) => {
                &&& old(cur).remaining_spec() < 3200
                &&& e == truncated(2, old(cur).remaining_spec() % 2)
            },
        },
{
    let ghost buf = old(cur).bytes();
    let ghost p0 = old(cur).position();
    let mut cellcmp: CellComposite = Vec::new();
    let mut i: usize = 0;
    while i < 1600
        invariant
            i <= 1600,
            cur.wf(),
            cur.bytes() == buf,
            buf == old(cur).bytes(),
            p0 == old(cur).position(),
            cur.position() == p0 + 2 * i,
            p0 >= 0,
            cellcmp@.len() == i,
            forall|j: int| 0 <= j < i ==> cellcmp@[j] == cell_at(buf, p0 + 2 * j),
        decreases 1600 - i,
    {
        match read_cell(cur) {
            Ok(new_cell) => {
                cellcmp.push(new_cell);
            },
            Err(e) => {
                proof {
                    let rem0 = buf.len() - p0;
                    let rem = buf.len() - (p0 + 2 * i);
                    assert(rem0 == 2 * i + rem);
                    assert(rem0 % 2 == rem % 2) by {
                        vstd::arithmetic::div_mod::lemma_mod_multiples_vanish(
                            i as int,
                            rem,
                            2,
                        );
                    }
                }
                return Err(e);
            },
        }
        i = i + 1;
    }
    proof {
        assert(cellcmp@ =~= tile_cells(buf, p0));
    }
    Ok(cellcmp)
}

/// Decodes one whole block record: the header, then its run of tiles, each
/// tile's mesh codes derived from the header and the tile index.
pub fn read_sequential_block(cur: &mut ByteCursor) -> (r: Result<Vec<SecondaryMesh>, XrainError>)
    requires
        old(cur).wf(),
    ensures
        final(cur).wf(),
        final(cur).bytes() == old(cur).bytes(),
        match r {
            Ok(meshes) => {
                let buf = old(cur).bytes();
                let p = old(cur).position();
                &&& block_error(buf, p) is None
                &&& meshes@.len() == block_run(buf, p)
                &&& forall|j: int|
                    0 <= j < block_run(buf, p) ==> meshes@[j]@ == tile_view(buf, p, j)
                &&& final(cur).position() == p + block_size(buf, p)
            },
            Err(e) => block_error(old(cur).bytes(), old(cur).position()) == Some(e),
        },
{
    let ghost buf = old(cur).bytes();
    let ghost p0 = old(cur).position();
    let block_header = read_block_header(cur)?;
    let run = block_header.len();
    let mut v_smesh: Vec<SecondaryMesh> = Vec::new();
    let mut i: usize = 0;
    while i < run as usize
        invariant
            i <= run,
            cur.wf(),
            cur.bytes() == buf,
            buf == old(cur).bytes(),
            p0 == old(cur).position(),
            p0 >= 0,
            block_error(buf, p0) matches Some(e) ==> e == truncated(
                2,
                (buf.len() - p0 - 4) % 2,
            ),
            buf.len() - p0 >= 4,
            block_header.lat == block_lat(buf, p0),
            block_header.lon == block_lon(buf, p0),
            block_header.first_x == block_first_x(buf, p0),
            block_header.first_y == block_first_y(buf, p0),
            block_header.length == run,
            run as int == block_run(buf, p0),
            cur.position() == p0 + 4 + 3200 * i,
            v_smesh@.len() == i,
            forall|j: int| 0 <= j < i ==> v_smesh@[j]@ == tile_view(buf, p0, j),
        decreases run as int - i,
    {
        let currentx: u32 = block_header.first_x as u32 + i as u32;
        let currenty = block_header.first_y;
        let primary_lon: u8 = (((block_header.lon as u32) + currentx / 8) % 256) as u8;
        let primary_lat = block_header.lat;
        let current_x: u8 = (currentx % 8) as u8;
        match read_single_block(cur) {
            Ok(cmp) => {
                let smesh = SecondaryMesh::new(primary_lat, primary_lon, currenty, current_x, cmp);
                proof {
                    assert(smesh@ == tile_view(buf, p0, i as int));
                }
                v_smesh.push(smesh);
            },
            Err(e) => {
                proof {
                    let rem = buf.len() - (p0 + 4 + 3200 * i);
                    assert(buf.len() - p0 - 4 == 3200 * i + rem);
                    assert((3200 * i + rem) % 2 == rem % 2) by {
                        vstd::arithmetic::div_mod::lemma_mod_multiples_vanish(
                            1600 * i,
                            rem,
                            2,
                        );
                    }
                    assert(3200 * i + rem < 3200 * (i + 1) <= 3200 * block_run(buf, p0))
                        by (nonlinear_arith)
                        requires
                            rem < 3200,
                            0 <= i,
                            i < block_run(buf, p0),
                    ;
                }
                return Err(e);
            },
        }
        i = i + 1;
    }
    Ok(v_smesh)
}

} // verus!
