//! The decoded data types: secondary-mesh tiles and their mesh codes.

use vstd::prelude::*;

use crate::cell::XrainCell;
use crate::cell::zero_cell;

verus! {

/// The cells of one tile: a 40x40 grid stored row-major, 1600 in all.
pub type CellComposite = Vec<XrainCell>;

/// The mathematical content of a [`SecondaryMesh`]: its four mesh-code
/// components and its cells as a sequence.
pub ghost struct SecondaryMeshView {
    pub primary_lat_code: u8,
    pub primary_lon_code: u8,
    pub secondary_lat_code: u8,
    pub secondary_lon_code: u8,
    pub cells: Seq<XrainCell>,
}

impl SecondaryMeshView {
    /// A tile is well formed when it holds exactly the 1600 cells of a
    /// 40x40 grid.
    pub open spec fn wf(self) -> bool {
        self.cells.len() == 1600
    }

    /// The synthetic primary-mesh key: latitude code times 100 plus
    /// longitude code.
    pub open spec fn primary_code(self) -> int {
        self.primary_lat_code * 100 + self.primary_lon_code
    }

    /// The secondary-mesh code: row index times 10 plus column index.
    pub open spec fn secondary_code(self) -> int {
        self.secondary_lat_code * 10 + self.secondary_lon_code
    }
}

/// The 1600 cells of a tile that holds no data at all.
pub open spec fn zero_tile() -> Seq<XrainCell> {
    Seq::new(1600, |i: int| zero_cell())
}

/// The data of one primary mesh, ready for export: its two-digit mesh-code
/// components and its secondary meshes, one for each of the 64 slots,
/// ordered by secondary code.
#[derive(Debug, Clone)]
pub struct PrimaryMesh {
    /// First two digits of the primary-mesh code (latitude).
    pub lat: u8,
    /// Last two digits of the primary-mesh code (longitude).
    pub lon: u8,
    /// The 64 secondary meshes, gaps zero-filled, at index y * 8 + x.
    pub secondary: Vec<SecondaryMesh>,
}

/// One secondary mesh: a 40x40 tile of measurements at a fixed position
/// inside a primary mesh.
///
/// `secondary_lon_code` (x) grows west to east, `secondary_lat_code` (y)
/// south to north; each runs over 0..8 inside its primary mesh.
#[derive(Debug, Clone)]
pub struct SecondaryMesh {
    /// First two digits of the primary-mesh code (latitude).
    pub primary_lat_code: u8,
    /// Last two digits of the primary-mesh code (longitude).
    pub primary_lon_code: u8,
    /// Row position (south to north) inside the primary mesh.
    pub secondary_lat_code: u8,
    /// Column position (west to east) inside the primary mesh.
    pub secondary_lon_code: u8,
    /// The 1600 cells, row-major: index = row * 40 + column.
    pub xrain_cells: CellComposite,
}

impl View for SecondaryMesh {
    type V = SecondaryMeshView;

    open spec fn view(&self) -> SecondaryMeshView {
        SecondaryMeshView {
            primary_lat_code: self.primary_lat_code,
            primary_lon_code: self.primary_lon_code,
            secondary_lat_code: self.secondary_lat_code,
            secondary_lon_code: self.secondary_lon_code,
            cells: self.xrain_cells@,
        }
    }
}

impl SecondaryMesh {
    /// Builds a tile from its mesh-code components and its cells.
    ///
    /// The latitude component comes first in each pair, so the mesh whose
    /// six-digit code reads 543870 is built from (54, 38, 7, 0).
    pub fn new(
        primary_lat_code: u8,
        primary_lon_code: u8,
        y: u8,
        x: u8,
        cells: CellComposite,
    ) -> (m: Self)
        ensures
            m@ == (SecondaryMeshView {
                primary_lat_code,
                primary_lon_code,
                secondary_lat_code: y,
                secondary_lon_code: x,
                cells: cells@,
            }),
    {
        SecondaryMesh {
            primary_lat_code,
            primary_lon_code,
            secondary_lat_code: y,
            secondary_lon_code: x,
            xrain_cells: cells,
        }
    }

    /// The canonical zero-filled tile used to fill gaps: every cell has
    /// quality 0 and strength 0.
    pub fn zeros(primary_lat_code: u8, primary_lon_code: u8, y: u8, x: u8) -> (m: Self)
        ensures
            m@ == (SecondaryMeshView {
                primary_lat_code,
                primary_lon_code,
                secondary_lat_code: y,
                secondary_lon_code: x,
                cells: zero_tile(),
            }),
            m@.wf(),
    {
        let mut xrain_cells: CellComposite = Vec::new();
        let mut i: usize = 0;
        while i < 1600
            invariant
                i <= 1600,
                xrain_cells@.len() == i,
                forall|j: int| 0 <= j < i ==> xrain_cells@[j] == zero_cell(),
            decreases 1600 - i,
        {
            xrain_cells.push(XrainCell { quality: 0, strength: 0 });
            i = i + 1;
        }
        proof {
            assert(xrain_cells@ =~= zero_tile());
        }
        SecondaryMesh {
            primary_lat_code,
            primary_lon_code,
            secondary_lat_code: y,
            secondary_lon_code: x,
            xrain_cells,
        }
    }

    /// Replaces the cells of the tile, leaving its mesh codes untouched.
    pub fn assign_cells(&mut self, cell_composite: CellComposite)
        ensures
            final(self)@ == (SecondaryMeshView { cells: cell_composite@, ..old(self)@ }),
    {
        self.xrain_cells = cell_composite;
    }

    /// The strengths of one row of the tile, west to east: the computed
    /// half of a CSV export line.
    pub fn strength_row(&self, row: usize) -> (r: Vec<u16>)
        requires
            row < 40,
            self@.wf(),
        ensures
            r@.len() == 40,
            forall|j: int| 0 <= j < 40 ==> r@[j] == self@.cells[row * 40 + j].strength,
    {
        let mut r: Vec<u16> = Vec::new();
        let mut j: usize = 0;
        while j < 40
            invariant
                j <= 40,
                row < 40,
                self@.wf(),
                r@.len() == j,
                forall|k: int| 0 <= k < j ==> r@[k] == self@.cells[row * 40 + k].strength,
            decreases 40 - j,
        {
            let index = row * 40 + j;
            r.push(self.xrain_cells[index].strength);
            j = j + 1;
        }
        r
    }
}

} // verus!
