use std::collections::BTreeMap;

use xrain::ByteCursor;
use xrain::MagicField;
use xrain::MeshMap;
use xrain::SecondaryMesh;
use xrain::XrainCell;
use xrain::XrainError;
use xrain::XrainHeader;
use xrain::decode_bcd;
use xrain::decode_xrain;
use xrain::export_primary_mesh;
use xrain::insert_tile;
use xrain::merge_primary_mesh;
use xrain::merge_secondary_mesh_by_row;
use xrain::read_block_header;
use xrain::read_cell;
use xrain::read_header;
use xrain::read_sequential_block;
use xrain::read_single_block;

/// A valid 64-byte file header declaring `block_num` blocks and `data_size`
/// bytes, bounded by mesh codes 46/34 (south-west) and 55/43 (north-east).
fn build_header(block_num: u16, data_size: u32) -> Vec<u8> {
    let mut buf: Vec<u8> = Vec::new();
    buf.push(0xfd); // format tag
    buf.push(71); // owner
    buf.push(0x80); // data-type-1
    buf.push(0x01); // data-type-2
    buf.push(0x00); // data-type-3, two bytes
    buf.push(0x07);
    buf.push(0x01); // header type
    buf.push(0x05); // observation identifier
    for i in 0..16usize {
        buf.push(i as u8); // timestamp, raw
    }
    for _i in 0..16usize {
        buf.push(0x00); // system status
    }
    buf.push(0x00); // device number
    buf.push(0x02); // response status
    buf.push((block_num >> 8) as u8);
    buf.push((block_num & 0xff) as u8);
    buf.push((data_size >> 24) as u8);
    buf.push(((data_size >> 16) & 0xff) as u8);
    buf.push(((data_size >> 8) & 0xff) as u8);
    buf.push((data_size & 0xff) as u8);
    buf.push(0x46); // bottom-left latitude, BCD
    buf.push(0x34); // bottom-left longitude, BCD
    buf.push(0x55); // top-right latitude, BCD
    buf.push(0x43); // top-right longitude, BCD
    for _i in 0..10usize {
        buf.push(0x00); // reserved
    }
    buf.push(0x00); // trailer
    buf.push(0x00);
    buf
}

/// Appends one block record: its four header bytes, then `run` tiles whose
/// every cell is the big-endian word `word`.
fn push_block(buf: &mut Vec<u8>, lat: u8, lon: u8, y: u8, x: u8, run: u8, word: u16) {
    buf.push(lat);
    buf.push(lon);
    buf.push((y << 4) | x);
    buf.push(run);
    for _t in 0..run as usize {
        for _i in 0..1600usize {
            buf.push((word >> 8) as u8);
            buf.push((word & 0xff) as u8);
        }
    }
}

/// A tile at (54, 38, y, x) whose 1600 cells all have the given strength
/// and quality zero.
fn uniform_mesh(y: u8, x: u8, strength: u16) -> SecondaryMesh {
    let mut cells: Vec<XrainCell> = Vec::new();
    for _i in 0..1600usize {
        cells.push(XrainCell { quality: 0, strength });
    }
    SecondaryMesh::new(54, 38, y, x, cells)
}

#[test]
fn tedst_while() {
    let mut idx: usize = 0;
    while idx < 10 {
        println!("{}", idx);
        idx += 1;
    }
    for _i in 0..10usize {}
}

#[test]
fn test_cursor_take_and_truncation() {
    let data: Vec<u8> = vec![1, 2, 3, 4, 5];
    let mut cur = ByteCursor::new(&data);
    let taken = cur.take(3).unwrap();
    assert_eq!(taken, vec![1, 2, 3]);
    assert_eq!(cur.remaining(), 2);
    let err = cur.take(3).unwrap_err();
    assert_eq!(err, XrainError::Truncated { needed: 3, available: 2 });
    // a failed take leaves the cursor where it was
    assert_eq!(cur.remaining(), 2);
    assert_eq!(cur.read_u16_be().unwrap(), 0x0405);
}

#[test]
fn test_cell_round_trip() {
    let data: Vec<u8> = vec![0xab, 0xcd];
    let mut cur = ByteCursor::new(&data);
    let cell = read_cell(&mut cur).unwrap();
    assert_eq!(cell.quality, 0xa);
    assert_eq!(cell.strength, 0xbcd);
    assert!(cell.quality < 16);
    assert!(cell.strength < 4096);
    let word: u16 = (cell.quality << 12) | cell.strength;
    assert_eq!(word, 0xabcd);
}

#[test]
fn test_bcd_decode() {
    assert_eq!(decode_bcd(0x38), 38);
    assert_eq!(decode_bcd(0x00), 0);
    assert_eq!(decode_bcd(0x46), 46);
    assert_eq!(decode_bcd(0x55), 55);
}

#[test]
fn test_header_fields() {
    let data = build_header(3, 9664);
    let mut cur = ByteCursor::new(&data);
    let header = read_header(&mut cur).unwrap();
    assert_eq!(header.owner, 71);
    assert_eq!(header.mesh_kind, 0x0007);
    assert_eq!(header.timestamp, (0..16).map(|i: usize| i as u8).collect::<Vec<u8>>());
    assert_eq!(header.response_status, 2);
    assert_eq!(header.block_num, 3);
    assert_eq!(header.data_size, 9664);
    assert_eq!(header.bottom_left_lat, 46);
    assert_eq!(header.bottom_left_lon, 34);
    assert_eq!(header.top_right_lat, 55);
    assert_eq!(header.top_right_lon, 43);
    assert_eq!(cur.remaining(), 0);
}

#[test]
fn test_default_header() {
    let header = XrainHeader::default();
    assert_eq!(header.owner, 71);
    assert_eq!(header.block_num, 0);
    assert_eq!(header.data_size, 0);
}

#[test]
fn test_truncated_before_trailer() {
    // cut one byte before the file trailer: recoverable Truncated, no panic,
    // no partially-valid header
    let mut data = build_header(0, 64);
    data.truncate(63);
    let mut cur = ByteCursor::new(&data);
    let err = read_header(&mut cur).unwrap_err();
    assert_eq!(err, XrainError::Truncated { needed: 1, available: 0 });
    let err2 = decode_xrain(&data).unwrap_err();
    assert_eq!(err2, XrainError::Truncated { needed: 1, available: 0 });
}

#[test]
fn test_invalid_magic() {
    let mut data = build_header(0, 64);
    data[0] = 0xfc;
    let err = decode_xrain(&data).unwrap_err();
    assert_eq!(
        err,
        XrainError::InvalidMagic { field: MagicField::FormatTag, expected: 0xfd, actual: 0xfc },
    );
    let mut data2 = build_header(0, 64);
    data2[3] = 0x02;
    let err2 = decode_xrain(&data2).unwrap_err();
    assert_eq!(
        err2,
        XrainError::InvalidMagic { field: MagicField::DataType2, expected: 0x01, actual: 0x02 },
    );
    let mut data3 = build_header(0, 64);
    data3[63] = 0x09;
    let err3 = decode_xrain(&data3).unwrap_err();
    assert_eq!(
        err3,
        XrainError::InvalidMagic { field: MagicField::Trailer, expected: 0x00, actual: 0x09 },
    );
}

#[test]
fn test_empty_block() {
    let mut data = build_header(1, 68);
    push_block(&mut data, 54, 38, 0, 0, 0, 0);
    let err = decode_xrain(&data).unwrap_err();
    assert_eq!(err, XrainError::EmptyBlock);
}

#[test]
fn test_block_header_fields() {
    let data: Vec<u8> = vec![54, 38, 0x21, 3];
    let mut cur = ByteCursor::new(&data);
    let header = read_block_header(&mut cur).unwrap();
    assert_eq!(header.lat, 54);
    assert_eq!(header.lon, 38);
    assert_eq!(header.first_y, 2);
    assert_eq!(header.first_x, 1);
    assert_eq!(header.len(), 3);
}

#[test]
fn test_single_block_truncated() {
    let data: Vec<u8> = vec![0u8; 3199];
    let mut cur = ByteCursor::new(&data);
    let err = read_single_block(&mut cur).unwrap_err();
    assert_eq!(err, XrainError::Truncated { needed: 2, available: 1 });
    let full: Vec<u8> = vec![0u8; 3200];
    let mut cur2 = ByteCursor::new(&full);
    let cells = read_single_block(&mut cur2).unwrap();
    assert_eq!(cells.len(), 1600);
}

#[test]
fn test_run_crosses_primary_mesh() {
    // a run starting at column 6 walks east: columns 6, 7, then column 0 of
    // the next primary mesh
    let mut data: Vec<u8> = Vec::new();
    push_block(&mut data, 10, 20, 5, 6, 3, 0);
    let mut cur = ByteCursor::new(&data);
    let meshes = read_sequential_block(&mut cur).unwrap();
    assert_eq!(meshes.len(), 3);
    assert_eq!(meshes[0].primary_lon_code, 20);
    assert_eq!(meshes[0].secondary_lon_code, 6);
    assert_eq!(meshes[1].primary_lon_code, 20);
    assert_eq!(meshes[1].secondary_lon_code, 7);
    assert_eq!(meshes[2].primary_lon_code, 21);
    assert_eq!(meshes[2].secondary_lon_code, 0);
    for m in meshes.iter() {
        assert_eq!(m.primary_lat_code, 10);
        assert_eq!(m.secondary_lat_code, 5);
        assert_eq!(m.xrain_cells.len(), 1600);
    }
}

#[test]
fn test_end_to_end_minimal_file() {
    // block-count = 1, one run-length-1 block at (54, 38, x = 0, y = 0),
    // every cell word 0x1005
    let mut data = build_header(1, 64 + 4 + 3200);
    push_block(&mut data, 54, 38, 0, 0, 1, 0x1005);
    let map = decode_xrain(&data).unwrap();
    assert_eq!(map.len(), 1);
    let inner = map.get(&5438).unwrap();
    assert_eq!(inner.len(), 1);
    let mesh = inner.get(&0).unwrap();
    assert_eq!(mesh.primary_lat_code, 54);
    assert_eq!(mesh.primary_lon_code, 38);
    assert_eq!(mesh.secondary_lat_code, 0);
    assert_eq!(mesh.secondary_lon_code, 0);
    assert_eq!(mesh.xrain_cells.len(), 1600);
    for cell in mesh.xrain_cells.iter() {
        assert_eq!(cell.quality, 1);
        assert_eq!(cell.strength, 5);
    }
}

#[test]
fn test_exact_consumption() {
    // the decoder stops after block-count blocks: trailing bytes are
    // tolerated, one byte too few is a truncation
    let mut data = build_header(2, 64 + 2 * (4 + 3200));
    push_block(&mut data, 54, 38, 0, 0, 1, 1);
    push_block(&mut data, 54, 38, 1, 0, 1, 2);
    assert!(decode_xrain(&data).is_ok());
    let mut longer = data.clone();
    longer.push(0xee);
    assert!(decode_xrain(&longer).is_ok());
    let mut shorter = data.clone();
    shorter.truncate(data.len() - 1);
    let err = decode_xrain(&shorter).unwrap_err();
    assert_eq!(err, XrainError::Truncated { needed: 2, available: 1 });
}

#[test]
fn test_later_tile_overwrites_earlier() {
    let mut data = build_header(2, 64 + 2 * (4 + 3200));
    push_block(&mut data, 54, 38, 0, 0, 1, 7);
    push_block(&mut data, 54, 38, 0, 0, 1, 9);
    let map = decode_xrain(&data).unwrap();
    let mesh = map.get(&5438).unwrap().get(&0).unwrap();
    assert_eq!(mesh.xrain_cells[0].strength, 9);
}

#[test]
fn test_key_order_is_ascending() {
    // keys iterate numerically ascending no matter the stream order
    let mut data = build_header(2, 64 + 2 * (4 + 3200));
    push_block(&mut data, 60, 1, 0, 0, 1, 3);
    push_block(&mut data, 54, 38, 0, 0, 1, 4);
    let map = decode_xrain(&data).unwrap();
    let keys: Vec<usize> = map.keys().copied().collect();
    assert_eq!(keys, vec![5438, 6001]);
}

#[test]
fn test_gap_fill_shape_and_zeros() {
    // one decoded tile out of 64: the raster is still 320x320 and every
    // missing-tile cell is zero
    let mut data = build_header(1, 64 + 4 + 3200);
    push_block(&mut data, 54, 38, 0, 0, 1, 0x1005);
    let map = decode_xrain(&data).unwrap();
    let raster = merge_primary_mesh(&map, 5438).unwrap();
    assert_eq!(raster.cells.len(), 320 * 320);
    for row in 0..320usize {
        for col in 0..320usize {
            let cell = raster.get(row, col);
            if row >= 280 && col < 40 {
                // the decoded tile sits at x = 0, y = 0: south-west corner,
                // bottom rows of the raster
                assert_eq!(cell.quality, 1);
                assert_eq!(cell.strength, 5);
            } else {
                assert_eq!(cell.quality, 0);
                assert_eq!(cell.strength, 0);
            }
        }
    }
    // a key with no decoded tile at all merges to an all-zero raster
    let empty_raster = merge_primary_mesh(&map, 9999).unwrap();
    assert_eq!(empty_raster.cells.len(), 320 * 320);
    for cell in empty_raster.cells.iter() {
        assert_eq!(cell.strength, 0);
        assert_eq!(cell.quality, 0);
    }
}

#[test]
fn test_row_band_reversal() {
    // band A at y = 0 all cells 1, band B at y = 1 all cells 2: B's rows
    // stand above A's in the merged raster
    let mut map: MeshMap = BTreeMap::new();
    for x in 0..8u8 {
        insert_tile(&mut map, uniform_mesh(0, x, 1));
        insert_tile(&mut map, uniform_mesh(1, x, 2));
    }
    let raster = merge_primary_mesh(&map, 5438).unwrap();
    for row in 0..320usize {
        for col in 0..320usize {
            let expected: u16 = if row >= 280 {
                1
            } else if row >= 240 {
                2
            } else {
                0
            };
            assert_eq!(raster.get(row, col).strength, expected);
        }
    }
}

#[test]
fn test_merge_band_order_within_row() {
    // tiles of one band keep west-to-east order: column c comes from the
    // tile at x = c / 40
    let mut map: MeshMap = BTreeMap::new();
    for x in 0..8u8 {
        insert_tile(&mut map, uniform_mesh(3, x, x as u16 + 10));
    }
    let band = merge_secondary_mesh_by_row(&map, 5438, 3).unwrap();
    assert_eq!(band.len(), 40 * 320);
    for rr in 0..40usize {
        for c in 0..320usize {
            assert_eq!(band[rr * 320 + c].strength, (c / 40) as u16 + 10);
        }
    }
}

#[test]
fn test_shape_mismatch() {
    let mut map: MeshMap = BTreeMap::new();
    let bad = SecondaryMesh::new(54, 38, 0, 0, vec![XrainCell { quality: 0, strength: 1 }]);
    insert_tile(&mut map, bad);
    let err = merge_primary_mesh(&map, 5438).unwrap_err();
    assert_eq!(err, XrainError::ShapeMismatch);
    let err2 = merge_secondary_mesh_by_row(&map, 5438, 0).unwrap_err();
    assert_eq!(err2, XrainError::ShapeMismatch);
}

#[test]
fn test_zeros_and_assign_cells() {
    let mut mesh = SecondaryMesh::zeros(54, 38, 7, 0);
    assert_eq!(mesh.primary_lat_code, 54);
    assert_eq!(mesh.primary_lon_code, 38);
    assert_eq!(mesh.secondary_lat_code, 7);
    assert_eq!(mesh.secondary_lon_code, 0);
    assert_eq!(mesh.xrain_cells.len(), 1600);
    for cell in mesh.xrain_cells.iter() {
        assert_eq!(cell.quality, 0);
        assert_eq!(cell.strength, 0);
    }
    let mut cells: Vec<XrainCell> = Vec::new();
    for i in 0..1600usize {
        cells.push(XrainCell { quality: 0, strength: i as u16 });
    }
    mesh.assign_cells(cells);
    assert_eq!(mesh.secondary_lat_code, 7);
    assert_eq!(mesh.xrain_cells[1599].strength, 1599);
    let row = mesh.strength_row(2);
    assert_eq!(row.len(), 40);
    for j in 0..40usize {
        assert_eq!(row[j], (2 * 40 + j) as u16);
    }
}

#[test]
fn test_export_primary_mesh() {
    let mut data = build_header(1, 64 + 4 + 3200);
    push_block(&mut data, 54, 38, 0, 3, 1, 0x1005);
    let map = decode_xrain(&data).unwrap();
    let pm = export_primary_mesh(&map, 54, 38);
    assert_eq!(pm.lat, 54);
    assert_eq!(pm.lon, 38);
    assert_eq!(pm.secondary.len(), 64);
    for i in 0..64usize {
        let tile = &pm.secondary[i];
        assert_eq!(tile.secondary_lat_code as usize, i / 8);
        assert_eq!(tile.secondary_lon_code as usize, i % 8);
        assert_eq!(tile.primary_lat_code, 54);
        assert_eq!(tile.primary_lon_code, 38);
        assert_eq!(tile.xrain_cells.len(), 1600);
        let expected: u16 = if i == 3 {
            5
        } else {
            0
        };
        assert_eq!(tile.xrain_cells[0].strength, expected);
    }
}

#[test]
fn test_raster_strength_row() {
    let mut data = build_header(1, 64 + 4 + 3200);
    push_block(&mut data, 54, 38, 0, 0, 1, 0x1005);
    let map = decode_xrain(&data).unwrap();
    let raster = merge_primary_mesh(&map, 5438).unwrap();
    let top = raster.strength_row(0);
    assert_eq!(top.len(), 320);
    assert!(top.iter().all(|s| *s == 0));
    let bottom = raster.strength_row(319);
    assert_eq!(bottom[0], 5);
    assert_eq!(bottom[39], 5);
    assert_eq!(bottom[40], 0);
}
