//! Decoder for the XRAIN composite-radar rainfall product.
//!
//! The crate parses the fixed-layout binary format (file header, block
//! headers, 16-bit cell words) from an in-memory byte buffer, assembles the
//! decoded 40x40 secondary-mesh tiles into a two-level map keyed by primary
//! and secondary mesh code, and merges the 8x8 tiles of one primary mesh
//! into a contiguous 320x320 raster. File access, CSV serialization and
//! array export live outside this crate; it consumes and produces in-memory
//! values only.

pub mod block;
pub mod cell;
pub mod cursor;
pub mod decode;
pub mod errors;
pub mod header;
pub mod merge;
pub mod mesh;

pub use block::XrainBlockHeader;
pub use block::read_block_header;
pub use block::read_sequential_block;
pub use block::read_single_block;
pub use cell::XrainCell;
pub use cell::read_cell;
pub use cursor::ByteCursor;
pub use decode::MeshMap;
pub use decode::PrimaryCode;
pub use decode::SecondaryCode;
pub use decode::decode_xrain;
pub use decode::insert_tile;
pub use errors::MagicField;
pub use errors::XrainError;
pub use header::XrainHeader;
pub use header::decode_bcd;
pub use header::read_header;
pub use merge::Raster;
pub use merge::export_primary_mesh;
pub use merge::merge_primary_mesh;
pub use merge::merge_secondary_mesh_by_row;
pub use mesh::CellComposite;
pub use mesh::PrimaryMesh;
pub use mesh::SecondaryMesh;
