//! Decode failures for the XRAIN byte format.

use vstd::prelude::*;

verus! {

/// The fixed fields of the file header that carry a required value.
#[derive(Debug, Clone, Copy, PartialEq, Eq, Structural)]
pub enum MagicField {
    /// Byte 0 of the file, always 0xFD.
    FormatTag,
    /// First data-type byte, always 0x80.
    DataType1,
    /// Second data-type byte, always 0x01 for composite radar rainfall.
    DataType2,
    /// Header-type byte, always 0x01.
    HeaderType,
    /// Observation-identifier byte, always 0x05.
    ObsIdentifier,
    /// Either byte of the two-byte trailer that closes the header, always 0x00.
    Trailer,
}

/// Everything that can go wrong while decoding a buffer.
///
/// Decoding never panics: each failure is reported through one of these
/// variants so the caller can attribute it to the field at fault.
#[derive(Debug, Clone, Copy, PartialEq, Eq, Structural)]
pub enum XrainError {
    /// The buffer ended before a required field: `needed` more bytes were
    /// requested while only `available` remained.
    Truncated { needed: usize, available: usize },
    /// A fixed field did not hold its required value.
    InvalidMagic { field: MagicField, expected: u8, actual: u8 },
    /// A block declared a run length of zero although the file's block count
    /// promised tile data for it.
    EmptyBlock,
    /// A tile handed to the merger did not hold exactly 1600 cells.
    ShapeMismatch,
}

} // verus!
