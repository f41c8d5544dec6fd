//! The smallest decoded unit: one 16-bit measurement word.

use vstd::prelude::*;

use crate::cursor::ByteCursor;
use crate::cursor::be16;
use crate::cursor::truncated;
use crate::errors::XrainError;

verus! {

/// One measurement: a quality flag and a rainfall strength.
///
/// Both come out of a single big-endian 16-bit word, so `quality` always
/// fits in 4 bits and `strength` in 12 bits.
#[derive(Debug, Clone, Copy, PartialEq, Eq, Structural)]
pub struct XrainCell {
    /// Quality-control information: the top 4 bits of the word.
    pub quality: u16,
    /// Rainfall strength: the bottom 12 bits of the word.
    pub strength: u16,
}

/// The quality field of a cell word: its top 4 bits.
pub open spec fn quality_of(w: u16) -> u16 {
    w >> 12
}

/// The strength field of a cell word: its bottom 12 bits.
pub open spec fn strength_of(w: u16) -> u16 {
    w & 0x0fff
}

/// The cell encoded by one 16-bit word.
pub open spec fn cell_of_word(w: u16) -> XrainCell {
    XrainCell { quality: quality_of(w), strength: strength_of(w) }
}

/// The cell stored at byte offset `off` of the buffer.
pub open spec fn cell_at(buf: Seq<u8>, off: int) -> XrainCell {
    cell_of_word(be16(buf[off], buf[off + 1]))
}

/// A cell with no measured rainfall and no quality flags.
pub open spec fn zero_cell() -> XrainCell {
    XrainCell { quality: 0, strength: 0 }
}

/// Splitting a word into a cell loses nothing: the quality stays below 16,
/// the strength below 4096, and packing the two fields back together
/// restores the original word.
pub proof fn lemma_cell_round_trip(w: u16)
    ensures
        quality_of(w) < 16,
        strength_of(w) < 4096,
        ((quality_of(w) << 12) | strength_of(w)) == w,
{
    assert((w >> 12) < 16 && (w & 0x0fff) < 4096 && (((w >> 12) << 12) | (w & 0x0fff)) == w)
        by (bit_vector);
}

/// Decodes the next cell: one big-endian 16-bit word split by bit masks.
pub fn read_cell(cur: &mut ByteCursor) -> (r: Result<XrainCell, XrainError>)
    requires
        old(cur).wf(),
    ensures
        final(cur).wf(),
        final(cur).bytes() == old(cur).bytes(),
        match r {
            Ok(c) => {
                &&& old(cur).remaining_spec() >= 2
                &&& c == cell_at(old(cur).bytes(), old(cur).position())
                &&& final(cur).position() == old(cur).position() + 2
            },
            Err(e) => {
                &&& old(cur).remaining_spec() < 2
                &&& e == truncated(2, old(cur).remaining_spec())
                &&& *final(cur) == *old(cur)
            },
        },
{
    let word = cur.read_u16_be()?;
    let quality = word >> 12;
    let strength = word & 0x0fff;
    Ok(XrainCell { quality, strength })
}

} // verus!
