//! The fixed-layout file preamble: 64 bytes of magic fields, counts and
//! bounding mesh codes.

use vstd::prelude::*;

use crate::cursor::ByteCursor;
use crate::cursor::be16;
use crate::cursor::be32;
use crate::cursor::truncated;
use crate::errors::MagicField;
use crate::errors::XrainError;

verus! {

/// The decoded file header.
///
/// The observation timestamp is kept as its raw 16 bytes; no semantic
/// decoding of it is attempted.
#[derive(Debug, Clone)]
pub struct XrainHeader {
    /// Owner (regional office) identification byte.
    pub owner: u8,
    /// The third data-type field, two bytes wide.
    pub mesh_kind: u16,
    /// Observation timestamp, stored raw and undecoded.
    pub timestamp: Vec<u8>,
    /// Response status byte.
    pub response_status: u8,
    /// How many block records follow the header.
    pub block_num: u16,
    /// Declared data size in bytes.
    pub data_size: u32,
    /// Bounding box, south-west corner: two-digit latitude code.
    pub bottom_left_lat: u8,
    /// Bounding box, south-west corner: two-digit longitude code.
    pub bottom_left_lon: u8,
    /// Bounding box, north-east corner: two-digit latitude code.
    pub top_right_lat: u8,
    /// Bounding box, north-east corner: two-digit longitude code.
    pub top_right_lon: u8,
}

impl Default for XrainHeader {
    /// An all-zero header under the default owner code 71.
    fn default() -> (d: Self)
        ensures
            d.owner == 71,
            d.mesh_kind == 0,
            d.timestamp@ == Seq::<u8>::empty(),
            d.response_status == 0,
            d.block_num == 0,
            d.data_size == 0,
            d.bottom_left_lat == 0,
            d.bottom_left_lon == 0,
            d.top_right_lat == 0,
            d.top_right_lon == 0,
    {
        XrainHeader {
            owner: 71,
            mesh_kind: 0,
            timestamp: Vec::new(),
            response_status: 0,
            block_num: 0,
            data_size: 0,
            bottom_left_lat: 0,
            bottom_left_lon: 0,
            top_right_lat: 0,
            top_right_lon: 0,
        }
    }
}

/// The two-digit decimal code stored in one BCD nibble pair:
/// ten times the high nibble plus the low nibble.
pub open spec fn bcd(b: u8) -> u8 {
    ((b >> 4) * 10 + (b & 0x0f)) as u8
}

/// Shorthand for the error raised when a fixed field holds the wrong value.
pub open spec fn invalid_magic(field: MagicField, expected: u8, actual: u8) -> XrainError {
    XrainError::InvalidMagic { field, expected, actual }
}

/// Decodes one BCD nibble pair into its two-digit decimal code.
pub fn decode_bcd(b: u8) -> (r: u8)
    ensures
        r == bcd(b),
{
    proof {
        assert((b >> 4) < 16 && (b & 0x0f) < 16) by (bit_vector);
    }
    let high = b >> 4;
    let low = b & 0x0f;
    high * 10 + low
}

/// The block count declared at bytes 42..44 of the header.
pub open spec fn block_count_of(buf: Seq<u8>) -> u16 {
    be16(buf[42], buf[43])
}

/// The data size declared at bytes 44..48 of the header.
pub open spec fn data_size_of(buf: Seq<u8>) -> u32 {
    be32(buf[44], buf[45], buf[46], buf[47])
}

/// A buffer whose first 64 bytes form a valid file header: long enough,
/// with every fixed field holding its required value.
pub open spec fn header_ok(buf: Seq<u8>) -> bool {
    &&& buf.len() >= 64
    &&& buf[0] == 0xfd
    &&& buf[2] == 0x80
    &&& buf[3] == 0x01
    &&& buf[6] == 0x01
    &&& buf[7] == 0x05
    &&& buf[62] == 0x00
    &&& buf[63] == 0x00
}

/// The exact failure that reading the header reports, or `None` when the
/// header is valid.
///
/// Fields are consumed front to back, each value check coming right after
/// the bytes that hold it, so the first fault in stream order wins.
pub open spec fn header_error(buf: Seq<u8>) -> Option<XrainError> {
    let n = buf.len() as int;
    if n < 1 {
        Some(truncated(1, n))
    } else if buf[0] != 0xfd {
        Some(invalid_magic(MagicField::FormatTag, 0xfd, buf[0]))
    } else if n < 2 {
        Some(truncated(1, 0))
    } else if n < 3 {
        Some(truncated(1, 0))
    } else if buf[2] != 0x80 {
        Some(invalid_magic(MagicField::DataType1, 0x80, buf[2]))
    } else if n < 4 {
        Some(truncated(1, 0))
    } else if buf[3] != 0x01 {
        Some(invalid_magic(MagicField::DataType2, 0x01, buf[3]))
    } else if n < 6 {
        Some(truncated(2, n - 4))
    } else if n < 7 {
        Some(truncated(1, 0))
    } else if buf[6] != 0x01 {
        Some(invalid_magic(MagicField::HeaderType, 0x01, buf[6]))
    } else if n < 8 {
        Some(truncated(1, 0))
    } else if buf[7] != 0x05 {
        Some(invalid_magic(MagicField::ObsIdentifier, 0x05, buf[7]))
    } else if n < 24 {
        Some(truncated(16, n - 8))
    } else if n < 40 {
        Some(truncated(16, n - 24))
    } else if n < 41 {
        Some(truncated(1, 0))
    } else if n < 42 {
        Some(truncated(1, 0))
    } else if n < 44 {
        Some(truncated(2, n - 42))
    } else if n < 48 {
        Some(truncated(4, n - 44))
    } else if n < 49 {
        Some(truncated(1, 0))
    } else if n < 50 {
        Some(truncated(1, 0))
    } else if n < 51 {
        Some(truncated(1, 0))
    } else if n < 52 {
        Some(truncated(1, 0))
    } else if n < 62 {
        Some(truncated(10, n - 52))
    } else if n < 63 {
        Some(truncated(1, 0))
    } else if buf[62] != 0x00 {
        Some(invalid_magic(MagicField::Trailer, 0x00, buf[62]))
    } else if n < 64 {
        Some(truncated(1, 0))
    } else if buf[63] != 0x00 {
        Some(invalid_magic(MagicField::Trailer, 0x00, buf[63]))
    } else {
        None
    }
}

/// Reading the header succeeds exactly on the buffers that `header_ok`
/// accepts.
pub proof fn lemma_header_ok_iff(buf: Seq<u8>)
    ensures
        header_error(buf) is None <==> header_ok(buf),
{
}

/// Decodes the 64-byte file preamble and leaves the cursor at the first
/// block record.
///
/// The magic fields are checked in stream order and a mismatch is reported
/// as a recoverable `InvalidMagic` error; a buffer that ends inside the
/// header is reported as `Truncated`.
pub fn read_header(cur: &mut ByteCursor) -> (r: Result<XrainHeader, XrainError>)
    requires
        old(cur).wf(),
        old(cur).position() == 0,
    ensures
        final(cur).wf(),
        final(cur).bytes() == old(cur).bytes(),
        match r {
            Ok(h) => {
                let buf = old(cur).bytes();
                &&& header_error(buf) is None
                &&& final(cur).position() == 64
                &&& h.owner == buf[1]
                &&& h.mesh_kind == be16(buf[4], buf[5])
                &&& h.timestamp@ == buf.subrange(8, 24)
                &&& h.response_status == buf[41]
                &&& h.block_num == block_count_of(buf)
                &&& h.data_size == data_size_of(buf)
                &&& h.bottom_left_lat == bcd(buf[48])
                &&& h.bottom_left_lon == bcd(buf[49])
                &&& h.top_right_lat == bcd(buf[50])
                &&& h.top_right_lon == bcd(buf[51])
            },
            Err(e) => header_error(old(cur).bytes()) == Some(e),
        },
{
    let magic = cur.read_u8()?;
    if magic != 0xfd {
        return Err(XrainError::InvalidMagic {
            field: MagicField::FormatTag,
            expected: 0xfd,
            actual: magic,
        });
    }
    let owner = cur.read_u8()?;
    let data_type_1 = cur.read_u8()?;
    if data_type_1 != 0x80 {
        return Err(XrainError::InvalidMagic {
            field: MagicField::DataType1,
            expected: 0x80,
            actual: data_type_1,
        });
    }
    let data_type_2 = cur.read_u8()?;
    if data_type_2 != 0x01 {
        return Err(XrainError::InvalidMagic {
            field: MagicField::DataType2,
            expected: 0x01,
            actual: data_type_2,
        });
    }
    let mesh_kind = cur.read_u16_be()?;
    let header_type = cur.read_u8()?;
    if header_type != 0x01 {
        return Err(XrainError::InvalidMagic {
            field: MagicField::HeaderType,
            expected: 0x01,
            actual: header_type,
        });
    }
    let obs_identifier = cur.read_u8()?;
    if obs_identifier != 0x05 {
        return Err(XrainError::InvalidMagic {
            field: MagicField::ObsIdentifier,
            expected: 0x05,
            actual: obs_identifier,
        });
    }
    let timestamp = cur.take(16)?;
    cur.skip(16)?;
    let _device_no = cur.read_u8()?;
    let response_status = cur.read_u8()?;
    let block_num = cur.read_u16_be()?;
    let data_size = cur.read_u32_be()?;
    let bottom_left_lat = decode_bcd(cur.read_u8()?);
    let bottom_left_lon = decode_bcd(cur.read_u8()?);
    let top_right_lat = decode_bcd(cur.read_u8()?);
    let top_right_lon = decode_bcd(cur.read_u8()?);
    cur.skip(10)?;
    let trailer_0 = cur.read_u8()?;
    if trailer_0 != 0x00 {
        return Err(XrainError::InvalidMagic {
            field: MagicField::Trailer,
            expected: 0x00,
            actual: trailer_0,
        });
    }
    let trailer_1 = cur.read_u8()?;
    if trailer_1 != 0x00 {
        return Err(XrainError::InvalidMagic {
            field: MagicField::Trailer,
            expected: 0x00,
            actual: trailer_1,
        });
    }
    Ok(XrainHeader {
        owner,
        mesh_kind,
        timestamp,
        response_status,
        block_num,
        data_size,
        bottom_left_lat,
        bottom_left_lon,
        top_right_lat,
        top_right_lon,
    })
}

} // verus!
