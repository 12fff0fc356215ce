//! Parsing of Binary Terrain (`.bt`) version 1.3 files, from raw bytes.
//!
//! The format is little-endian: a 256-byte header — a ten-byte magic
//! string, the raster's dimensions and sample layout, the geographic
//! extents — followed by the elevation samples, two-byte integers or
//! four-byte floats.  The caller reads the file into memory and hands
//! the bytes here; values that only floating point can interpret (the
//! extents, the vertical scale, float samples) are returned as their raw
//! bit patterns for the caller to widen.

use vstd::prelude::*;

verus! {

/// A little-endian 16-bit read.
pub open spec fn le_u16(b: Seq<u8>, off: int) -> int {
    b[off] + 0x100 * b[off + 1]
}

/// A little-endian 32-bit read.
pub open spec fn le_u32(b: Seq<u8>, off: int) -> int {
    le_u16(b, off) + 0x1_0000 * le_u16(b, off + 2)
}

/// A little-endian 64-bit read.
pub open spec fn le_u64(b: Seq<u8>, off: int) -> int {
    le_u32(b, off) + 0x1_0000_0000 * le_u32(b, off + 4)
}

/// A little-endian 16-bit read, reinterpreted as a signed sample.
pub open spec fn le_i16(b: Seq<u8>, off: int) -> int {
    if le_u16(b, off) < 0x8000 {
        le_u16(b, off)
    } else {
        le_u16(b, off) - 0x1_0000
    }
}

/// Convert raw bytes to `u16`.
fn read_u16_le(bytes: &Vec<u8>, off: usize) -> (r: u16)
    requires
        off + 2 <= bytes@.len(),
        bytes@.len() <= usize::MAX,
    ensures
        r == le_u16(bytes@, off as int),
{
    let low = bytes[off];
    let high = bytes[off + 1];
    low as u16 + 0x100 * (high as u16)
}

/// Convert raw bytes to `u32`.
fn read_u32_le(bytes: &Vec<u8>, off: usize) -> (r: u32)
    requires
        off + 4 <= bytes@.len(),
        bytes@.len() <= usize::MAX,
    ensures
        r == le_u32(bytes@, off as int),
{
    let low = read_u16_le(bytes, off);
    let high = read_u16_le(bytes, off + 2);
    low as u32 + 0x1_0000 * (high as u32)
}

/// Convert raw bytes to the bit pattern of a 32-bit float.
fn read_f32_le(bytes: &Vec<u8>, off: usize) -> (r: u32)
    requires
        off + 4 <= bytes@.len(),
        bytes@.len() <= usize::MAX,
    ensures
        r == le_u32(bytes@, off as int),
{
    read_u32_le(bytes, off)
}

/// Convert raw bytes to the bit pattern of a 64-bit float.
fn read_f64_le(bytes: &Vec<u8>, off: usize) -> (r: u64)
    requires
        off + 8 <= bytes@.len(),
        bytes@.len() <= usize::MAX,
    ensures
        r == le_u64(bytes@, off as int),
{
    let low = read_u32_le(bytes, off);
    let high = read_u32_le(bytes, off + 4);
    low as u64 + 0x1_0000_0000 * (high as u64)
}

/// Whether the bytes open with the `.bt` version 1.3 magic string,
/// `binterr1.3`.
pub open spec fn magic_ok(b: Seq<u8>) -> bool {
    &&& b.len() >= 10
    &&& b[0] == 98
    &&& b[1] == 105
    &&& b[2] == 110
    &&& b[3] == 116
    &&& b[4] == 101
    &&& b[5] == 114
    &&& b[6] == 114
    &&& b[7] == 49
    &&& b[8] == 46
    &&& b[9] == 51
}

/// The `.bt` file header.  The extents and the vertical scale are floats
/// in the file; they are carried as raw bit patterns.
#[derive(Debug)]
pub struct Header {
    /// Width of DEM raster.
    pub width: u32,
    /// Height of DEM raster.
    pub height: u32,
    /// Bytes per elevation grid point, either 2 or 4.
    pub data_size: u16,
    /// Is the data floating point or not?
    pub is_float: bool,
    /// Units of the distance between points.
    pub horizontal_units: u16,
    /// Indicates the UTM zone (1-60) if the file is in UTM.
    pub utm_zone: u16,
    /// Indicates the Datum, as an EPSG Geodetic Datum Code.
    pub datum: u16,
    /// The left-most extent, as 64-bit float bits.
    pub left_bits: u64,
    /// The right-most extent, as 64-bit float bits.
    pub right_bits: u64,
    /// The bottom extent, as 64-bit float bits.
    pub bottom_bits: u64,
    /// The top extent, as 64-bit float bits.
    pub top_bits: u64,
    /// Where to find the projection information.
    pub projection_source: u16,
    /// Vertical units in meters, as 32-bit float bits.
    pub vertical_scale_bits: u32,
}

/// DEM data is allowed to be in integers or floats; float samples stay
/// as raw bit patterns.
#[derive(Debug)]
pub enum DataType {
    /// Integer data.
    Int16(Vec<i16>),
    /// Float data, one bit pattern per sample.
    Float32(Vec<u32>),
}

/// The `.bt` format layout.
#[derive(Debug)]
pub struct BinaryTerrain {
    /// The header meta data.
    pub header: Header,
    /// The DEM data itself.
    pub data: DataType,
}

/// Whether a byte buffer is a whole, well-formed `.bt` file this parser
/// accepts: the magic and full header are present, the sample type is
/// one it knows, the sample count has no overflow, and every sample is
/// in the buffer.
pub open spec fn terrain_parseable(b: Seq<u8>) -> bool {
    &&& b.len() >= 66
    &&& magic_ok(b)
    &&& le_u32(b, 10) * le_u32(b, 14) <= 0xFFFF_FFFF
    &&& (le_u16(b, 20) != 0 || le_u16(b, 18) == 2)
    &&& b.len() >= 256 + le_u32(b, 10) * le_u32(b, 14) * (if le_u16(b, 20) != 0 {
        4int
    } else {
        2int
    })
}

impl BinaryTerrain {
    /// Parse a whole `.bt` file from its bytes.
    pub fn read(bytes: &Vec<u8>) -> (r: Result<Self, crate::Error>)
        ensures
            r is Ok <==> terrain_parseable(bytes@),
            r matches Ok(terrain) ==> {
                let b = bytes@;
                let count = le_u32(b, 10) * le_u32(b, 14);
                &&& terrain.header.width == le_u32(b, 10)
                &&& terrain.header.height == le_u32(b, 14)
                &&& terrain.header.data_size == le_u16(b, 18)
                &&& terrain.header.is_float == (le_u16(b, 20) != 0)
                &&& terrain.header.horizontal_units == le_u16(b, 22)
                &&& terrain.header.utm_zone == le_u16(b, 24)
                &&& terrain.header.datum == le_u16(b, 26)
                &&& terrain.header.left_bits == le_u64(b, 28)
                &&& terrain.header.right_bits == le_u64(b, 36)
                &&& terrain.header.bottom_bits == le_u64(b, 44)
                &&& terrain.header.top_bits == le_u64(b, 52)
                &&& terrain.header.projection_source == le_u16(b, 60)
                &&& terrain.header.vertical_scale_bits == le_u32(b, 62)
                &&& (terrain.header.is_float ==> (terrain.data matches DataType::Float32(values)
                    && values@.len() == count && (forall|k: int|
                    0 <= k < count ==> values@[k] == le_u32(b, 256 + 4 * k))))
                &&& (!terrain.header.is_float ==> (terrain.data matches DataType::Int16(values)
                    && values@.len() == count && (forall|k: int|
                    0 <= k < count ==> values@[k] == le_i16(b, 256 + 2 * k))))
            },
    {
        if bytes.len() < 66 {
            return Err(crate::Error::TerrainInvalid);
        }
        if !(bytes[0] == 98 && bytes[1] == 105 && bytes[2] == 110 && bytes[3] == 116 && bytes[4]
            == 101 && bytes[5] == 114 && bytes[6] == 114 && bytes[7] == 49 && bytes[8] == 46
            && bytes[9] == 51) {
            return Err(crate::Error::TerrainInvalid);
        }

        let width = read_u32_le(bytes, 10);
        let height = read_u32_le(bytes, 14);
        let data_size = read_u16_le(bytes, 18);
        let is_float = read_u16_le(bytes, 20) != 0;
        let horizontal_units = read_u16_le(bytes, 22);
        let utm_zone = read_u16_le(bytes, 24);
        let datum = read_u16_le(bytes, 26);
        let left_bits = read_f64_le(bytes, 28);
        let right_bits = read_f64_le(bytes, 36);
        let bottom_bits = read_f64_le(bytes, 44);
        let top_bits = read_f64_le(bytes, 52);
        let projection_source = read_u16_le(bytes, 60);
        let vertical_scale_bits = read_f32_le(bytes, 62);

        proof {
            assert((width as u64) * (height as u64) <= 0xFFFF_FFFFu64 * 0xFFFF_FFFFu64)
                by (nonlinear_arith)
                requires
                    width <= 0xFFFF_FFFFu32,
                    height <= 0xFFFF_FFFFu32,
            ;
        }
        let count_wide = (width as u64) * (height as u64);
        proof {
            assert((width as u64) * (height as u64) == width as int * height as int)
                by (nonlinear_arith)
                requires
                    width <= 0xFFFF_FFFFu32,
                    height <= 0xFFFF_FFFFu32,
            ;
        }
        if count_wide > 0xFFFF_FFFF {
            return Err(crate::Error::TerrainInvalid);
        }
        if !is_float && data_size != 2 {
            return Err(crate::Error::TerrainInvalid);
        }
        let count = count_wide as usize;
        let sample_bytes: usize = if is_float {
            4
        } else {
            2
        };
        let bytes_len = bytes.len();
        if bytes_len < 256 {
            proof {
                assert(count * sample_bytes >= 0) by (nonlinear_arith)
                    requires
                        sample_bytes >= 1,
                        count >= 0,
                ;
            }
            return Err(crate::Error::TerrainInvalid);
        }
        if count > (bytes_len - 256) / sample_bytes {
            proof {
                assert(count * sample_bytes > bytes_len - 256) by (nonlinear_arith)
                    requires
                        sample_bytes >= 1,
                        count > (bytes_len - 256) / (sample_bytes as int),
                        bytes_len >= 256,
                ;
            }
            return Err(crate::Error::TerrainInvalid);
        }
        proof {
            assert(count * sample_bytes <= bytes_len - 256) by (nonlinear_arith)
                requires
                    sample_bytes >= 1,
                    count <= (bytes_len - 256) / (sample_bytes as int),
                    bytes_len >= 256,
            ;
        }

        let header = Header {
            width,
            height,
            data_size,
            is_float,
            horizontal_units,
            utm_zone,
            datum,
            left_bits,
            right_bits,
            bottom_bits,
            top_bits,
            projection_source,
            vertical_scale_bits,
        };

        let data = if is_float {
            let mut values: Vec<u32> = Vec::new();
            let mut k: usize = 0;
            while k < count
                invariant
                    k <= count,
                    256 + count * 4 <= bytes@.len(),
                    bytes@.len() <= usize::MAX,
                    values@.len() == k,
                    forall|j: int| 0 <= j < k ==> values@[j] == le_u32(bytes@, 256 + 4 * j),
                decreases count - k,
            {
                values.push(read_f32_le(bytes, 256 + 4 * k));
                k = k + 1;
            }
            DataType::Float32(values)
        } else {
            let mut values: Vec<i16> = Vec::new();
            let mut k: usize = 0;
            while k < count
                invariant
                    k <= count,
                    256 + count * 2 <= bytes@.len(),
                    bytes@.len() <= usize::MAX,
                    values@.len() == k,
                    forall|j: int| 0 <= j < k ==> values@[j] == le_i16(bytes@, 256 + 2 * j),
                decreases count - k,
            {
                let raw = read_u16_le(bytes, 256 + 2 * k);
                let sample: i16 = if raw < 0x8000 {
                    raw as i16
                } else {
                    proof {
                        assert(raw - 0x8000 <= 0x7FFF);
                    }
                    -1 - ((0xFFFF - raw) as i16)
                };
                values.push(sample);
                k = k + 1;
            }
            DataType::Int16(values)
        };

        Ok(Self { header, data })
    }
}

} // verus!
