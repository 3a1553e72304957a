//! Little- and big-endian integer reads over byte slices, and the CRC-32 of
//! a byte slice.
use vstd::prelude::*;

use crate::image_decoder::spec_png_crc32;

verus! {

/// Little-endian 16-bit value at `p`.
pub open spec fn spec_u16_le(s: Seq<u8>, p: int) -> int {
    s[p] as int + (s[p + 1] as int) * 256
}

/// Big-endian 16-bit value at `p`.
pub open spec fn spec_u16_be(s: Seq<u8>, p: int) -> int {
    (s[p] as int) * 256 + s[p + 1] as int
}

/// Little-endian 32-bit value at `p`.
pub open spec fn spec_u32_le(s: Seq<u8>, p: int) -> int {
    s[p] as int + (s[p + 1] as int) * 0x100 + (s[p + 2] as int) * 0x1_0000 + (s[p + 3] as int)
        * 0x100_0000
}

/// Big-endian 32-bit value at `p`.
pub open spec fn spec_u32_be(s: Seq<u8>, p: int) -> int {
    (s[p] as int) * 0x100_0000 + (s[p + 1] as int) * 0x1_0000 + (s[p + 2] as int) * 0x100 + s[p
        + 3] as int
}

/// Read a little-endian `u16`.
pub fn read_u16_le(data: &[u8], pos: usize) -> (res: u16)
    requires
        pos + 2 <= data@.len(),
    ensures
        res as int == spec_u16_le(data@, pos as int),
{
    (data[pos] as u16) + (data[pos + 1] as u16) * 256
}

/// Read a big-endian `u16`.
pub fn read_u16_be(data: &[u8], pos: usize) -> (res: u16)
    requires
        pos + 2 <= data@.len(),
    ensures
        res as int == spec_u16_be(data@, pos as int),
{
    (data[pos] as u16) * 256 + (data[pos + 1] as u16)
}

/// Read a little-endian `u32`.
pub fn read_u32_le(data: &[u8], pos: usize) -> (res: u32)
    requires
        pos + 4 <= data@.len(),
    ensures
        res as int == spec_u32_le(data@, pos as int),
{
    (data[pos] as u32) + (data[pos + 1] as u32) * 0x100 + (data[pos + 2] as u32) * 0x1_0000 + (
    data[pos + 3] as u32) * 0x100_0000
}

/// Read a big-endian `u32`.
pub fn read_u32_be(data: &[u8], pos: usize) -> (res: u32)
    requires
        pos + 4 <= data@.len(),
    ensures
        res as int == spec_u32_be(data@, pos as int),
{
    (data[pos] as u32) * 0x100_0000 + (data[pos + 1] as u32) * 0x1_0000 + (data[pos + 2] as u32)
        * 0x100 + (data[pos + 3] as u32)
}

/// The CRC-32 (IEEE 802.3, reflected polynomial 0xEDB88320, initial value
/// and final mask all ones) of the bytes: the checksum that
/// `crc32fast::hash` computes and that PNG chunks carry.
pub open spec fn spec_crc32(data: Seq<u8>) -> u32 {
    spec_png_crc32(data)
}

/// CRC-32 of a byte slice, computed by `crc32fast::hash`, which implements
/// the standard CRC-32 (`spec_crc32`).
#[verifier::external_body]
pub fn crc32_hash(data: &[u8]) -> (res: u32)
    ensures
        res == spec_crc32(data@),
{
    crc32fast::hash(data)
}

} // verus!
