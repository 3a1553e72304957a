//! The executable image header at the beginning of a CBE file.
//!
//! Layout: five 12-byte header records, each starting with eight 0xFE bytes,
//! holding big-endian fields (preferred code address at 8, code image size at
//! 20, preferred data address at 32, data image size at 44, variable header
//! size at 56); a variable header; six 12-byte segment records (code size and
//! checksum, initialized data size and checksum, embedded package size and
//! checksum); then the code, initialized data and embedded package segments,
//! each after a run of at least eight 0xFE bytes; then a marker, the
//! big-endian resource package length, another marker, and the resource
//! package.
use vstd::prelude::*;

use crate::bytes::{read_u32_be, read_u32_le, spec_u32_be, spec_u32_le};

verus! {

/// Default load address of code without a preferred address.
pub const ROM_BASE: u32 = 0x0100_0000;

/// The parts of the executable image.
#[derive(Debug, Clone, Copy, PartialEq, Eq, Structural)]
pub enum SegmentKind {
    Code,
    InitializedData,
    EmbeddedPackage,
    ResourcePackageLength,
    ResourcePackage,
}

/// Why an executable header was rejected.
#[derive(Debug, Clone, Copy, PartialEq, Eq, Structural)]
pub enum ExecutableError {
    /// The file is shorter than the fixed header.
    HeaderTruncated,
    /// A header record at the given offset lacks its 0xFE marker.
    InvalidHeaderMarker(usize),
    /// A segment record at the given offset lacks its 0xFE marker.
    InvalidSegmentMarker(usize),
    /// A header field at the given offset runs past the end of the file.
    FieldTruncated(usize),
    /// The segment header offset does not fit in memory.
    HeaderOffsetOverflow,
    /// No run of at least eight 0xFE bytes at the given offset.
    MissingSeparator(usize),
    /// No candidate position of a segment matches its checksum.
    ChecksumMismatch(SegmentKind),
    /// A segment extends beyond the end of the file.
    SegmentBeyondFile(SegmentKind),
    /// A segment's end does not fit in memory.
    RangeOverflow(SegmentKind),
}

/// Executable image metadata stored at the beginning of a CBE file.
#[derive(Debug, Clone, Copy, PartialEq, Eq, Structural)]
pub struct CbeExecutable {
    pub preferred_code_address: u32,
    pub code_image_size: u32,
    pub preferred_data_address: u32,
    pub data_image_size: u32,
    pub code_offset: usize,
    pub code_size: usize,
    pub data_offset: usize,
    pub initialized_data_size: usize,
    pub embedded_package_offset: usize,
    pub embedded_package_size: usize,
    pub resource_package_offset: usize,
    pub resource_package_size: usize,
    pub big_endian: bool,
}

/// `x` reduced to 32 bits, for sums of two 32-bit values.
pub open spec fn wrap32(x: int) -> u32 {
    if x > u32::MAX {
        (x - 0x1_0000_0000) as u32
    } else {
        x as u32
    }
}

/// Wrapping sum of the first `k` little-endian words.
pub open spec fn spec_words_le(data: Seq<u8>, k: int) -> u32
    decreases k,
{
    if k <= 0 {
        0
    } else {
        wrap32(spec_words_le(data, k - 1) + spec_u32_le(data, 4 * (k - 1)))
    }
}

/// Wrapping sum of the first `k` big-endian words.
pub open spec fn spec_words_be(data: Seq<u8>, k: int) -> u32
    decreases k,
{
    if k <= 0 {
        0
    } else {
        wrap32(spec_words_be(data, k - 1) + spec_u32_be(data, 4 * (k - 1)))
    }
}

/// Wrapping sum of all complete little-endian words; trailing bytes are
/// ignored.
pub open spec fn spec_checksum_le(data: Seq<u8>) -> u32 {
    spec_words_le(data, (data.len() / 4) as int)
}

/// Wrapping sum of all complete big-endian words; trailing bytes are ignored.
pub open spec fn spec_checksum_be(data: Seq<u8>) -> u32 {
    spec_words_be(data, (data.len() / 4) as int)
}

/// Position of the first byte at or after `start` that is not 0xFE (or the
/// end of the data).
pub open spec fn spec_fe_run_end(data: Seq<u8>, start: int) -> int
    decreases data.len() - start,
{
    if 0 <= start < data.len() && data[start] == 0xFE {
        spec_fe_run_end(data, start + 1)
    } else {
        start
    }
}

/// Whether the segment of `size` bytes at `offset` exists and matches the
/// checksum in the given byte order (`None`: little-endian first, then
/// big-endian); the byte order that matched.
pub open spec fn spec_segment_matches(
    data: Seq<u8>,
    offset: int,
    size: int,
    expected: u32,
    mode: Option<bool>,
) -> Option<bool> {
    if offset + size > data.len() {
        None
    } else {
        let segment = data.subrange(offset, offset + size);
        match mode {
            Some(true) => if spec_checksum_be(segment) == expected {
                Some(true)
            } else {
                None
            },
            Some(false) => if spec_checksum_le(segment) == expected {
                Some(false)
            } else {
                None
            },
            None => if spec_checksum_le(segment) == expected {
                Some(false)
            } else if spec_checksum_be(segment) == expected {
                Some(true)
            } else {
                None
            },
        }
    }
}

/// The first separator length in `s..=hi` after which the segment matches.
pub open spec fn spec_first_candidate(
    data: Seq<u8>,
    start: int,
    size: int,
    expected: u32,
    mode: Option<bool>,
    s: int,
    hi: int,
) -> Option<(int, bool)>
    decreases hi - s + 1,
{
    if s > hi {
        None
    } else {
        match spec_segment_matches(data, start + s, size, expected, mode) {
            Some(b) => Some((start + s, b)),
            None => spec_first_candidate(data, start, size, expected, mode, s + 1, hi),
        }
    }
}

/// Locate a segment after the 0xFE separator at `start`: the separator is at
/// least eight bytes long; a non-empty segment may begin after any separator
/// length from 8 up to the whole run (the shortest match wins), an empty one
/// only after the whole run.
pub open spec fn spec_locate(
    data: Seq<u8>,
    start: int,
    size: int,
    expected: u32,
    mode: Option<bool>,
    kind: SegmentKind,
) -> Result<(int, bool), ExecutableError> {
    let sep_len = spec_fe_run_end(data, start) - start;
    if sep_len < 8 {
        Err(ExecutableError::MissingSeparator(start as usize))
    } else {
        let lo = if size == 0 {
            sep_len
        } else {
            8
        };
        match spec_first_candidate(data, start, size, expected, mode, lo, sep_len) {
            Some(r) => Ok(r),
            None => Err(ExecutableError::ChecksumMismatch(kind)),
        }
    }
}

/// The end of a range of `size` bytes at `cursor` inside a file of `len`
/// bytes.
pub open spec fn spec_advance(cursor: int, size: int, len: int, kind: SegmentKind) -> Result<
    int,
    ExecutableError,
> {
    if cursor + size > usize::MAX {
        Err(ExecutableError::RangeOverflow(kind))
    } else if cursor + size > len {
        Err(ExecutableError::SegmentBeyondFile(kind))
    } else {
        Ok(cursor + size)
    }
}

/// The position after a run of at least eight 0xFE bytes at `cursor`.
pub open spec fn spec_skip_marker(data: Seq<u8>, cursor: int) -> Result<int, ExecutableError> {
    let end = spec_fe_run_end(data, cursor);
    if end - cursor < 8 {
        Err(ExecutableError::MissingSeparator(cursor as usize))
    } else {
        Ok(end)
    }
}

/// Eight 0xFE bytes at `off`, inside the data.
pub open spec fn spec_marker_ok(data: Seq<u8>, off: int) -> bool {
    off + 8 <= data.len() && forall|k: int| 0 <= k < 8 ==> #[trigger] data[off + k] == 0xFE
}

/// Offset of the first record among `count` records of 12 bytes from `base`
/// (starting with record `i`) that lacks its marker.
pub open spec fn spec_first_bad_marker(data: Seq<u8>, base: int, i: int, count: int) -> Option<int>
    decreases count - i,
{
    if i >= count {
        None
    } else if !spec_marker_ok(data, base + 12 * i) {
        Some(base + 12 * i)
    } else {
        spec_first_bad_marker(data, base, i + 1, count)
    }
}

/// The big-endian field at `offset`, or the truncation error.
pub open spec fn spec_field(data: Seq<u8>, offset: int) -> Result<u32, ExecutableError> {
    if offset + 4 > data.len() {
        Err(ExecutableError::FieldTruncated(offset as usize))
    } else {
        Ok(spec_u32_be(data, offset) as u32)
    }
}

/// The segment sizes and checksums read from the segment records at `sh`.
pub open spec fn spec_segment_fields(data: Seq<u8>, sh: int) -> Result<Seq<u32>, ExecutableError> {
    if sh + 8 + 4 > data.len() {
        Err(ExecutableError::FieldTruncated((sh + 8) as usize))
    } else if sh + 20 + 4 > data.len() {
        Err(ExecutableError::FieldTruncated((sh + 20) as usize))
    } else if sh + 32 + 4 > data.len() {
        Err(ExecutableError::FieldTruncated((sh + 32) as usize))
    } else if sh + 44 + 4 > data.len() {
        Err(ExecutableError::FieldTruncated((sh + 44) as usize))
    } else if sh + 56 + 4 > data.len() {
        Err(ExecutableError::FieldTruncated((sh + 56) as usize))
    } else if sh + 68 + 4 > data.len() {
        Err(ExecutableError::FieldTruncated((sh + 68) as usize))
    } else {
        Ok(
            seq![
                spec_u32_be(data, sh + 8) as u32,
                spec_u32_be(data, sh + 20) as u32,
                spec_u32_be(data, sh + 32) as u32,
                spec_u32_be(data, sh + 44) as u32,
                spec_u32_be(data, sh + 56) as u32,
                spec_u32_be(data, sh + 68) as u32,
            ],
        )
    }
}

/// The three checked segments located one after another from `cursor`:
/// code (byte order found from its checksum), initialized data and embedded
/// package (checked in the code's byte order). Returns the three offsets, the
/// byte order and the cursor after the embedded package.
pub open spec fn spec_segments(data: Seq<u8>, cursor: int, f: Seq<u32>) -> Result<
    (int, int, int, bool, int),
    ExecutableError,
> {
    let len = data.len() as int;
    match spec_locate(data, cursor, f[0] as int, f[1], None, SegmentKind::Code) {
        Err(e) => Err(e),
        Ok((code_offset, big_endian)) => match spec_advance(code_offset, f[0] as int, len, SegmentKind::Code) {
            Err(e) => Err(e),
            Ok(c1) => match spec_locate(data, c1, f[2] as int, f[3], Some(big_endian), SegmentKind::InitializedData) {
                Err(e) => Err(e),
                Ok((data_offset, _)) => match spec_advance(data_offset, f[2] as int, len, SegmentKind::InitializedData) {
                    Err(e) => Err(e),
                    Ok(c2) => match spec_locate(data, c2, f[4] as int, f[5], Some(big_endian), SegmentKind::EmbeddedPackage) {
                        Err(e) => Err(e),
                        Ok((embedded_offset, _)) => match spec_advance(embedded_offset, f[4] as int, len, SegmentKind::EmbeddedPackage) {
                            Err(e) => Err(e),
                            Ok(c3) => Ok((code_offset, data_offset, embedded_offset, big_endian, c3)),
                        },
                    },
                },
            },
        },
    }
}

/// The resource package after the embedded package: a marker, its
/// big-endian length, another marker, then the package itself, which must
/// lie inside the file. Returns its offset and size.
pub open spec fn spec_resource_package(data: Seq<u8>, cursor: int) -> Result<(int, int), ExecutableError> {
    let len = data.len() as int;
    match spec_skip_marker(data, cursor) {
        Err(e) => Err(e),
        Ok(c1) => match spec_field(data, c1) {
            Err(e) => Err(e),
            Ok(size) => match spec_advance(c1, 4, len, SegmentKind::ResourcePackageLength) {
                Err(e) => Err(e),
                Ok(c2) => match spec_skip_marker(data, c2) {
                    Err(e) => Err(e),
                    Ok(offset) => match spec_advance(offset, size as int, len, SegmentKind::ResourcePackage) {
                        Err(e) => Err(e),
                        Ok(_) => Ok((offset, size as int)),
                    },
                },
            },
        },
    }
}

/// The executable header that `CbeExecutable::parse` accepts, or the first
/// reason it is rejected.
pub open spec fn spec_parse_executable(data: Seq<u8>) -> Result<CbeExecutable, ExecutableError> {
    if data.len() < 0x98 {
        Err(ExecutableError::HeaderTruncated)
    } else if let Some(off) = spec_first_bad_marker(data, 0, 0, 5) {
        Err(ExecutableError::InvalidHeaderMarker(off as usize))
    } else {
        let variable_header_size = spec_u32_be(data, 56);
        let sh = 68 + variable_header_size;
        if sh > usize::MAX {
            Err(ExecutableError::HeaderOffsetOverflow)
        } else if let Some(off) = spec_first_bad_marker(data, sh, 0, 6) {
            Err(ExecutableError::InvalidSegmentMarker(off as usize))
        } else {
            match spec_segment_fields(data, sh) {
                Err(e) => Err(e),
                Ok(f) => match spec_segments(data, sh + 72, f) {
                    Err(e) => Err(e),
                    Ok((code_offset, data_offset, embedded_offset, big_endian, c3)) => match spec_resource_package(data, c3) {
                        Err(e) => Err(e),
                        Ok((resource_offset, resource_size)) => Ok(
                            CbeExecutable {
                                preferred_code_address: spec_u32_be(data, 8) as u32,
                                code_image_size: spec_u32_be(data, 20) as u32,
                                preferred_data_address: spec_u32_be(data, 32) as u32,
                                data_image_size: spec_u32_be(data, 44) as u32,
                                code_offset: code_offset as usize,
                                code_size: f[0] as usize,
                                data_offset: data_offset as usize,
                                initialized_data_size: f[2] as usize,
                                embedded_package_offset: embedded_offset as usize,
                                embedded_package_size: f[4] as usize,
                                resource_package_offset: resource_offset as usize,
                                resource_package_size: resource_size as usize,
                                big_endian,
                            },
                        ),
                    },
                },
            }
        }
    }
}

/// Load address of the code.
pub open spec fn spec_code_address(e: CbeExecutable) -> u32 {
    if e.preferred_code_address == 0 {
        ROM_BASE
    } else {
        e.preferred_code_address
    }
}

/// Load address of the data.
pub open spec fn spec_data_address(e: CbeExecutable) -> u32 {
    if e.preferred_code_address == 0 {
        wrap32(ROM_BASE + e.code_image_size)
    } else {
        e.preferred_data_address
    }
}

/// Wrapping sum of all complete little-endian words.
pub fn checksum_le(data: &[u8]) -> (res: u32)
    ensures
        res == spec_checksum_le(data@),
{
    let n = data.len();
    let words = n / 4;
    assert(words * 4 <= n) by (nonlinear_arith)
        requires
            words == n / 4,
    ;
    let mut sum: u32 = 0;
    let mut k: usize = 0;
    while k < words
        invariant
            n == data@.len(),
            words == data@.len() / 4,
            words * 4 <= n,
            k <= words,
            sum == spec_words_le(data@, k as int),
        decreases words - k,
    {
        let w = read_u32_le(data, 4 * k);
        sum = sum.wrapping_add(w);
        k = k + 1;
    }
    sum
}

/// Wrapping sum of all complete big-endian words.
pub fn checksum_be(data: &[u8]) -> (res: u32)
    ensures
        res == spec_checksum_be(data@),
{
    let n = data.len();
    let words = n / 4;
    assert(words * 4 <= n) by (nonlinear_arith)
        requires
            words == n / 4,
    ;
    let mut sum: u32 = 0;
    let mut k: usize = 0;
    while k < words
        invariant
            n == data@.len(),
            words == data@.len() / 4,
            words * 4 <= n,
            k <= words,
            sum == spec_words_be(data@, k as int),
        decreases words - k,
    {
        let w = read_u32_be(data, 4 * k);
        sum = sum.wrapping_add(w);
        k = k + 1;
    }
    sum
}

/// Position of the first non-0xFE byte at or after `start`.
fn fe_run_end(data: &[u8], start: usize) -> (res: usize)
    ensures
        res as int == spec_fe_run_end(data@, start as int),
        start <= res,
        start <= data@.len() ==> res <= data@.len(),
{
    let n = data.len();
    let mut pos = start;
    while pos < n && data[pos] == 0xFE
        invariant
            n == data@.len(),
            start <= pos,
            start <= n ==> pos <= n,
            spec_fe_run_end(data@, start as int) == spec_fe_run_end(data@, pos as int),
        decreases n - pos,
    {
        pos = pos + 1;
    }
    pos
}

/// Whether the segment at `offset` matches the checksum in the given order.
fn segment_matches(data: &[u8], offset: usize, size: usize, expected: u32, mode: Option<bool>) -> (res:
    Option<bool>)
    ensures
        res == spec_segment_matches(data@, offset as int, size as int, expected, mode),
{
    if offset > data.len() || size > data.len() - offset {
        return None;
    }
    let segment = &data[offset..offset + size];
    match mode {
        Some(true) => if checksum_be(segment) == expected {
            Some(true)
        } else {
            None
        },
        Some(false) => if checksum_le(segment) == expected {
            Some(false)
        } else {
            None
        },
        None => if checksum_le(segment) == expected {
            Some(false)
        } else if checksum_be(segment) == expected {
            Some(true)
        } else {
            None
        },
    }
}

/// Locate a checked segment after the 0xFE separator at `separator_start`.
#[verifier::loop_isolation(false)]
pub fn locate_checked_segment(
    data: &[u8],
    separator_start: usize,
    size: usize,
    expected_checksum: u32,
    big_endian: Option<bool>,
    kind: SegmentKind,
) -> (res: Result<(usize, bool), ExecutableError>)
    requires
        data@.len() <= isize::MAX,
    ensures
        match res {
            Ok((offset, b)) => spec_locate(data@, separator_start as int, size as int, expected_checksum, big_endian, kind)
                == Ok::<(int, bool), ExecutableError>((offset as int, b)),
            Err(e) => spec_locate(data@, separator_start as int, size as int, expected_checksum, big_endian, kind)
                == Err::<(int, bool), ExecutableError>(e),
        },
{
    let separator_end = fe_run_end(data, separator_start);
    let separator_len = separator_end - separator_start;
    if separator_len < 8 {
        return Err(ExecutableError::MissingSeparator(separator_start));
    }
    let ghost sep = separator_len as int;
    let mut candidate: usize = if size == 0 {
        separator_len
    } else {
        8
    };
    let ghost lo = candidate as int;
    while candidate <= separator_len
        invariant
            separator_end == separator_start + separator_len,
            separator_end as int == spec_fe_run_end(data@, separator_start as int),
            sep == separator_len,
            separator_len <= data@.len(),
            lo <= candidate <= separator_len + 1,
            spec_first_candidate(data@, separator_start as int, size as int, expected_checksum, big_endian, lo, sep)
                == spec_first_candidate(data@, separator_start as int, size as int, expected_checksum, big_endian, candidate as int, sep),
        decreases separator_len + 1 - candidate,
    {
        let offset = separator_start + candidate;
        if let Some(b) = segment_matches(data, offset, size, expected_checksum, big_endian) {
            return Ok((offset, b));
        }
        candidate = candidate + 1;
    }
    Err(ExecutableError::ChecksumMismatch(kind))
}

/// The end of `size` bytes at `cursor`, which must lie inside the file.
pub fn checked_advance(cursor: usize, size: usize, file_size: usize, kind: SegmentKind) -> (res: Result<
    usize,
    ExecutableError,
>)
    ensures
        match res {
            Ok(end) => spec_advance(cursor as int, size as int, file_size as int, kind) == Ok::<int, ExecutableError>(end as int),
            Err(e) => spec_advance(cursor as int, size as int, file_size as int, kind) == Err::<int, ExecutableError>(e),
        },
{
    match cursor.checked_add(size) {
        None => Err(ExecutableError::RangeOverflow(kind)),
        Some(end) => if end > file_size {
            Err(ExecutableError::SegmentBeyondFile(kind))
        } else {
            Ok(end)
        },
    }
}

/// Skip a run of at least eight 0xFE bytes.
pub fn skip_marker(data: &[u8], cursor: usize) -> (res: Result<usize, ExecutableError>)
    ensures
        match res {
            Ok(end) => spec_skip_marker(data@, cursor as int) == Ok::<int, ExecutableError>(end as int),
            Err(e) => spec_skip_marker(data@, cursor as int) == Err::<int, ExecutableError>(e),
        },
{
    let end = fe_run_end(data, cursor);
    if end - cursor < 8 {
        return Err(ExecutableError::MissingSeparator(cursor));
    }
    Ok(end)
}

/// Whether eight 0xFE bytes start at `off`.
fn marker_ok(data: &[u8], off: usize) -> (res: bool)
    ensures
        res == spec_marker_ok(data@, off as int),
{
    let n = data.len();
    if n < 8 || off > n - 8 {
        return false;
    }
    let mut k: usize = 0;
    while k < 8
        invariant
            n == data@.len(),
            off + 8 <= n,
            k <= 8,
            forall|j: int| 0 <= j < k ==> #[trigger] data@[off + j] == 0xFE,
        decreases 8 - k,
    {
        if data[off + k] != 0xFE {
            return false;
        }
        k = k + 1;
    }
    true
}

/// Offset of the first of `count` 12-byte records from `base` lacking its
/// marker.
fn first_bad_marker(data: &[u8], base: usize, count: usize) -> (res: Option<usize>)
    requires
        data@.len() <= isize::MAX,
        count <= 6,
    ensures
        match res {
            Some(off) => spec_first_bad_marker(data@, base as int, 0, count as int) == Some(off as int),
            None => spec_first_bad_marker(data@, base as int, 0, count as int) is None,
        },
{
    if count == 0 {
        return None;
    }
    if base > data.len() {
        assert(!spec_marker_ok(data@, base as int + 12 * 0));
        return Some(base);
    }
    let mut i: usize = 0;
    while i < count
        invariant
            base <= data@.len() <= isize::MAX,
            i <= count <= 6,
            spec_first_bad_marker(data@, base as int, 0, count as int) == spec_first_bad_marker(data@, base as int, i as int, count as int),
        decreases count - i,
    {
        let off = base + 12 * i;
        if !marker_ok(data, off) {
            return Some(off);
        }
        i = i + 1;
    }
    None
}

impl CbeExecutable {
    /// Parse the executable header and verify all three segment checksums.
    pub fn parse(data: &[u8]) -> (res: Result<Self, ExecutableError>)
        requires
            data@.len() <= isize::MAX,
        ensures
            res == spec_parse_executable(data@),
    {
        let n = data.len();
        if n < 0x98 {
            return Err(ExecutableError::HeaderTruncated);
        }
        if let Some(off) = first_bad_marker(data, 0, 5) {
            return Err(ExecutableError::InvalidHeaderMarker(off));
        }
        let preferred_code_address = read_u32_be(data, 8);
        let code_image_size = read_u32_be(data, 20);
        let preferred_data_address = read_u32_be(data, 32);
        let data_image_size = read_u32_be(data, 44);
        let variable_header_size = read_u32_be(data, 56) as usize;
        let segment_header = match 68usize.checked_add(variable_header_size) {
            Some(v) => v,
            None => return Err(ExecutableError::HeaderOffsetOverflow),
        };
        if let Some(off) = first_bad_marker(data, segment_header, 6) {
            return Err(ExecutableError::InvalidSegmentMarker(off));
        }
        let sh = segment_header;
        assert(spec_marker_ok(data@, sh + 12 * 5)) by {
            reveal_with_fuel(spec_first_bad_marker, 7);
        }
        if sh + 72 > n {
            return Err(ExecutableError::FieldTruncated(sh + 68));
        }
        let code_size = read_u32_be(data, sh + 8) as usize;
        let code_checksum = read_u32_be(data, sh + 20);
        let initialized_data_size = read_u32_be(data, sh + 32) as usize;
        let data_checksum = read_u32_be(data, sh + 44);
        let embedded_package_size = read_u32_be(data, sh + 56) as usize;
        let embedded_checksum = read_u32_be(data, sh + 68);
        let ghost f = seq![
            code_size as u32,
            code_checksum,
            initialized_data_size as u32,
            data_checksum,
            embedded_package_size as u32,
            embedded_checksum,
        ];
        assert(spec_segment_fields(data@, sh as int) == Ok::<Seq<u32>, ExecutableError>(f));

        let cursor = sh + 72;
        let (code_offset, big_endian) = match locate_checked_segment(
            data,
            cursor,
            code_size,
            code_checksum,
            None,
            SegmentKind::Code,
        ) {
            Ok(r) => r,
            Err(e) => return Err(e),
        };
        let cursor = match checked_advance(code_offset, code_size, n, SegmentKind::Code) {
            Ok(c) => c,
            Err(e) => return Err(e),
        };
        let (data_offset, _) = match locate_checked_segment(
            data,
            cursor,
            initialized_data_size,
            data_checksum,
            Some(big_endian),
            SegmentKind::InitializedData,
        ) {
            Ok(r) => r,
            Err(e) => return Err(e),
        };
        let cursor = match checked_advance(
            data_offset,
            initialized_data_size,
            n,
            SegmentKind::InitializedData,
        ) {
            Ok(c) => c,
            Err(e) => return Err(e),
        };
        let (embedded_package_offset, _) = match locate_checked_segment(
            data,
            cursor,
            embedded_package_size,
            embedded_checksum,
            Some(big_endian),
            SegmentKind::EmbeddedPackage,
        ) {
            Ok(r) => r,
            Err(e) => return Err(e),
        };
        let cursor = match checked_advance(
            embedded_package_offset,
            embedded_package_size,
            n,
            SegmentKind::EmbeddedPackage,
        ) {
            Ok(c) => c,
            Err(e) => return Err(e),
        };
        let cursor = match skip_marker(data, cursor) {
            Ok(c) => c,
            Err(e) => return Err(e),
        };
        if cursor > n || n - cursor < 4 {
            return Err(ExecutableError::FieldTruncated(cursor));
        }
        let resource_package_size = read_u32_be(data, cursor) as usize;
        let cursor = match checked_advance(cursor, 4, n, SegmentKind::ResourcePackageLength) {
            Ok(c) => c,
            Err(e) => return Err(e),
        };
        let cursor = match skip_marker(data, cursor) {
            Ok(c) => c,
            Err(e) => return Err(e),
        };
        let resource_package_offset = cursor;
        match checked_advance(cursor, resource_package_size, n, SegmentKind::ResourcePackage) {
            Ok(_) => {},
            Err(e) => return Err(e),
        }
        Ok(
            CbeExecutable {
                preferred_code_address,
                code_image_size,
                preferred_data_address,
                data_image_size,
                code_offset,
                code_size,
                data_offset,
                initialized_data_size,
                embedded_package_offset,
                embedded_package_size,
                resource_package_offset,
                resource_package_size,
                big_endian,
            },
        )
    }

    /// Load address of the code: the preferred address, or the ROM base
    /// when none is given.
    pub fn code_address(&self) -> (res: u32)
        ensures
            res == spec_code_address(*self),
    {
        if self.preferred_code_address == 0 {
            ROM_BASE
        } else {
            self.preferred_code_address
        }
    }

    /// Load address of the data: right after the code image when the code
    /// has no preferred address, else the preferred data address.
    pub fn data_address(&self) -> (res: u32)
        ensures
            res == spec_data_address(*self),
    {
        if self.preferred_code_address == 0 {
            self.code_address().wrapping_add(self.code_image_size)
        } else {
            self.preferred_data_address
        }
    }
}

} // verus!
