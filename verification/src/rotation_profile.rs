//! Content-identity display-rotation profile for landscape CBE games.
//!
//! Landscape titles draw 400x240 art pre-rotated into the portrait 240x400
//! framebuffer, so the emulator presents the framebuffer rotated 90 degrees
//! counterclockwise. Known titles are keyed by archive CRC-32 plus byte
//! length; a frontend can register further entries parsed from a CSV text,
//! which win over the built-in profile.
use vstd::prelude::*;

use crate::bytes::{crc32_hash, spec_crc32};
use crate::machine::Rotation;
use crate::text::{
    chars_equal_str, chars_of, lines_of, nested_view, parse_unsigned, spec_lines,
    spec_parse_unsigned, spec_split, spec_trim, split_chars, trim_chars,
};

verus! {

/// A rotation override entry: (archive CRC-32, archive byte length, rotation).
pub type RotationEntry = (u32, u64, Rotation);

/// Whether a content identity is one of the built-in landscape titles.
pub open spec fn spec_builtin_landscape(crc: u32, length: int) -> bool {
    ||| crc == 0xEE5A53AC && length == 341737
    ||| crc == 0x7A5C0A30 && length == 728876
    ||| crc == 0x50528857 && length == 961146
    ||| crc == 0x9C5E0674 && length == 958874
    ||| crc == 0x52DAD535 && length == 611925
    ||| crc == 0xF3283516 && length == 606493
    ||| crc == 0x7BCDA1EB && length == 396952
    ||| crc == 0x4A849388 && length == 910806
    ||| crc == 0x701C7D4B && length == 539016
    ||| crc == 0x5F320C34 && length == 1413319
    ||| crc == 0x8EDDE44F && length == 1292332
    ||| crc == 0x282FE73D && length == 1143317
    ||| crc == 0xC6488351 && length == 400101
    ||| crc == 0xBC3CD75C && length == 734986
    ||| crc == 0x2CB6103B && length == 1074317
    ||| crc == 0x145C46B4 && length == 1016330
    ||| crc == 0x5E8B5904 && length == 319424
}

/// Look up the built-in landscape profile by content identity.
pub fn builtin_rotation(crc: u32, length: u64) -> (res: Option<Rotation>)
    ensures
        res == if spec_builtin_landscape(crc, length as int) {
            Some(Rotation::Ccw)
        } else {
            None::<Rotation>
        },
{
    let hit = (crc == 0xEE5A53AC && length == 341737) || (crc == 0x7A5C0A30 && length == 728876)
        || (crc == 0x50528857 && length == 961146) || (crc == 0x9C5E0674 && length == 958874) || (
    crc == 0x52DAD535 && length == 611925) || (crc == 0xF3283516 && length == 606493) || (crc
        == 0x7BCDA1EB && length == 396952) || (crc == 0x4A849388 && length == 910806) || (crc
        == 0x701C7D4B && length == 539016) || (crc == 0x5F320C34 && length == 1413319) || (crc
        == 0x8EDDE44F && length == 1292332) || (crc == 0x282FE73D && length == 1143317) || (crc
        == 0xC6488351 && length == 400101) || (crc == 0xBC3CD75C && length == 734986) || (crc
        == 0x2CB6103B && length == 1074317) || (crc == 0x145C46B4 && length == 1016330) || (crc
        == 0x5E8B5904 && length == 319424);
    if hit {
        Some(Rotation::Ccw)
    } else {
        None
    }
}

/// The rotation of the first override entry for a content identity.
pub open spec fn spec_first_override(entries: Seq<RotationEntry>, crc: u32, length: u64) -> Option<Rotation>
    decreases entries.len(),
{
    if entries.len() == 0 {
        None
    } else if entries[0].0 == crc && entries[0].1 == length {
        Some(entries[0].2)
    } else {
        spec_first_override(entries.drop_first(), crc, length)
    }
}

/// Resolved rotation: the first override entry, else the built-in profile,
/// else no rotation.
pub open spec fn spec_lookup_rotation(entries: Seq<RotationEntry>, crc: u32, length: u64) -> Rotation {
    match spec_first_override(entries, crc, length) {
        Some(r) => r,
        None => if spec_builtin_landscape(crc, length as int) {
            Rotation::Ccw
        } else {
            Rotation::Unrotated
        },
    }
}

/// The user-supplied rotation entries registered by a frontend.
pub struct RotationOverrides {
    entries: Vec<RotationEntry>,
}

impl RotationOverrides {
    /// The registered entries.
    pub closed spec fn entries_view(&self) -> Seq<RotationEntry> {
        self.entries@
    }

    /// A registry without entries.
    pub fn new() -> (res: Self)
        ensures
            res.entries_view() == Seq::<RotationEntry>::empty(),
    {
        RotationOverrides { entries: Vec::new() }
    }
}

/// Register user-supplied rotation entries, replacing any earlier set.
pub fn register_rotation_overrides(registry: &mut RotationOverrides, entries: Vec<RotationEntry>)
    ensures
        final(registry).entries_view() == entries@,
{
    registry.entries = entries;
}

/// Resolve the rotation for one content identity: user overrides first, then
/// the built-in landscape profile.
pub fn lookup_rotation(registry: &RotationOverrides, crc: u32, length: u64) -> (res: Rotation)
    ensures
        res == spec_lookup_rotation(registry.entries_view(), crc, length),
{
    let entries = &registry.entries;
    let mut i: usize = 0;
    assert(entries@.subrange(0, entries@.len() as int) =~= entries@);
    while i < entries.len()
        invariant
            registry.entries_view() == entries@,
            i <= entries@.len(),
            spec_first_override(entries@, crc, length) == spec_first_override(entries@.subrange(i as int, entries@.len() as int), crc, length),
        decreases entries@.len() - i,
    {
        let (entry_crc, entry_length, rotation) = entries[i];
        assert(entries@.subrange(i + 1, entries@.len() as int) =~= entries@.subrange(i as int, entries@.len() as int).drop_first());
        if entry_crc == crc && entry_length == length {
            let ghost tail = entries@.subrange(i as int, entries@.len() as int);
            assert(tail[0] == entries@[i as int]);
            return rotation;
        }
        i = i + 1;
    }
    match builtin_rotation(crc, length) {
        Some(r) => r,
        None => Rotation::Unrotated,
    }
}

/// Resolve the automatic rotation for guest content: user overrides first,
/// then the built-in landscape profile, else no rotation.
pub fn rotation_for_archive(registry: &RotationOverrides, bytes: &[u8]) -> (res: Rotation)
    ensures
        res == spec_lookup_rotation(registry.entries_view(), spec_crc32(bytes@), bytes@.len() as u64),
{
    let crc = crc32_hash(bytes);
    lookup_rotation(registry, crc, bytes.len() as u64)
}

/// Why a rotation profile line was rejected; each carries the 1-based line
/// number.
#[derive(Debug, Clone, Copy, PartialEq, Eq, Structural)]
pub enum RotationProfileError {
    /// The line does not hold exactly three comma-separated fields.
    MalformedLine(usize),
    /// The CRC-32 field is not a hexadecimal `u32`.
    InvalidCrc(usize),
    /// The length field is not a decimal `u64`.
    InvalidLength(usize),
    /// The rotation is not `none`, `cw` or `ccw`.
    UnknownRotation(usize),
}

/// The hexadecimal digits of a CRC field, without a "0x" or "0X" prefix.
pub open spec fn spec_crc_digits(s: Seq<char>) -> Seq<char> {
    if s.len() >= 2 && s[0] == '0' && (s[1] == 'x' || s[1] == 'X') {
        s.subrange(2, s.len() as int)
    } else {
        s
    }
}

/// A hexadecimal CRC-32 with an optional "0x" prefix.
pub open spec fn spec_parse_crc32(s: Seq<char>) -> Option<int> {
    spec_parse_unsigned(spec_crc_digits(s), 16, u32::MAX as int)
}

/// Parse a hex CRC-32 with an optional `0x` prefix.
pub fn parse_crc32(value: &[char]) -> (res: Option<u32>)
    ensures
        match res {
            Some(v) => spec_parse_crc32(value@) == Some(v as int),
            None => spec_parse_crc32(value@) is None,
        },
{
    let n = value.len();
    let start: usize = if n >= 2 && value[0] == '0' && (value[1] == 'x' || value[1] == 'X') {
        2
    } else {
        0
    };
    let digits = crate::text::copy_chars(value, start, n);
    assert(value@.subrange(0, n as int) =~= value@);
    match parse_unsigned(digits.as_slice(), 16, 0xffff_ffff) {
        Some(v) => Some(v as u32),
        None => None,
    }
}

/// The outcome of one profile line: skipped (`Ok(None)`), an entry, or an
/// error.
pub open spec fn spec_parse_line(raw: Seq<char>, number: int) -> Result<Option<RotationEntry>, RotationProfileError> {
    let line = spec_trim(raw);
    if line.len() == 0 || line[0] == '#' {
        Ok(None)
    } else {
        let fields = spec_split(line, ',');
        if fields.len() != 3 {
            Err(RotationProfileError::MalformedLine(number as usize))
        } else {
            match spec_parse_crc32(spec_trim(fields[0])) {
                None => Err(RotationProfileError::InvalidCrc(number as usize)),
                Some(crc) => match spec_parse_unsigned(spec_trim(fields[1]), 10, u64::MAX as int) {
                    None => Err(RotationProfileError::InvalidLength(number as usize)),
                    Some(length) => {
                        let r = spec_trim(fields[2]);
                        if r == "none"@ {
                            Ok(Some((crc as u32, length as u64, Rotation::Unrotated)))
                        } else if r == "cw"@ {
                            Ok(Some((crc as u32, length as u64, Rotation::Cw)))
                        } else if r == "ccw"@ {
                            Ok(Some((crc as u32, length as u64, Rotation::Ccw)))
                        } else {
                            Err(RotationProfileError::UnknownRotation(number as usize))
                        }
                    },
                },
            }
        }
    }
}

/// The entries of the first `k` lines, or the first error among them.
pub open spec fn spec_parse_lines(lines: Seq<Seq<char>>, k: int) -> Result<Seq<RotationEntry>, RotationProfileError>
    decreases k,
{
    if k <= 0 {
        Ok(Seq::empty())
    } else {
        match spec_parse_lines(lines, k - 1) {
            Err(e) => Err(e),
            Ok(entries) => match spec_parse_line(lines[k - 1], k) {
                Err(e) => Err(e),
                Ok(None) => Ok(entries),
                Ok(Some(entry)) => Ok(entries.push(entry)),
            },
        }
    }
}

/// Rotation overrides parsed from CSV text: one `crc32,length,rotation`
/// entry per line, `crc32` in hex with an optional `0x` prefix, `length` in
/// decimal, `rotation` one of `none`, `cw`, `ccw`; blank lines and `#`
/// comments are skipped; the first malformed line is reported.
pub open spec fn spec_parse_rotation_overrides(text: Seq<char>) -> Result<Seq<RotationEntry>, RotationProfileError> {
    let lines = spec_lines(text);
    spec_parse_lines(lines, lines.len() as int)
}

/// Parse one profile line.
fn parse_line(raw: &[char], number: usize) -> (res: Result<Option<RotationEntry>, RotationProfileError>)
    ensures
        res == spec_parse_line(raw@, number as int),
{
    let line = trim_chars(raw);
    if line.len() == 0 || line[0] == '#' {
        return Ok(None);
    }
    let fields = split_chars(line.as_slice(), ',');
    if fields.len() != 3 {
        return Err(RotationProfileError::MalformedLine(number));
    }
    proof {
        assert(nested_view(fields@)[0] == fields@[0]@);
        assert(nested_view(fields@)[1] == fields@[1]@);
        assert(nested_view(fields@)[2] == fields@[2]@);
    }
    let crc_field = trim_chars(fields[0].as_slice());
    let crc = match parse_crc32(crc_field.as_slice()) {
        Some(c) => c,
        None => return Err(RotationProfileError::InvalidCrc(number)),
    };
    let length_field = trim_chars(fields[1].as_slice());
    let length = match parse_unsigned(length_field.as_slice(), 10, 0xffff_ffff_ffff_ffff) {
        Some(l) => l,
        None => return Err(RotationProfileError::InvalidLength(number)),
    };
    let r = trim_chars(fields[2].as_slice());
    if chars_equal_str(r.as_slice(), "none") {
        Ok(Some((crc, length, Rotation::Unrotated)))
    } else if chars_equal_str(r.as_slice(), "cw") {
        Ok(Some((crc, length, Rotation::Cw)))
    } else if chars_equal_str(r.as_slice(), "ccw") {
        Ok(Some((crc, length, Rotation::Ccw)))
    } else {
        Err(RotationProfileError::UnknownRotation(number))
    }
}

/// Parse rotation overrides from CSV text.
pub fn parse_rotation_overrides(text: &str) -> (res: Result<Vec<RotationEntry>, RotationProfileError>)
    ensures
        match res {
            Ok(v) => spec_parse_rotation_overrides(text@) == Ok::<Seq<RotationEntry>, RotationProfileError>(v@),
            Err(e) => spec_parse_rotation_overrides(text@) == Err::<Seq<RotationEntry>, RotationProfileError>(e),
        },
{
    let chars = chars_of(text);
    let lines = lines_of(chars.as_slice());
    let ghost lv = nested_view(lines@);
    let mut entries: Vec<RotationEntry> = Vec::new();
    let mut k: usize = 0;
    while k < lines.len()
        invariant
            k <= lines@.len(),
            lv == nested_view(lines@),
            lv == spec_lines(text@),
            spec_parse_lines(lv, k as int) == Ok::<Seq<RotationEntry>, RotationProfileError>(entries@),
        decreases lines@.len() - k,
    {
        assert(lv[k as int] == lines@[k as int]@);
        match parse_line(lines[k].as_slice(), k + 1) {
            Err(e) => {
                proof {
                    lemma_parse_lines_err_stays(lv, (k + 1) as int, lv.len() as int);
                }
                return Err(e);
            },
            Ok(None) => {},
            Ok(Some(entry)) => {
                entries.push(entry);
            },
        }
        k = k + 1;
    }
    Ok(entries)
}

/// An error in the first `k` lines is the error of all lines.
pub proof fn lemma_parse_lines_err_stays(lines: Seq<Seq<char>>, k: int, n: int)
    requires
        0 <= k <= n,
        spec_parse_lines(lines, k) is Err,
    ensures
        spec_parse_lines(lines, n) == spec_parse_lines(lines, k),
    decreases n - k,
{
    if n > k {
        lemma_parse_lines_err_stays(lines, k, n - 1);
    }
}

} // verus!
