//! CBE archive parser.
//!
//! A CBE file holds resource sections, each starting with eight 0xFE bytes.
//! A classic section continues with marker(4)=8, count(4), one(4)=1,
//! firstDataRel(4), dataLen(4), then `count - 1` end offsets at +36, a table
//! of length-prefixed names, and the data region at section start +
//! firstDataRel + 0x18. A native section has marker(4)=4, one(4)=1,
//! dataRel(4), dataLen(4), count(4), end offsets at +32, names, and the data
//! region at section start + dataRel + 0x14.
use vstd::prelude::*;

use crate::bytes::{read_u32_le, spec_u32_le};
use crate::cbe::resource::{
    entries_view, spec_new_entry, ResourceEntry, ResourceEntryView, ResourceType,
};
use crate::text::{spec_utf8_lossy, utf8_lossy};

verus! {

/// Errors when reading from an archive.
#[derive(Debug, Clone, Copy, PartialEq, Eq, Structural)]
pub enum ArchiveError {
    /// A resource extends beyond the end of the archive.
    ResourceOutOfBounds,
}

/// Section header structure after the 8-byte signature.
#[derive(Debug, Clone, Copy, PartialEq, Eq, Structural)]
pub struct SectionHeader {
    /// Section index
    pub index: usize,
    /// Offset of this section in the file
    pub file_offset: u64,
    /// Marker value
    pub marker: u32,
    /// Number of resources in this section
    pub resource_count: u32,
    /// Value 1
    pub one: u32,
    /// Relative offset to the data region
    pub data_rel: u32,
    /// Total length of the data region
    pub data_len: u32,
    /// Offset to the data start in the file
    pub data_start: u64,
}

/// A CBE section containing multiple resources.
#[derive(Debug, Clone)]
pub struct CbeSection {
    /// Section header
    pub header: SectionHeader,
    /// Resources in this section
    pub resources: Vec<ResourceEntry>,
}

/// Abstract view of a section.
#[verifier::ext_equal]
pub struct CbeSectionView {
    pub header: SectionHeader,
    pub resources: Seq<ResourceEntryView>,
}

impl View for CbeSection {
    type V = CbeSectionView;

    open spec fn view(&self) -> CbeSectionView {
        CbeSectionView { header: self.header, resources: entries_view(self.resources@) }
    }
}

/// Views of a sequence of sections.
pub open spec fn sections_view(sections: Seq<CbeSection>) -> Seq<CbeSectionView> {
    sections.map_values(|s: CbeSection| s@)
}

// ---------------------------------------------------------------------------
// Specification of the section layout
// ---------------------------------------------------------------------------

/// Eight 0xFE bytes at `off`.
pub open spec fn spec_has_signature(buf: Seq<u8>, off: int) -> bool {
    forall|i: int| 0 <= i < 8 ==> #[trigger] buf[off + i] == 0xFE
}

/// A byte allowed in a plausible resource name: ASCII digits, letters, '.',
/// '_', '-', or any byte of an extended (e.g. GBK) character.
pub open spec fn spec_name_byte_ok(c: u8) -> bool {
    (0x30 <= c <= 0x39) || (0x41 <= c <= 0x5a) || (0x61 <= c <= 0x7a) || c == 0x2e || c == 0x5f
        || c == 0x2d || c >= 0x80
}

/// Up to `remaining` names from `pos` look like resource names: each has a
/// length byte in 1..=96, fits in the buffer and holds plausible bytes. The
/// check stops early when the end of the buffer is reached.
pub open spec fn spec_names_plausible(buf: Seq<u8>, pos: int, remaining: nat) -> bool
    decreases remaining,
{
    if remaining == 0 || pos >= buf.len() || pos < 0 {
        true
    } else {
        let len = buf[pos] as int;
        &&& 1 <= len <= 96
        &&& pos + 1 + len <= buf.len()
        &&& forall|j: int| pos + 1 <= j < pos + 1 + len ==> spec_name_byte_ok(#[trigger] buf[j])
        &&& spec_names_plausible(buf, pos + 1 + len, (remaining - 1) as nat)
    }
}

/// Up to `remaining` names from `pos` have a length byte in 1..=96 and end
/// no later than `limit`.
pub open spec fn spec_native_names_plausible(buf: Seq<u8>, pos: int, remaining: nat, limit: int) -> bool
    decreases remaining,
{
    if remaining == 0 {
        true
    } else if pos < 0 || pos >= buf.len() {
        false
    } else {
        let len = buf[pos] as int;
        &&& 1 <= len <= 96
        &&& pos + 1 + len <= limit
        &&& spec_native_names_plausible(buf, pos + 1 + len, (remaining - 1) as nat, limit)
    }
}

pub open spec fn spec_min(a: int, b: int) -> int {
    if a <= b {
        a
    } else {
        b
    }
}

/// Whether a classic resource section starts at `off`.
pub open spec fn spec_looks_like_resource_section(buf: Seq<u8>, off: int) -> bool {
    let marker = spec_u32_le(buf, off + 8);
    let count = spec_u32_le(buf, off + 12);
    let one = spec_u32_le(buf, off + 16);
    let first_data_rel = spec_u32_le(buf, off + 20);
    let data_len = spec_u32_le(buf, off + 24);
    let names_start = off + 36 + (count - 1) * 4;
    &&& off + 40 <= buf.len()
    &&& spec_has_signature(buf, off)
    &&& marker == 8
    &&& 1 <= count <= 10000
    &&& one == 1
    &&& data_len >= 1
    &&& first_data_rel + data_len + 0x18 <= buf.len() - off
    &&& names_start < buf.len()
    &&& spec_names_plausible(buf, names_start, spec_min(count, 16) as nat)
}

/// Whether a native resource section starts at `off`.
pub open spec fn spec_looks_like_native_resource_section(buf: Seq<u8>, off: int) -> bool {
    let marker = spec_u32_le(buf, off + 8);
    let one = spec_u32_le(buf, off + 12);
    let data_rel = spec_u32_le(buf, off + 16);
    let data_len = spec_u32_le(buf, off + 20);
    let count = spec_u32_le(buf, off + 24);
    let data_start = off + data_rel + 0x14;
    &&& off + 40 <= buf.len()
    &&& spec_has_signature(buf, off)
    &&& marker == 4
    &&& one == 1
    &&& 1 <= count <= 10000
    &&& data_start + data_len <= buf.len()
    &&& spec_native_names_plausible(
        buf,
        off + 32 + (count - 1) * 4,
        spec_min(count, 16) as nat,
        data_start,
    )
}

/// The first `count` length-prefixed names from `start`, and the position
/// after them; `None` when a name runs past the buffer, or is empty while
/// empty names are not allowed.
pub open spec fn spec_names(buf: Seq<u8>, start: int, count: nat, allow_empty: bool) -> Option<
    (Seq<Seq<u8>>, int),
>
    decreases count,
{
    if count == 0 {
        Some((Seq::empty(), start))
    } else {
        match spec_names(buf, start, (count - 1) as nat, allow_empty) {
            None => None,
            Some((names, pos)) => {
                if pos < 0 || pos >= buf.len() {
                    None
                } else {
                    let len = buf[pos] as int;
                    if (!allow_empty && len == 0) || pos + 1 + len > buf.len() {
                        None
                    } else {
                        Some((names.push(buf.subrange(pos + 1, pos + 1 + len)), pos + 1 + len))
                    }
                }
            },
        }
    }
}

/// End offset `i` of the table at `table`.
pub open spec fn spec_end(buf: Seq<u8>, table: int, i: int) -> int {
    spec_u32_le(buf, table + 4 * i)
}

/// Relative start of resource `i`: 0 for the first, else the previous end.
pub open spec fn spec_start_rel(buf: Seq<u8>, table: int, i: int) -> int {
    if i == 0 {
        0
    } else {
        spec_end(buf, table, i - 1)
    }
}

/// Relative end of resource `i`: its table entry, or the data length for the
/// last resource.
pub open spec fn spec_end_rel(buf: Seq<u8>, table: int, count: int, data_len: int, i: int) -> int {
    if i < count - 1 {
        spec_end(buf, table, i)
    } else {
        data_len
    }
}

/// The resources of a classic section.
pub open spec fn spec_classic_resources(
    buf: Seq<u8>,
    off: int,
    index: usize,
    names: Seq<Seq<u8>>,
    data_start: int,
    data_len: int,
) -> Seq<ResourceEntryView> {
    let table = off + 36;
    let count = names.len() as int;
    Seq::new(
        names.len(),
        |i: int|
            {
                let start = data_start + spec_start_rel(buf, table, i);
                let end = data_start + spec_end_rel(buf, table, count, data_len, i);
                let size = if end > start {
                    end - start
                } else {
                    0
                };
                spec_new_entry(spec_utf8_lossy(names[i]), index, start as u64, size as u64)
            },
    )
}

/// The classic section at `off`, if its name table is complete.
pub open spec fn spec_parse_section(buf: Seq<u8>, off: int, index: usize) -> Option<CbeSectionView> {
    let marker = spec_u32_le(buf, off + 8);
    let count = spec_u32_le(buf, off + 12);
    let one = spec_u32_le(buf, off + 16);
    let data_rel = spec_u32_le(buf, off + 20);
    let data_len = spec_u32_le(buf, off + 24);
    let data_start = off + data_rel + 0x18;
    match spec_names(buf, off + 36 + (count - 1) * 4, count as nat, false) {
        None => None,
        Some((names, _)) => Some(
            CbeSectionView {
                header: SectionHeader {
                    index,
                    file_offset: off as u64,
                    marker: marker as u32,
                    resource_count: count as u32,
                    one: one as u32,
                    data_rel: data_rel as u32,
                    data_len: data_len as u32,
                    data_start: data_start as u64,
                },
                resources: spec_classic_resources(buf, off, index, names, data_start, data_len),
            },
        ),
    }
}

/// Resource `i` of a native section lies in order inside the buffer.
pub open spec fn spec_native_range_ok(
    buf: Seq<u8>,
    table: int,
    count: int,
    data_start: int,
    data_len: int,
    i: int,
) -> bool {
    let s = spec_start_rel(buf, table, i);
    let e = spec_end_rel(buf, table, count, data_len, i);
    s <= e && data_start + e <= buf.len()
}

/// Every resource of a native section lies in order inside the buffer.
pub open spec fn spec_native_ranges_ok(
    buf: Seq<u8>,
    table: int,
    count: int,
    data_start: int,
    data_len: int,
) -> bool {
    forall|i: int|
        0 <= i < count ==> #[trigger] spec_native_range_ok(buf, table, count, data_start, data_len, i)
}

/// The resources of a native section.
pub open spec fn spec_native_resources(
    buf: Seq<u8>,
    off: int,
    index: usize,
    names: Seq<Seq<u8>>,
    data_start: int,
    data_len: int,
) -> Seq<ResourceEntryView> {
    let table = off + 32;
    let count = names.len() as int;
    Seq::new(
        names.len(),
        |i: int|
            {
                let s = spec_start_rel(buf, table, i);
                let e = spec_end_rel(buf, table, count, data_len, i);
                spec_new_entry(spec_utf8_lossy(names[i]), index, (data_start + s) as u64, (e - s) as u64)
            },
    )
}

/// The native section at `off`, if its names and ranges are complete.
pub open spec fn spec_parse_native_section(buf: Seq<u8>, off: int, index: usize) -> Option<
    CbeSectionView,
> {
    let marker = spec_u32_le(buf, off + 8);
    let one = spec_u32_le(buf, off + 12);
    let data_rel = spec_u32_le(buf, off + 16);
    let data_len = spec_u32_le(buf, off + 20);
    let count = spec_u32_le(buf, off + 24);
    let data_start = off + data_rel + 0x14;
    match spec_names(buf, off + 32 + (count - 1) * 4, count as nat, true) {
        None => None,
        Some((names, _)) => if spec_native_ranges_ok(buf, off + 32, count, data_start, data_len) {
            Some(
                CbeSectionView {
                    header: SectionHeader {
                        index,
                        file_offset: off as u64,
                        marker: marker as u32,
                        resource_count: count as u32,
                        one: one as u32,
                        data_rel: data_rel as u32,
                        data_len: data_len as u32,
                        data_start: data_start as u64,
                    },
                    resources: spec_native_resources(buf, off, index, names, data_start, data_len),
                },
            )
        } else {
            None
        },
    }
}

/// The sections found at `off`: a classic section when one starts there,
/// otherwise a native section, otherwise none.
pub open spec fn spec_section_at(buf: Seq<u8>, off: int, index: usize) -> Seq<CbeSectionView> {
    if spec_looks_like_resource_section(buf, off) {
        match spec_parse_section(buf, off, index) {
            Some(s) => seq![s],
            None => Seq::empty(),
        }
    } else if spec_looks_like_native_resource_section(buf, off) {
        match spec_parse_native_section(buf, off, index) {
            Some(s) => seq![s],
            None => Seq::empty(),
        }
    } else {
        Seq::empty()
    }
}

/// Sections found by scanning every offset below `upto`, numbered in order.
pub open spec fn spec_scan(buf: Seq<u8>, upto: int) -> Seq<CbeSectionView>
    decreases upto,
{
    if upto <= 0 {
        Seq::empty()
    } else {
        let prev = spec_scan(buf, upto - 1);
        prev + spec_section_at(buf, upto - 1, prev.len() as usize)
    }
}

/// The offsets that a scan visits: all below `len - 40`.
pub open spec fn spec_scan_limit(len: int) -> int {
    if len >= 40 {
        len - 40
    } else {
        0
    }
}

/// The resources of all sections, in order.
pub open spec fn spec_flatten(sections: Seq<CbeSectionView>) -> Seq<ResourceEntryView>
    decreases sections.len(),
{
    if sections.len() == 0 {
        Seq::empty()
    } else {
        spec_flatten(sections.drop_last()) + sections.last().resources
    }
}

/// Views of a sequence of entry references.
pub open spec fn ref_entries_view(entries: Seq<&ResourceEntry>) -> Seq<ResourceEntryView> {
    entries.map_values(|e: &ResourceEntry| e@)
}

/// The entries of the given type, in order.
pub open spec fn spec_filter_type(entries: Seq<ResourceEntryView>, t: ResourceType) -> Seq<ResourceEntryView>
    decreases entries.len(),
{
    if entries.len() == 0 {
        Seq::empty()
    } else {
        let prev = spec_filter_type(entries.drop_last(), t);
        if entries.last().resource_type == t {
            prev.push(entries.last())
        } else {
            prev
        }
    }
}

/// Per-type counts of a list of entries: each type that occurs appears once
/// with its number of occurrences, and no other type appears.
pub open spec fn spec_type_counts_ok(counts: Seq<(ResourceType, usize)>, entries: Seq<ResourceEntryView>) -> bool {
    &&& forall|i: int, j: int| 0 <= i < j < counts.len() ==> counts[i].0 != counts[j].0
    &&& forall|i: int|
        0 <= i < counts.len() ==> (#[trigger] counts[i]).1 == spec_count_type(entries, counts[i].0)
            && counts[i].1 > 0
    &&& forall|t: ResourceType|
        spec_count_type(entries, t) > 0 ==> exists|i: int|
            0 <= i < counts.len() && (#[trigger] counts[i]).0 == t
}

/// The resources of a classic section tile its data region in table
/// order: the first starts at the data start, each starts where the one
/// before it ends (a resource whose end-offset entry goes backwards is
/// empty), and the last ends at the end of the data region (unless it
/// starts past it, when it is empty).
pub proof fn lemma_classic_resources_tile_data(buf: Seq<u8>, off: int, index: usize)
    requires
        0 <= off <= 0x7fff_ffff_ffff_ffff,
        spec_parse_section(buf, off, index) is Some,
    ensures
        ({
            let s = spec_parse_section(buf, off, index)->0;
            let r = s.resources;
            let start = s.header.data_start as int;
            let end = start + s.header.data_len as int;
            &&& r.len() > 0 ==> r[0].offset == start
            &&& forall|i: int|
                0 <= i < r.len() - 1 ==> {
                    &&& (#[trigger] r[i]).offset <= r[i + 1].offset ==> r[i].offset + r[i].size == r[i + 1].offset
                    &&& r[i].offset > r[i + 1].offset ==> r[i].size == 0
                }
            &&& r.len() > 0 ==> {
                &&& r.last().offset <= end ==> r.last().offset + r.last().size == end
                &&& r.last().offset > end ==> r.last().size == 0
            }
        }),
{
    let count = spec_u32_le(buf, off + 12);
    let data_rel = spec_u32_le(buf, off + 20);
    let data_len = spec_u32_le(buf, off + 24);
    let data_start = off + data_rel + 0x18;
    let table = off + 36;
    assert(0 <= count <= u32::MAX && 0 <= data_rel <= u32::MAX && 0 <= data_len <= u32::MAX);
    assert forall|i: int| 0 <= i implies 0 <= #[trigger] spec_end(buf, table, i) <= u32::MAX by {}
    let s = spec_parse_section(buf, off, index)->0;
    let r = s.resources;
    assert forall|i: int| 0 <= i < r.len() implies ({
        let st = data_start + spec_start_rel(buf, table, i);
        let en = data_start + spec_end_rel(buf, table, r.len() as int, data_len, i);
        &&& (#[trigger] r[i]).offset == st
        &&& r[i].size == if en > st { en - st } else { 0 }
    }) by {}
}

/// A section found at `off` carries the number it was given and its own
/// offset; at most one section starts at an offset.
proof fn lemma_section_at(buf: Seq<u8>, off: int, index: usize)
    requires
        0 <= off <= u64::MAX,
    ensures
        spec_section_at(buf, off, index).len() <= 1,
        spec_section_at(buf, off, index).len() == 1 ==> spec_section_at(buf, off, index)[0].header.index == index
            && spec_section_at(buf, off, index)[0].header.file_offset == off,
{
}

/// A scan numbers the sections it finds 0, 1, 2, ... in the order of their
/// offsets in the file, which strictly increase and lie below the scanned
/// limit.
pub proof fn lemma_scan_numbers_sections_in_file_order(buf: Seq<u8>, upto: int)
    requires
        0 <= upto <= usize::MAX,
        upto <= u64::MAX,
    ensures
        spec_scan(buf, upto).len() <= upto,
        forall|i: int| 0 <= i < spec_scan(buf, upto).len() ==> {
            &&& (#[trigger] spec_scan(buf, upto)[i]).header.index == i
            &&& spec_scan(buf, upto)[i].header.file_offset < upto
        },
        forall|i: int, j: int|
            0 <= i < j < spec_scan(buf, upto).len() ==> (#[trigger] spec_scan(buf, upto)[i]).header.file_offset
                < (#[trigger] spec_scan(buf, upto)[j]).header.file_offset,
    decreases upto,
{
    if upto > 0 {
        let prev = spec_scan(buf, upto - 1);
        lemma_scan_numbers_sections_in_file_order(buf, upto - 1);
        lemma_section_at(buf, upto - 1, prev.len() as usize);
        let here = spec_section_at(buf, upto - 1, prev.len() as usize);
        let all = spec_scan(buf, upto);
        assert(all == prev + here);
        assert forall|i: int| 0 <= i < all.len() implies {
            &&& (#[trigger] all[i]).header.index == i
            &&& all[i].header.file_offset < upto
        } by {
            if i < prev.len() {
                assert(all[i] == prev[i]);
            } else {
                assert(all[i] == here[0]);
            }
        }
        assert forall|i: int, j: int| 0 <= i < j < all.len() implies (#[trigger] all[i]).header.file_offset
            < (#[trigger] all[j]).header.file_offset by {
            if j < prev.len() {
                assert(all[i] == prev[i]);
                assert(all[j] == prev[j]);
            } else {
                assert(all[i] == prev[i]);
                assert(all[j] == here[0]);
                assert(prev[i].header.file_offset < upto - 1);
            }
        }
    }
}

/// A type occurs no more often than there are entries.
pub proof fn lemma_count_type_bound(entries: Seq<ResourceEntryView>, t: ResourceType)
    ensures
        spec_count_type(entries, t) <= entries.len(),
    decreases entries.len(),
{
    if entries.len() > 0 {
        lemma_count_type_bound(entries.drop_last(), t);
    }
}

/// Number of entries of the given type.
pub open spec fn spec_count_type(entries: Seq<ResourceEntryView>, t: ResourceType) -> nat
    decreases entries.len(),
{
    if entries.len() == 0 {
        0
    } else {
        spec_count_type(entries.drop_last(), t) + if entries.last().resource_type == t {
            1nat
        } else {
            0nat
        }
    }
}


/// A spec function's `None` stays `None` when more names are requested.
pub proof fn lemma_names_none_grows(buf: Seq<u8>, start: int, k: nat, n: nat, allow_empty: bool)
    requires
        k <= n,
        spec_names(buf, start, k, allow_empty) is None,
    ensures
        spec_names(buf, start, n, allow_empty) is None,
    decreases n,
{
    if n > k {
        lemma_names_none_grows(buf, start, k, (n - 1) as nat, allow_empty);
    }
}

/// Whether a byte may appear in a plausible resource name.
fn name_byte_ok(c: u8) -> (res: bool)
    ensures
        res == spec_name_byte_ok(c),
{
    (0x30 <= c && c <= 0x39) || (0x41 <= c && c <= 0x5a) || (0x61 <= c && c <= 0x7a) || c == 0x2e
        || c == 0x5f || c == 0x2d || c >= 0x80
}

/// Whether all bytes in `from..to` may appear in a plausible resource name.
fn name_bytes_ok(buf: &[u8], from: usize, to: usize) -> (res: bool)
    requires
        from <= to <= buf@.len(),
    ensures
        res == forall|k: int| from <= k < to ==> spec_name_byte_ok(#[trigger] buf@[k]),
{
    let mut j = from;
    while j < to
        invariant
            from <= j <= to <= buf@.len(),
            forall|k: int| from <= k < j ==> spec_name_byte_ok(#[trigger] buf@[k]),
        decreases to - j,
    {
        if !name_byte_ok(buf[j]) {
            assert(!spec_name_byte_ok(buf@[j as int]));
            return false;
        }
        j = j + 1;
    }
    true
}

/// Index of the entry for the given type in a count list.
fn find_type_index(counts: &Vec<(ResourceType, usize)>, t: ResourceType) -> (res: Option<usize>)
    ensures
        match res {
            Some(k) => k < counts@.len() && counts@[k as int].0 == t,
            None => forall|j: int| 0 <= j < counts@.len() ==> (#[trigger] counts@[j]).0 != t,
        },
{
    let mut k: usize = 0;
    while k < counts.len()
        invariant
            k <= counts@.len(),
            forall|j: int| 0 <= j < k ==> (#[trigger] counts@[j]).0 != t,
        decreases counts@.len() - k,
    {
        if counts[k].0 == t {
            return Some(k);
        }
        k = k + 1;
    }
    None
}

/// Whether eight 0xFE bytes start at `off`.
fn has_signature(buf: &[u8], off: usize) -> (res: bool)
    requires
        off + 8 <= buf@.len(),
    ensures
        res == spec_has_signature(buf@, off as int),
{
    let n = buf.len();
    let mut i: usize = 0;
    while i < 8
        invariant
            n == buf@.len(),
            off + 8 <= buf@.len(),
            i <= 8,
            forall|k: int| 0 <= k < i ==> #[trigger] buf@[off + k] == 0xFE,
        decreases 8 - i,
    {
        if buf[off + i] != 0xFE {
            return false;
        }
        i = i + 1;
    }
    true
}


/// Main CBE archive structure.
#[derive(Debug, Clone)]
pub struct CbeArchive {
    /// Path of the CBE file
    path: String,
    /// Raw file data
    data: Vec<u8>,
    /// Sections found in the archive
    sections: Vec<CbeSection>,
    /// Flat list of all resources
    all_resources: Vec<ResourceEntry>,
}

/// Summary of a CBE archive.
#[derive(Debug, Clone)]
pub struct ArchiveSummary {
    pub path: String,
    pub file_size: usize,
    pub section_count: usize,
    pub resource_count: usize,
    /// Number of resources of each type that occurs, in order of first
    /// occurrence.
    pub type_counts: Vec<(ResourceType, usize)>,
}

impl CbeArchive {
    /// Check if a buffer looks like a classic CBE resource section at `off`.
    #[verifier::loop_isolation(false)]
    pub fn looks_like_resource_section(buf: &[u8], off: usize) -> (res: bool)
        requires
            buf@.len() <= isize::MAX,
            off <= buf@.len(),
        ensures
            res == spec_looks_like_resource_section(buf@, off as int),
    {
        let n = buf.len();
        if n - off < 40 {
            return false;
        }
        if !has_signature(buf, off) {
            return false;
        }
        let marker = read_u32_le(buf, off + 8);
        let count = read_u32_le(buf, off + 12);
        let one = read_u32_le(buf, off + 16);
        let first_data_rel = read_u32_le(buf, off + 20);
        let data_len = read_u32_le(buf, off + 24);
        if marker != 8 || count < 1 || count > 10000 || one != 1 {
            return false;
        }
        if data_len < 1 || (first_data_rel as u64) + (data_len as u64) + 0x18 > (n - off) as u64 {
            return false;
        }
        let names_start = off + 36 + (count as usize - 1) * 4;
        if names_start >= n {
            return false;
        }
        let m: u32 = if count < 16 {
            count
        } else {
            16
        };
        let ghost target = spec_names_plausible(buf@, names_start as int, m as nat);
        assert(spec_looks_like_resource_section(buf@, off as int) == target);
        let mut pos = names_start;
        let mut checked: u32 = 0;
        while checked < m && pos < n
            invariant
                n == buf@.len(),
                n <= isize::MAX,
                names_start < n,
                1 <= m <= 16,
                checked <= m,
                pos <= n,
                checked == 0 ==> pos == names_start,
                target == spec_names_plausible(buf@, pos as int, (m - checked) as nat),
            decreases m - checked,
        {
            let len = buf[pos] as usize;
            if len < 1 || len > 96 || pos + 1 + len > n {
                assert(!spec_names_plausible(buf@, pos as int, (m - checked) as nat));
                return false;
            }
            if !name_bytes_ok(buf, pos + 1, pos + 1 + len) {
                assert(!spec_names_plausible(buf@, pos as int, (m - checked) as nat));
                return false;
            }
            pos = pos + 1 + len;
            checked = checked + 1;
        }
        checked > 0
    }

    /// Check if a buffer looks like a native CBE resource section at `off`.
    #[verifier::loop_isolation(false)]
    pub fn looks_like_native_resource_section(buf: &[u8], off: usize) -> (res: bool)
        requires
            buf@.len() <= isize::MAX,
            off <= buf@.len(),
        ensures
            res == spec_looks_like_native_resource_section(buf@, off as int),
    {
        let n = buf.len();
        if n - off < 40 {
            return false;
        }
        if !has_signature(buf, off) {
            return false;
        }
        let marker = read_u32_le(buf, off + 8);
        let one = read_u32_le(buf, off + 12);
        let data_rel = read_u32_le(buf, off + 16);
        let data_len = read_u32_le(buf, off + 20);
        let count = read_u32_le(buf, off + 24);
        if marker != 4 || one != 1 || count < 1 || count > 10000 {
            return false;
        }
        let data_start64 = off as u64 + data_rel as u64 + 0x14;
        if data_start64 + data_len as u64 > n as u64 {
            return false;
        }
        let data_start = data_start64 as usize;
        let m: u32 = if count < 16 {
            count
        } else {
            16
        };
        let start = off + 32 + (count as usize - 1) * 4;
        let ghost target = spec_native_names_plausible(buf@, start as int, m as nat, data_start as int);
        assert(spec_looks_like_native_resource_section(buf@, off as int) == target);
        let mut name_pos = start;
        let mut k: u32 = 0;
        while k < m
            invariant
                n == buf@.len(),
                n <= isize::MAX,
                data_start <= n,
                k <= m,
                name_pos <= n || (k == 0 && name_pos == start),
                start == off + 32 + (count - 1) * 4,
                1 <= count <= 10000,
                off <= n,
                target == spec_native_names_plausible(
                    buf@,
                    name_pos as int,
                    (m - k) as nat,
                    data_start as int,
                ),
            decreases m - k,
        {
            if name_pos >= n {
                assert(!spec_native_names_plausible(buf@, name_pos as int, (m - k) as nat, data_start as int));
                return false;
            }
            let length = buf[name_pos] as usize;
            if length < 1 || length > 96 || name_pos + 1 + length > data_start {
                assert(!spec_native_names_plausible(buf@, name_pos as int, (m - k) as nat, data_start as int));
                return false;
            }
            name_pos = name_pos + 1 + length;
            k = k + 1;
        }
        true
    }

    /// Parse the classic section starting at `start_offset`.
    #[verifier::loop_isolation(false)]
    pub fn parse_section(data: &[u8], start_offset: usize, index: usize) -> (res: Option<CbeSection>)
        requires
            data@.len() <= isize::MAX,
            spec_looks_like_resource_section(data@, start_offset as int),
        ensures
            match res {
                Some(s) => spec_parse_section(data@, start_offset as int, index) == Some(s@),
                None => spec_parse_section(data@, start_offset as int, index) is None,
            },
    {
        let ghost buf = data@;
        let ghost off = start_offset as int;
        let n = data.len();
        let pos = start_offset + 8;
        let marker = read_u32_le(data, pos);
        let resource_count = read_u32_le(data, pos + 4);
        let one = read_u32_le(data, pos + 8);
        let data_rel = read_u32_le(data, pos + 12);
        let data_len = read_u32_le(data, pos + 16);
        let count = resource_count as usize;
        let names_start = start_offset + 36 + (count - 1) * 4;

        // End offsets of all resources but the last.
        let mut ends: Vec<u32> = Vec::new();
        let mut table_pos = start_offset + 36;
        let mut k: usize = 0;
        while k < count - 1
            invariant
                n == data@.len(),
                buf == data@,
                off == start_offset,
                names_start < n,
                1 <= count <= 10000,
                names_start == start_offset + 36 + (count - 1) * 4,
                k <= count - 1,
                table_pos == start_offset + 36 + 4 * k,
                ends@.len() == k,
                forall|j: int| 0 <= j < k ==> ends@[j] as int == spec_end(buf, off + 36, j),
            decreases count - 1 - k,
        {
            let e = read_u32_le(data, table_pos);
            ends.push(e);
            assert(ends@[k as int] as int == spec_end(buf, off + 36, k as int));
            table_pos = table_pos + 4;
            k = k + 1;
        }

        // Name table.
        let mut names: Vec<String> = Vec::new();
        let ghost mut name_bytes: Seq<Seq<u8>> = Seq::empty();
        let mut name_pos = names_start;
        let mut k: usize = 0;
        while k < count
            invariant
                n == data@.len(),
                buf == data@,
                off == start_offset,
                n <= isize::MAX,
                k <= count,
                name_pos <= n,
                spec_names(buf, names_start as int, k as nat, false) == Some((name_bytes, name_pos as int)),
                names@.len() == k,
                name_bytes.len() == k,
                forall|j: int| 0 <= j < k ==> (#[trigger] names@[j])@ == spec_utf8_lossy(name_bytes[j]),
            decreases count - k,
        {
            if name_pos >= n {
                proof {
                    assert(spec_names(buf, names_start as int, (k + 1) as nat, false) is None);
                    lemma_names_none_grows(buf, names_start as int, (k + 1) as nat, count as nat, false);
                }
                return None;
            }
            let name_len = data[name_pos] as usize;
            if name_len == 0 || name_pos + 1 + name_len > n {
                proof {
                    assert(spec_names(buf, names_start as int, (k + 1) as nat, false) is None);
                    lemma_names_none_grows(buf, names_start as int, (k + 1) as nat, count as nat, false);
                }
                return None;
            }
            let name = utf8_lossy(&data[name_pos + 1..name_pos + 1 + name_len]);
            proof {
                name_bytes = name_bytes.push(buf.subrange(name_pos + 1, name_pos + 1 + name_len));
            }
            names.push(name);
            name_pos = name_pos + 1 + name_len;
            k = k + 1;
        }

        let data_start = start_offset as u64 + data_rel as u64 + 0x18;
        let mut resources: Vec<ResourceEntry> = Vec::new();
        let mut i: usize = 0;
        while i < count
            invariant
                1 <= count <= 10000,
                buf == data@,
                off == start_offset,
                count == resource_count,
                ends@.len() == count - 1,
                names@.len() == count,
                name_bytes.len() == count,
                n <= isize::MAX,
                start_offset < n,
                data_start == start_offset + data_rel + 0x18,
                forall|j: int| 0 <= j < count - 1 ==> ends@[j] as int == spec_end(buf, off + 36, j),
                forall|j: int| 0 <= j < count ==> (#[trigger] names@[j])@ == spec_utf8_lossy(name_bytes[j]),
                i <= count,
                entries_view(resources@) =~= spec_classic_resources(
                    buf,
                    off,
                    index,
                    name_bytes,
                    data_start as int,
                    data_len as int,
                ).take(i as int),
            decreases count - i,
        {
            let start_rel: u64 = if i == 0 {
                0
            } else {
                ends[i - 1] as u64
            };
            let end_rel: u64 = if i < ends.len() {
                ends[i] as u64
            } else {
                data_len as u64
            };
            let start = data_start + start_rel;
            let end = data_start + end_rel;
            let size = if end > start {
                end - start
            } else {
                0
            };
            let entry = ResourceEntry::new(names[i].clone(), index, start, size);
            assert(entry@ == spec_classic_resources(
                buf,
                off,
                index,
                name_bytes,
                data_start as int,
                data_len as int,
            )[i as int]);
            let ghost prev = resources@;
            resources.push(entry);
            assert(entries_view(resources@) =~= entries_view(prev).push(entry@));
            i = i + 1;
        }
        let header = SectionHeader {
            index,
            file_offset: start_offset as u64,
            marker,
            resource_count,
            one,
            data_rel,
            data_len,
            data_start,
        };
        let section = CbeSection { header, resources };
        proof {
            assert(section@.resources =~= spec_classic_resources(
                buf,
                off,
                index,
                name_bytes,
                data_start as int,
                data_len as int,
            ));
        }
        Some(section)
    }

    /// Parse the native section starting at `start_offset`.
    #[verifier::loop_isolation(false)]
    pub fn parse_native_section(data: &[u8], start_offset: usize, index: usize) -> (res: Option<
        CbeSection,
    >)
        requires
            data@.len() <= isize::MAX,
            spec_looks_like_native_resource_section(data@, start_offset as int),
        ensures
            match res {
                Some(s) => spec_parse_native_section(data@, start_offset as int, index) == Some(s@),
                None => spec_parse_native_section(data@, start_offset as int, index) is None,
            },
    {
        let ghost buf = data@;
        let ghost off = start_offset as int;
        let n = data.len();
        let marker = read_u32_le(data, start_offset + 8);
        let one = read_u32_le(data, start_offset + 12);
        let data_rel = read_u32_le(data, start_offset + 16);
        let data_len = read_u32_le(data, start_offset + 20);
        let resource_count = read_u32_le(data, start_offset + 24);
        let count = resource_count as usize;
        let names_start = start_offset + 32 + (count - 1) * 4;
        assert(names_start < n) by {
            reveal_with_fuel(spec_native_names_plausible, 2);
        }

        let mut ends: Vec<u32> = Vec::new();
        let mut table_pos = start_offset + 32;
        let mut k: usize = 0;
        while k < count - 1
            invariant
                k <= count - 1,
                table_pos == start_offset + 32 + 4 * k,
                ends@.len() == k,
                forall|j: int| 0 <= j < k ==> ends@[j] as int == spec_end(buf, off + 32, j),
            decreases count - 1 - k,
        {
            let e = read_u32_le(data, table_pos);
            ends.push(e);
            assert(ends@[k as int] as int == spec_end(buf, off + 32, k as int));
            table_pos = table_pos + 4;
            k = k + 1;
        }

        let mut names: Vec<String> = Vec::new();
        let ghost mut name_bytes: Seq<Seq<u8>> = Seq::empty();
        let mut name_pos = names_start;
        let mut k: usize = 0;
        while k < count
            invariant
                k <= count,
                name_pos <= n,
                spec_names(buf, names_start as int, k as nat, true) == Some((name_bytes, name_pos as int)),
                names@.len() == k,
                name_bytes.len() == k,
                forall|j: int| 0 <= j < k ==> (#[trigger] names@[j])@ == spec_utf8_lossy(name_bytes[j]),
                forall|j: int| 0 <= j < count - 1 ==> ends@[j] as int == spec_end(buf, off + 32, j),
                ends@.len() == count - 1,
            decreases count - k,
        {
            if name_pos >= n {
                proof {
                    assert(spec_names(buf, names_start as int, (k + 1) as nat, true) is None);
                    lemma_names_none_grows(buf, names_start as int, (k + 1) as nat, count as nat, true);
                }
                return None;
            }
            let length = data[name_pos] as usize;
            if name_pos + 1 + length > n {
                proof {
                    assert(spec_names(buf, names_start as int, (k + 1) as nat, true) is None);
                    lemma_names_none_grows(buf, names_start as int, (k + 1) as nat, count as nat, true);
                }
                return None;
            }
            let name = utf8_lossy(&data[name_pos + 1..name_pos + 1 + length]);
            proof {
                name_bytes = name_bytes.push(buf.subrange(name_pos + 1, name_pos + 1 + length));
            }
            names.push(name);
            name_pos = name_pos + 1 + length;
            k = k + 1;
        }

        let data_start = start_offset as u64 + data_rel as u64 + 0x14;
        let mut resources: Vec<ResourceEntry> = Vec::new();
        let mut i: usize = 0;
        while i < count
            invariant
                i <= count,
                names@.len() == count,
                name_bytes.len() == count,
                ends@.len() == count - 1,
                forall|j: int| 0 <= j < count - 1 ==> ends@[j] as int == spec_end(buf, off + 32, j),
                forall|j: int| 0 <= j < count ==> (#[trigger] names@[j])@ == spec_utf8_lossy(name_bytes[j]),
                forall|j: int|
                    0 <= j < i ==> #[trigger] spec_native_range_ok(
                        buf,
                        off + 32,
                        count as int,
                        data_start as int,
                        data_len as int,
                        j,
                    ),
                entries_view(resources@) =~= spec_native_resources(
                    buf,
                    off,
                    index,
                    name_bytes,
                    data_start as int,
                    data_len as int,
                ).take(i as int),
            decreases count - i,
        {
            let start_rel: u64 = if i == 0 {
                0
            } else {
                ends[i - 1] as u64
            };
            let end_rel: u64 = if i < ends.len() {
                ends[i] as u64
            } else {
                data_len as u64
            };
            assert(start_rel == spec_start_rel(buf, off + 32, i as int));
            if start_rel > end_rel || data_start + end_rel > n as u64 {
                assert(!spec_native_range_ok(buf, off + 32, count as int, data_start as int, data_len as int, i as int));
                assert(!spec_native_ranges_ok(buf, off + 32, count as int, data_start as int, data_len as int));
                return None;
            }
            assert(end_rel == spec_end_rel(buf, off + 32, count as int, data_len as int, i as int));
            assert(spec_native_range_ok(buf, off + 32, count as int, data_start as int, data_len as int, i as int));
            let entry = ResourceEntry::new(names[i].clone(), index, data_start + start_rel, end_rel - start_rel);
            assert(entry@ == spec_native_resources(
                buf,
                off,
                index,
                name_bytes,
                data_start as int,
                data_len as int,
            )[i as int]);
            let ghost prev = resources@;
            resources.push(entry);
            assert(entries_view(resources@) =~= entries_view(prev).push(entry@));
            i = i + 1;
        }
        assert(spec_native_ranges_ok(buf, off + 32, count as int, data_start as int, data_len as int));
        let header = SectionHeader {
            index,
            file_offset: start_offset as u64,
            marker,
            resource_count,
            one,
            data_rel,
            data_len,
            data_start,
        };
        let section = CbeSection { header, resources };
        proof {
            assert(section@.resources =~= spec_native_resources(
                buf,
                off,
                index,
                name_bytes,
                data_start as int,
                data_len as int,
            ));
        }
        Some(section)
    }

    /// Scan the whole buffer for sections, numbering them in order of their
    /// offsets. At each offset a classic section is tried first, then a
    /// native one.
    pub fn scan_sections(data: &[u8]) -> (res: Result<Vec<CbeSection>, ArchiveError>)
        requires
            data@.len() <= isize::MAX,
        ensures
            res matches Ok(v) && sections_view(v@) == spec_scan(data@, spec_scan_limit(data@.len() as int)),
    {
        let n = data.len();
        let limit = if n >= 40 {
            n - 40
        } else {
            0
        };
        let mut sections: Vec<CbeSection> = Vec::new();
        let mut off: usize = 0;
        while off < limit
            invariant
                n == data@.len(),
                n <= isize::MAX,
                limit <= n,
                off <= limit,
                sections_view(sections@) == spec_scan(data@, off as int),
            decreases limit - off,
        {
            let index = sections.len();
            let ghost prev = sections@;
            if Self::looks_like_resource_section(data, off) {
                if let Some(section) = Self::parse_section(data, off, index) {
                    sections.push(section);
                    assert(sections_view(sections@) =~= sections_view(prev).push(section@));
                }
            } else if Self::looks_like_native_resource_section(data, off) {
                if let Some(section) = Self::parse_native_section(data, off, index) {
                    sections.push(section);
                    assert(sections_view(sections@) =~= sections_view(prev).push(section@));
                }
            }
            assert(sections_view(sections@) =~= spec_scan(data@, off + 1));
            off = off + 1;
        }
        Ok(sections)
    }

    /// The archive's path.
    pub closed spec fn path_view(&self) -> Seq<char> {
        self.path@
    }

    /// The archive's bytes.
    pub closed spec fn data_view(&self) -> Seq<u8> {
        self.data@
    }

    /// The archive's sections.
    pub closed spec fn sections_spec(&self) -> Seq<CbeSectionView> {
        sections_view(self.sections@)
    }

    /// The archive's flat resource list.
    pub closed spec fn resources_spec(&self) -> Seq<ResourceEntryView> {
        entries_view(self.all_resources@)
    }

    /// Build an archive from the bytes of a CBE file: scan them for sections
    /// and list all their resources in order.
    pub fn from_bytes(path: String, data: Vec<u8>) -> (res: Self)
        requires
            data@.len() <= isize::MAX,
        ensures
            res.path_view() == path@,
            res.data_view() == data@,
            res.sections_spec() == spec_scan(data@, spec_scan_limit(data@.len() as int)),
            res.resources_spec() == spec_flatten(res.sections_spec()),
            forall|i: int| 0 <= i < res.sections_spec().len() ==> (#[trigger] res.sections_spec()[i]).header.index == i,
            forall|i: int, j: int|
                0 <= i < j < res.sections_spec().len() ==> (#[trigger] res.sections_spec()[i]).header.file_offset
                    < (#[trigger] res.sections_spec()[j]).header.file_offset,
    {
        proof {
            lemma_scan_numbers_sections_in_file_order(data@, spec_scan_limit(data@.len() as int));
        }
        let sections = match Self::scan_sections(data.as_slice()) {
            Ok(sections) => sections,
            Err(_) => Vec::new(),
        };
        let mut all_resources: Vec<ResourceEntry> = Vec::new();
        let mut i: usize = 0;
        while i < sections.len()
            invariant
                i <= sections@.len(),
                entries_view(all_resources@) =~= spec_flatten(sections_view(sections@).take(i as int)),
            decreases sections@.len() - i,
        {
            let section = &sections[i];
            let mut j: usize = 0;
            let ghost before = entries_view(all_resources@);
            while j < section.resources.len()
                invariant
                    j <= section.resources@.len(),
                    entries_view(all_resources@) =~= before + entries_view(section.resources@).take(j as int),
                decreases section.resources@.len() - j,
            {
                let entry = section.resources[j].clone_entry();
                let ghost prev = all_resources@;
                all_resources.push(entry);
                assert(entries_view(all_resources@) =~= entries_view(prev).push(entry@));
                j = j + 1;
            }
            assert(sections_view(sections@).take(i + 1).drop_last() =~= sections_view(sections@).take(i as int));
            i = i + 1;
        }
        assert(sections_view(sections@).take(sections@.len() as int) =~= sections_view(sections@));
        CbeArchive { path, data, sections, all_resources }
    }

    /// Build an archive from already parsed parts.
    pub fn with_parts(path: String, data: Vec<u8>, sections: Vec<CbeSection>, all_resources: Vec<
        ResourceEntry,
    >) -> (res: Self)
        ensures
            res.path_view() == path@,
            res.data_view() == data@,
            res.sections_spec() == sections_view(sections@),
            res.resources_spec() == entries_view(all_resources@),
    {
        CbeArchive { path, data, sections, all_resources }
    }

    /// Get the file path.
    pub fn path(&self) -> (res: &str)
        ensures
            res@ == self.path_view(),
    {
        self.path.as_str()
    }

    /// Get the complete CBE file image, including executable and data segments.
    pub fn bytes(&self) -> (res: &[u8])
        ensures
            res@ == self.data_view(),
    {
        self.data.as_slice()
    }

    /// Get all sections.
    pub fn sections(&self) -> (res: &[CbeSection])
        ensures
            sections_view(res@) == self.sections_spec(),
    {
        self.sections.as_slice()
    }

    /// Get all resources.
    pub fn resources(&self) -> (res: &[ResourceEntry])
        ensures
            entries_view(res@) == self.resources_spec(),
    {
        self.all_resources.as_slice()
    }

    /// Find the first resource with the given name.
    pub fn find_resource(&self, name: &str) -> (res: Option<&ResourceEntry>)
        ensures
            match res {
                Some(e) => exists|i: int|
                    0 <= i < self.resources_spec().len() && self.resources_spec()[i] == e@
                        && e.name@ == name@ && forall|j: int|
                        0 <= j < i ==> (#[trigger] self.resources_spec()[j]).name != name@,
                None => forall|j: int|
                    0 <= j < self.resources_spec().len() ==> (#[trigger] self.resources_spec()[j]).name
                        != name@,
            },
    {
        let mut i: usize = 0;
        while i < self.all_resources.len()
            invariant
                i <= self.all_resources@.len(),
                forall|j: int| 0 <= j < i ==> (#[trigger] self.resources_spec()[j]).name != name@,
            decreases self.all_resources@.len() - i,
        {
            if crate::text::strings_equal(self.all_resources[i].name.as_str(), name) {
                assert(self.resources_spec()[i as int] == self.all_resources@[i as int]@);
                return Some(&self.all_resources[i]);
            }
            assert(self.resources_spec()[i as int].name == self.all_resources@[i as int].name@);
            i = i + 1;
        }
        None
    }

    /// Get resources of a specific type, in archive order.
    pub fn resources_by_type(&self, resource_type: ResourceType) -> (res: Vec<&ResourceEntry>)
        ensures
            ref_entries_view(res@) == spec_filter_type(self.resources_spec(), resource_type),
    {
        let mut out: Vec<&ResourceEntry> = Vec::new();
        let mut i: usize = 0;
        while i < self.all_resources.len()
            invariant
                i <= self.all_resources@.len(),
                ref_entries_view(out@) =~= spec_filter_type(self.resources_spec().take(i as int), resource_type),
            decreases self.all_resources@.len() - i,
        {
            let entry = &self.all_resources[i];
            let ghost prev = out@;
            if entry.resource_type == resource_type {
                out.push(entry);
                assert(ref_entries_view(out@) =~= ref_entries_view(prev).push(entry@));
            }
            assert(self.resources_spec().take(i + 1).drop_last() =~= self.resources_spec().take(i as int));
            i = i + 1;
        }
        assert(self.resources_spec().take(self.all_resources@.len() as int) =~= self.resources_spec());
        out
    }

    /// Get all scene resources.
    pub fn scenes(&self) -> (res: Vec<&ResourceEntry>)
        ensures
            ref_entries_view(res@) == spec_filter_type(self.resources_spec(), ResourceType::Scene),
    {
        self.resources_by_type(ResourceType::Scene)
    }

    /// Get all script resources.
    pub fn scripts(&self) -> (res: Vec<&ResourceEntry>)
        ensures
            ref_entries_view(res@) == spec_filter_type(self.resources_spec(), ResourceType::Script),
    {
        self.resources_by_type(ResourceType::Script)
    }

    /// Get all audio resources.
    pub fn audio_resources(&self) -> (res: Vec<&ResourceEntry>)
        ensures
            ref_entries_view(res@) == spec_filter_type(self.resources_spec(), ResourceType::Audio),
    {
        self.resources_by_type(ResourceType::Audio)
    }

    /// Read raw bytes for a resource; an entry reaching past the end of the
    /// file gives `ResourceOutOfBounds`.
    pub fn read_resource_bytes(&self, entry: &ResourceEntry) -> (res: Result<&[u8], ArchiveError>)
        ensures
            entry.offset + entry.size <= self.data_view().len() ==> (res matches Ok(b) && b@
                == self.data_view().subrange(entry.offset as int, entry.offset + entry.size)),
            entry.offset + entry.size > self.data_view().len() ==> res == Err::<&[u8], ArchiveError>(
                ArchiveError::ResourceOutOfBounds,
            ),
    {
        let len = self.data.len() as u64;
        if entry.offset > len || entry.size > len - entry.offset {
            return Err(ArchiveError::ResourceOutOfBounds);
        }
        let start = entry.offset as usize;
        let end = (entry.offset + entry.size) as usize;
        Ok(&self.data.as_slice()[start..end])
    }

    /// Get a summary of the archive.
    pub fn summary(&self) -> (res: ArchiveSummary)
        ensures
            res.path@ == self.path_view(),
            res.file_size == self.data_view().len(),
            res.section_count == self.sections_spec().len(),
            res.resource_count == self.resources_spec().len(),
            spec_type_counts_ok(res.type_counts@, self.resources_spec()),
    {
        let mut type_counts: Vec<(ResourceType, usize)> = Vec::new();
        let mut i: usize = 0;
        while i < self.all_resources.len()
            invariant
                i <= self.all_resources@.len(),
                spec_type_counts_ok(type_counts@, self.resources_spec().take(i as int)),
            decreases self.all_resources@.len() - i,
        {
            let t = self.all_resources[i].resource_type;
            let ghost entries = self.resources_spec();
            let ghost prefix = entries.take(i as int);
            let ghost next = entries.take(i + 1);
            assert(next.drop_last() =~= prefix);
            assert(next.last().resource_type == t);
            let found = find_type_index(&type_counts, t);
            let ghost old_counts = type_counts@;
            if let Some(k) = found {
                let (key, count) = type_counts[k];
                assert(count == spec_count_type(prefix, key));
                assert(count < i + 1) by {
                    lemma_count_type_bound(prefix, key);
                }
                type_counts.set(k, (key, count + 1));
                assert forall|u: ResourceType| spec_count_type(next, u) > 0 implies exists|j: int|
                    0 <= j < type_counts@.len() && (#[trigger] type_counts@[j]).0 == u by {
                    if u != t {
                        assert(spec_count_type(prefix, u) > 0);
                        let j = choose|j: int| 0 <= j < old_counts.len() && (#[trigger] old_counts[j]).0 == u;
                        assert(type_counts@[j].0 == u);
                    } else {
                        assert(type_counts@[k as int].0 == u);
                    }
                }
            } else {
                assert(spec_count_type(prefix, t) == 0);
                type_counts.push((t, 1));
                assert forall|u: ResourceType| spec_count_type(next, u) > 0 implies exists|j: int|
                    0 <= j < type_counts@.len() && (#[trigger] type_counts@[j]).0 == u by {
                    if u != t {
                        assert(spec_count_type(prefix, u) > 0);
                        let j = choose|j: int| 0 <= j < old_counts.len() && (#[trigger] old_counts[j]).0 == u;
                        assert(type_counts@[j].0 == u);
                    } else {
                        assert(type_counts@[old_counts.len() as int].0 == u);
                    }
                }
            }
            i = i + 1;
        }
        assert(self.resources_spec().take(self.all_resources@.len() as int) =~= self.resources_spec());
        ArchiveSummary {
            path: self.path.clone(),
            file_size: self.data.len(),
            section_count: self.sections.len(),
            resource_count: self.all_resources.len(),
            type_counts,
        }
    }
}

} // verus!
