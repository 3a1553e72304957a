//! Guest resource package parsing (native, flat, and grouped layouts).
//!
//! A package is a little-endian header, a table of `count` nondecreasing
//! offsets into its data area, `count` length-prefixed names, and the data
//! area itself; resource `i` spans from its offset to the next one (the
//! last one to the end of the data area).
use vstd::prelude::*;

use crate::bytes::{read_u32_le, spec_u32_le};
use crate::text::{spec_utf8_lossy, utf8_lossy};

verus! {

/// A named resource taken out of a guest package.
#[derive(Debug)]
pub struct HostResource {
    pub name: String,
    pub data: Vec<u8>,
}

impl View for HostResource {
    type V = (Seq<char>, Seq<u8>);

    open spec fn view(&self) -> (Seq<char>, Seq<u8>) {
        (self.name@, self.data@)
    }
}

/// Views of a list of resources.
pub open spec fn resources_view(s: Seq<HostResource>) -> Seq<(Seq<char>, Seq<u8>)> {
    s.map_values(|r: HostResource| r@)
}

/// The little-endian `u32` at `offset`, if four bytes are there.
pub open spec fn spec_read_u32(data: Seq<u8>, offset: int) -> Option<u32> {
    if 0 <= offset && offset + 4 <= data.len() {
        Some(spec_u32_le(data, offset) as u32)
    } else {
        None
    }
}

/// Entry `k` of the offset table at `table`.
pub open spec fn spec_offset(data: Seq<u8>, table: int, k: int) -> int {
    spec_u32_le(data, table + 4 * k)
}

/// The offset table holds `count` entries, none past `data_size`, in
/// nondecreasing order.
pub open spec fn spec_offsets_valid(data: Seq<u8>, table: int, count: int, data_size: int) -> bool {
    &&& 0 <= table
    &&& table + 4 * count <= data.len()
    &&& forall|k: int| 0 <= k < count ==> #[trigger] spec_offset(data, table, k) <= data_size
    &&& forall|k: int| 0 < k < count ==> spec_offset(data, table, k - 1) <= #[trigger] spec_offset(data, table, k)
}

/// The byte spans of `n` length-prefixed names starting at `cursor`, and
/// where the names end; `None` when the data ends first.
pub open spec fn spec_names(data: Seq<u8>, cursor: int, n: nat) -> Option<(Seq<(int, int)>, int)>
    decreases n,
{
    if n == 0 {
        Some((Seq::empty(), cursor))
    } else {
        match spec_names(data, cursor, (n - 1) as nat) {
            None => None,
            Some((spans, c)) => if 0 <= c < data.len() && c + 1 + data[c] <= data.len() {
                Some((spans.push((c + 1, c + 1 + data[c])), c + 1 + data[c]))
            } else {
                None
            },
        }
    }
}

/// The resources of a package whose data area starts at `data_start`:
/// resource `i` is named by span `i` and runs from offset `i` to the next
/// offset, the last one to `data_size`.
pub open spec fn spec_entries(
    data: Seq<u8>,
    data_start: int,
    table: int,
    count: int,
    data_size: int,
    spans: Seq<(int, int)>,
) -> Seq<(Seq<char>, Seq<u8>)> {
    Seq::new(
        count as nat,
        |i: int|
            (
                spec_utf8_lossy(data.subrange(spans[i].0, spans[i].1)),
                data.subrange(
                    data_start + spec_offset(data, table, i),
                    data_start + if i + 1 < count {
                        spec_offset(data, table, i + 1)
                    } else {
                        data_size
                    },
                ),
            ),
    )
}

/// The resources of a native package at `start`: a header of at least 8
/// bytes whose third word is 1, a metadata block (data size, count, offset
/// table, names) and the data area after the metadata; malformed packages
/// have no resources.
pub open spec fn spec_native_package(data: Seq<u8>, start: int) -> Seq<(Seq<char>, Seq<u8>)> {
    let ms = start + 16;
    match (
        spec_read_u32(data, start),
        spec_read_u32(data, start + 8),
        spec_read_u32(data, start + 12),
        spec_read_u32(data, ms),
        spec_read_u32(data, ms + 4),
    ) {
        (Some(header), Some(version), Some(meta), Some(dsize), Some(count)) => {
            let data_start = ms + meta;
            let table = ms + 8;
            if header >= 8 && version == 1 && 1 <= count <= 10_000 && data_start + dsize <= data.len()
                && spec_offsets_valid(data, table, count as int, dsize as int) {
                match spec_names(data, table + 4 * count, count as nat) {
                    Some((spans, end)) => if end <= data_start {
                        spec_entries(data, data_start, table, count as int, dsize as int, spans)
                    } else {
                        Seq::empty()
                    },
                    None => Seq::empty(),
                }
            } else {
                Seq::empty()
            }
        },
        _ => Seq::empty(),
    }
}

/// A flat package at `start` (header size, data size, count, offset table
/// starting at 0, names, then the data area after the header): its
/// resources and where it ends, or `None` when it is malformed.
pub open spec fn spec_flat_package(data: Seq<u8>, start: int) -> Option<(Seq<(Seq<char>, Seq<u8>)>, int)> {
    match (spec_read_u32(data, start), spec_read_u32(data, start + 4), spec_read_u32(data, start + 8)) {
        (Some(header), Some(dsize), Some(count)) => {
            let data_start = start + 4 + header;
            let package_end = data_start + dsize;
            let table = start + 12;
            if header >= 8 && 1 <= count <= 10_000 && package_end <= data.len() && spec_offsets_valid(
                data,
                table,
                count as int,
                dsize as int,
            ) && spec_offset(data, table, 0) == 0 {
                match spec_names(data, table + 4 * count, count as nat) {
                    Some((spans, end)) => if end <= data_start {
                        Some((spec_entries(data, data_start, table, count as int, dsize as int, spans), package_end))
                    } else {
                        None
                    },
                    None => None,
                }
            } else {
                None
            }
        },
        _ => None,
    }
}

/// The resources of consecutive flat packages from `cursor` up to `limit`;
/// the walk stops at the first malformed package or one that does not end
/// after its start and within the limit.
pub open spec fn spec_grouped_from(data: Seq<u8>, cursor: int, limit: int) -> Seq<(Seq<char>, Seq<u8>)>
    decreases limit - cursor,
{
    if cursor >= limit {
        Seq::empty()
    } else {
        match spec_flat_package(data, cursor) {
            None => Seq::empty(),
            Some((group, next)) => if next <= cursor || next > limit {
                Seq::empty()
            } else {
                group + spec_grouped_from(data, next, limit)
            },
        }
    }
}

/// The resources of a grouped package: a header, then flat packages up to
/// `start + size` (or the end of the data).
pub open spec fn spec_grouped_package(data: Seq<u8>, start: int, size: int) -> Seq<(Seq<char>, Seq<u8>)> {
    match spec_read_u32(data, start) {
        None => Seq::empty(),
        Some(header) => if start + 4 + header > usize::MAX {
            Seq::empty()
        } else {
            let end = if start + size > usize::MAX {
                usize::MAX as int
            } else {
                start + size
            };
            let limit = if end < data.len() {
                end
            } else {
                data.len() as int
            };
            spec_grouped_from(data, start + 4 + header, limit)
        },
    }
}

/// The little-endian `u32` at `offset`, if four bytes are there.
fn read_u32_at(data: &[u8], offset: usize) -> (res: Option<u32>)
    ensures
        res == spec_read_u32(data@, offset as int),
{
    if offset <= data.len() && data.len() - offset >= 4 {
        Some(read_u32_le(data, offset))
    } else {
        None
    }
}

/// Read and check the offset table.
fn read_offsets(data: &[u8], table: usize, count: usize, data_size: usize) -> (res: Option<Vec<usize>>)
    requires
        count >= 1,
    ensures
        match res {
            Some(v) => spec_offsets_valid(data@, table as int, count as int, data_size as int) && v@.len() == count
                && forall|k: int| 0 <= k < count ==> #[trigger] v@[k] == spec_offset(data@, table as int, k),
            None => !spec_offsets_valid(data@, table as int, count as int, data_size as int),
        },
{
    let n = data.len();
    let mut offsets: Vec<usize> = Vec::new();
    let mut k: usize = 0;
    let mut cursor: usize = table;
    while k < count
        invariant
            n == data@.len(),
            k <= count,
            cursor == table + 4 * k,
            k > 0 ==> table + 4 * k <= data@.len(),
            offsets@.len() == k,
            forall|j: int| 0 <= j < k ==> #[trigger] offsets@[j] == spec_offset(data@, table as int, j),
            forall|j: int| 0 <= j < k ==> #[trigger] spec_offset(data@, table as int, j) <= data_size,
            forall|j: int|
                0 < j < k ==> spec_offset(data@, table as int, j - 1) <= #[trigger] spec_offset(data@, table as int, j),
        decreases count - k,
    {
        let value = match read_u32_at(data, cursor) {
            Some(v) => v as usize,
            None => {
                return None;
            },
        };
        assert(value == spec_offset(data@, table as int, k as int));
        if value > data_size || (k > 0 && offsets[k - 1] > value) {
            return None;
        }
        offsets.push(value);
        cursor = cursor + 4;
        k = k + 1;
    }
    Some(offsets)
}

/// Read `count` length-prefixed names from `cursor` as byte spans.
fn read_names(data: &[u8], cursor: usize, count: usize) -> (res: Option<(Vec<(usize, usize)>, usize)>)
    ensures
        match res {
            Some((spans, end)) => spec_names(data@, cursor as int, count as nat) matches Some((s, e)) && e == end
                && spans@.len() == s.len() && forall|k: int| 0 <= k < s.len() ==> (#[trigger] spans@[k].0 as int, spans@[k].1 as int) == s[k],
            None => spec_names(data@, cursor as int, count as nat) is None,
        },
{
    let mut spans: Vec<(usize, usize)> = Vec::new();
    let mut c: usize = cursor;
    let mut k: usize = 0;
    while k < count
        invariant
            k <= count,
            spec_names(data@, cursor as int, k as nat) matches Some((s, e)) && e == c && spans@.len() == s.len()
                && forall|j: int| 0 <= j < s.len() ==> (#[trigger] spans@[j].0 as int, spans@[j].1 as int) == s[j],
        decreases count - k,
    {
        if c >= data.len() {
            proof {
                lemma_names_none_grows(data@, cursor as int, (k + 1) as nat, count as nat);
            }
            return None;
        }
        let length = data[c] as usize;
        if data.len() - c - 1 < length {
            proof {
                lemma_names_none_grows(data@, cursor as int, (k + 1) as nat, count as nat);
            }
            return None;
        }
        let end = c + 1 + length;
        spans.push((c + 1, end));
        c = end;
        k = k + 1;
    }
    Some((spans, c))
}

proof fn lemma_names_none_grows(data: Seq<u8>, cursor: int, k: nat, n: nat)
    requires
        k <= n,
        spec_names(data, cursor, k) is None,
    ensures
        spec_names(data, cursor, n) is None,
    decreases n - k,
{
    if k < n {
        lemma_names_none_grows(data, cursor, k + 1, n);
    }
}

/// Build the resources from a checked offset table and name spans.
fn build_entries(
    data: &[u8],
    data_start: usize,
    offsets: &Vec<usize>,
    spans: &Vec<(usize, usize)>,
    data_size: usize,
    Ghost(table): Ghost<int>,
    Ghost(name_spans): Ghost<Seq<(int, int)>>,
) -> (res: Vec<HostResource>)
    requires
        data_start + data_size <= data.len(),
        spec_offsets_valid(data@, table, offsets@.len() as int, data_size as int),
        forall|k: int| 0 <= k < offsets@.len() ==> #[trigger] offsets@[k] == spec_offset(data@, table, k),
        spans@.len() == offsets@.len(),
        name_spans.len() == offsets@.len(),
        forall|k: int| 0 <= k < name_spans.len() ==> (#[trigger] spans@[k].0 as int, spans@[k].1 as int) == name_spans[k],
        forall|k: int| 0 <= k < spans@.len() ==> #[trigger] spans@[k].0 <= spans@[k].1 <= data@.len(),
    ensures
        resources_view(res@) == spec_entries(
            data@,
            data_start as int,
            table,
            offsets@.len() as int,
            data_size as int,
            name_spans,
        ),
{
    let count = offsets.len();
    let mut out: Vec<HostResource> = Vec::new();
    let mut i: usize = 0;
    let ghost expected = spec_entries(data@, data_start as int, table, count as int, data_size as int, name_spans);
    while i < count
        invariant
            count == offsets@.len(),
            i <= count,
            data_start + data_size <= data.len(),
            spec_offsets_valid(data@, table, count as int, data_size as int),
            forall|k: int| 0 <= k < count ==> #[trigger] offsets@[k] == spec_offset(data@, table, k),
            spans@.len() == count,
            forall|k: int| 0 <= k < count ==> (#[trigger] spans@[k].0 as int, spans@[k].1 as int) == name_spans[k],
            forall|k: int| 0 <= k < count ==> #[trigger] spans@[k].0 <= spans@[k].1 <= data@.len(),
            expected == spec_entries(data@, data_start as int, table, count as int, data_size as int, name_spans),
            out@.len() == i,
            forall|k: int| 0 <= k < i ==> #[trigger] out@[k]@ == expected[k],
        decreases count - i,
    {
        let (name_start, name_end) = spans[i];
        let name = utf8_lossy(&data[name_start..name_end]);
        let from = offsets[i];
        let to = if i + 1 < count {
            offsets[i + 1]
        } else {
            data_size
        };
        assert(spec_offset(data@, table, i as int) <= data_size);
        assert(i + 1 < count ==> spec_offset(data@, table, i as int) <= spec_offset(data@, table, i + 1));
        assert(i + 1 < count ==> spec_offset(data@, table, i + 1) <= data_size);
        let bytes = vstd::slice::slice_to_vec(&data[data_start + from..data_start + to]);
        assert(data@.subrange(name_start as int, name_end as int) =~= data@.subrange(
            name_spans[i as int].0,
            name_spans[i as int].1,
        ));
        out.push(HostResource { name, data: bytes });
        i = i + 1;
    }
    assert(resources_view(out@) =~= expected);
    out
}

/// An empty resource list.
fn no_resources() -> (res: Vec<HostResource>)
    ensures
        resources_view(res@) == Seq::<(Seq<char>, Seq<u8>)>::empty(),
{
    let res: Vec<HostResource> = Vec::new();
    assert(resources_view(res@) =~= Seq::<(Seq<char>, Seq<u8>)>::empty());
    res
}

/// The resources of a native guest package at `start`; a malformed package
/// has none.
pub fn native_package_resources(data: &[u8], start: usize) -> (res: Vec<HostResource>)
    requires
        data@.len() <= isize::MAX,
    ensures
        resources_view(res@) == spec_native_package(data@, start as int),
{
    let n = data.len();
    let header_size = match read_u32_at(data, start) {
        Some(v) => v,
        None => {
            return no_resources();
        },
    };
    let version = read_u32_at(data, start + 8);
    if header_size < 8 || !matches!(version, Some(1)) {
        return no_resources();
    }
    let metadata_size = match read_u32_at(data, start + 12) {
        Some(v) => v as usize,
        None => {
            return no_resources();
        },
    };
    let metadata_start = start + 16;
    let data_size = match read_u32_at(data, metadata_start) {
        Some(v) => v as usize,
        None => {
            return no_resources();
        },
    };
    let count = match read_u32_at(data, metadata_start + 4) {
        Some(v) => v as usize,
        None => {
            return no_resources();
        },
    };
    if count < 1 || count > 10_000 {
        return no_resources();
    }
    if metadata_size > data.len() || data_size > data.len() || metadata_start > data.len() - metadata_size
        || metadata_start + metadata_size > data.len() - data_size {
        return no_resources();
    }
    let data_start = metadata_start + metadata_size;
    let table = metadata_start + 8;
    let offsets = match read_offsets(data, table, count, data_size) {
        Some(v) => v,
        None => {
            return no_resources();
        },
    };
    let (spans, end) = match read_names(data, table + 4 * count, count) {
        Some(r) => r,
        None => {
            return no_resources();
        },
    };
    if end > data_start {
        return no_resources();
    }
    let ghost s = spec_names(data@, (table + 4 * count) as int, count as nat).unwrap().0;
    proof {
        lemma_names_in_bounds(data@, (table + 4 * count) as int, count as nat);
    }
    build_entries(data, data_start, &offsets, &spans, data_size, Ghost(table as int), Ghost(s))
}

proof fn lemma_names_in_bounds(data: Seq<u8>, cursor: int, n: nat)
    requires
        0 <= cursor,
        spec_names(data, cursor, n) is Some,
    ensures
        spec_names(data, cursor, n) matches Some((s, e)) && s.len() == n && cursor <= e && (n > 0 ==> e
            <= data.len()) && forall|k: int| 0 <= k < s.len() ==> 0 <= #[trigger] s[k].0 <= s[k].1 <= e,
    decreases n,
{
    if n > 0 {
        lemma_names_in_bounds(data, cursor, (n - 1) as nat);
    } else {
    }
}

/// A flat guest package at `start`: its resources and where it ends, or
/// `None` when it is malformed.
pub fn flat_package_resources(data: &[u8], start: usize) -> (res: Option<(Vec<HostResource>, usize)>)
    requires
        data@.len() <= isize::MAX,
    ensures
        match res {
            Some((v, end)) => spec_flat_package(data@, start as int) == Some((resources_view(v@), end as int)),
            None => spec_flat_package(data@, start as int) is None,
        },
{
    let n = data.len();
    let header_size = match read_u32_at(data, start) {
        Some(v) => v as usize,
        None => {
            return None;
        },
    };
    let data_size = match read_u32_at(data, start + 4) {
        Some(v) => v as usize,
        None => {
            return None;
        },
    };
    let count = match read_u32_at(data, start + 8) {
        Some(v) => v as usize,
        None => {
            return None;
        },
    };
    if header_size < 8 || count < 1 || count > 10_000 {
        return None;
    }
    if header_size > n - (start + 4) || data_size > n - (start + 4 + header_size) {
        return None;
    }
    let data_start = start + 4 + header_size;
    let package_end = data_start + data_size;
    let table = start + 12;
    let offsets = match read_offsets(data, table, count, data_size) {
        Some(v) => v,
        None => {
            return None;
        },
    };
    if offsets[0] != 0 {
        return None;
    }
    let (spans, end) = match read_names(data, table + 4 * count, count) {
        Some(r) => r,
        None => {
            return None;
        },
    };
    if end > data_start {
        return None;
    }
    let ghost s = spec_names(data@, (table + 4 * count) as int, count as nat).unwrap().0;
    proof {
        lemma_names_in_bounds(data@, (table + 4 * count) as int, count as nat);
    }
    let resources = build_entries(data, data_start, &offsets, &spans, data_size, Ghost(table as int), Ghost(s));
    Some((resources, package_end))
}

/// The resources of a grouped guest package: a header, then consecutive
/// flat packages up to `start + size` (or the end of the data).
pub fn grouped_package_resources(data: &[u8], start: usize, size: usize) -> (res: Vec<HostResource>)
    requires
        data@.len() <= isize::MAX,
    ensures
        resources_view(res@) == spec_grouped_package(data@, start as int, size as int),
{
    let n = data.len();
    let header_size = match read_u32_at(data, start) {
        Some(v) => v as usize,
        None => {
            return no_resources();
        },
    };
    if header_size > usize::MAX - (start + 4) {
        return no_resources();
    }
    let mut cursor = start + 4 + header_size;
    let end = if size > usize::MAX - start {
        usize::MAX
    } else {
        start + size
    };
    let limit = if end < n {
        end
    } else {
        n
    };
    let mut resources = no_resources();
    let ghost total = spec_grouped_package(data@, start as int, size as int);
    assert(resources_view(resources@) + spec_grouped_from(data@, cursor as int, limit as int) =~= total);
    while cursor < limit
        invariant
            data@.len() <= isize::MAX,
            limit <= data@.len(),
            total == spec_grouped_package(data@, start as int, size as int),
            resources_view(resources@) + spec_grouped_from(data@, cursor as int, limit as int) == total,
        decreases limit - cursor,
    {
        match flat_package_resources(data, cursor) {
            None => {
                assert(resources_view(resources@) + Seq::empty() =~= resources_view(resources@));
                return resources;
            },
            Some((group, next)) => {
                if next <= cursor || next > limit {
                    assert(resources_view(resources@) + Seq::empty() =~= resources_view(resources@));
                    return resources;
                }
                let mut group = group;
                let ghost before = resources@;
                let ghost added = group@;
                resources.append(&mut group);
                assert(resources_view(resources@) =~= resources_view(before) + resources_view(added));
                assert(resources_view(resources@) + spec_grouped_from(data@, next as int, limit as int)
                    =~= resources_view(before) + spec_grouped_from(data@, cursor as int, limit as int));
                cursor = next;
            },
        }
    }
    assert(resources_view(resources@) + Seq::empty() =~= resources_view(resources@));
    resources
}

} // verus!
