//! Sandboxed in-memory file system exposed through the guest file manager.
//!
//! Paths are normalized before use: backslashes become slashes, empty and
//! `.` components are dropped, `..` removes the previous component (a path
//! that climbs above the root is refused), and components are lowercased.
use vstd::prelude::*;

use crate::text::{
    chars_equal, chars_of, nested_view, spec_split, spec_to_lowercase, split_chars, string_from_chars,
    to_lowercase,
};

verus! {

/// An open file: its normalized path, the current position and the access
/// it was opened with.
pub ghost struct HandleView {
    pub path: Seq<char>,
    pub position: usize,
    pub readable: bool,
    pub writable: bool,
}

/// The file system: file contents by normalized path, the directories that
/// were created, and the handle slots.
pub ghost struct FsView {
    pub files: Map<Seq<char>, Seq<u8>>,
    pub directories: Set<Seq<char>>,
    pub handles: Seq<Option<HandleView>>,
}

/// Backslashes replaced by slashes.
pub open spec fn spec_replace_backslash(s: Seq<char>) -> Seq<char> {
    s.map_values(|c: char| if c == '\\' { '/' } else { c })
}

/// The components that remain after dropping empty and `.` components and
/// letting `..` remove the previous one; `None` when `..` has nothing to
/// remove. Kept components are lowercased.
pub open spec fn spec_normalize_components(parts: Seq<Seq<char>>) -> Option<Seq<Seq<char>>>
    decreases parts.len(),
{
    if parts.len() == 0 {
        Some(Seq::empty())
    } else {
        match spec_normalize_components(parts.drop_last()) {
            None => None,
            Some(kept) => {
                let p = parts.last();
                if p.len() == 0 || p == seq!['.'] {
                    Some(kept)
                } else if p == seq!['.', '.'] {
                    if kept.len() == 0 {
                        None
                    } else {
                        Some(kept.drop_last())
                    }
                } else {
                    Some(kept.push(spec_to_lowercase(p)))
                }
            },
        }
    }
}

/// Components joined with a separator.
pub open spec fn spec_join(parts: Seq<Seq<char>>, sep: char) -> Seq<char>
    decreases parts.len(),
{
    if parts.len() == 0 {
        Seq::empty()
    } else if parts.len() == 1 {
        parts[0]
    } else {
        spec_join(parts.drop_last(), sep).push(sep) + parts.last()
    }
}

/// A guest path normalized to the virtual root, or `None` when it climbs
/// above the root.
pub open spec fn spec_normalize_path(path: Seq<char>) -> Option<Seq<char>> {
    match spec_normalize_components(spec_split(spec_replace_backslash(path), '/')) {
        Some(parts) => Some(spec_join(parts, '/')),
        None => None,
    }
}

/// The mode a file is opened with: the given mode string, or one derived
/// from the guest's open flags when it is empty.
pub open spec fn spec_open_mode(mode: Seq<char>, flags: u32) -> Seq<char> {
    if mode.len() > 0 {
        mode
    } else if flags == 1 {
        seq!['w']
    } else if flags == 3 {
        seq!['r', '+']
    } else if flags & 0x10 != 0 {
        seq!['a', '+']
    } else if flags & 0x08 != 0 {
        seq!['w', '+']
    } else if flags & 0x04 != 0 {
        seq!['r', '+']
    } else {
        seq!['r']
    }
}

/// Whether a mode starts with the given character.
pub open spec fn spec_starts(mode: Seq<char>, c: char) -> bool {
    mode.len() > 0 && mode[0] == c
}

/// Whether a mode opens for reading.
pub open spec fn spec_mode_readable(mode: Seq<char>) -> bool {
    spec_starts(mode, 'r') || mode.contains('+')
}

/// Whether a mode opens for writing.
pub open spec fn spec_mode_writable(mode: Seq<char>) -> bool {
    spec_starts(mode, 'w') || spec_starts(mode, 'a') || mode.contains('+')
}

/// The first free handle slot.
pub open spec fn spec_first_free(handles: Seq<Option<HandleView>>) -> Option<int> {
    if exists|i: int| 0 <= i < handles.len() && handles[i] is None {
        Some(choose|i: int| 0 <= i < handles.len() && handles[i] is None && forall|j: int| 0 <= j < i ==> handles[j] is Some)
    } else {
        None
    }
}

/// Opening a file: the handle (or -1) and the file system afterwards. A
/// mode starting with `r` needs an existing file, `w` empties the file, and
/// any other writable mode creates it when missing; `a` starts at the end.
/// The file is created or emptied before a free handle slot is sought.
pub open spec fn spec_open(fs: FsView, path: Seq<char>, mode: Seq<char>, flags: u32) -> (i32, FsView) {
    match spec_normalize_path(path) {
        None => (-1i32, fs),
        Some(p) => {
            let m = spec_open_mode(mode, flags);
            let readable = spec_mode_readable(m);
            let writable = spec_mode_writable(m);
            if spec_starts(m, 'r') && !fs.files.contains_key(p) {
                (-1i32, fs)
            } else {
                let files = if spec_starts(m, 'w') {
                    fs.files.insert(p, Seq::empty())
                } else if writable && !fs.files.contains_key(p) {
                    fs.files.insert(p, Seq::empty())
                } else {
                    fs.files
                };
                match spec_first_free(fs.handles) {
                    None => (-1i32, FsView { files, ..fs }),
                    Some(h) => {
                        let position = if spec_starts(m, 'a') {
                            files[p].len() as usize
                        } else {
                            0
                        };
                        (
                            h as i32,
                            FsView {
                                files,
                                handles: fs.handles.update(
                                    h,
                                    Some(HandleView { path: p, position, readable, writable }),
                                ),
                                ..fs
                            },
                        )
                    },
                }
            }
        },
    }
}

/// The open handle in slot `handle`, if any.
pub open spec fn spec_handle(fs: FsView, handle: u32) -> Option<HandleView> {
    if handle < fs.handles.len() {
        fs.handles[handle as int]
    } else {
        None
    }
}

/// Closing a handle: 0 when it was open, else -1.
pub open spec fn spec_close(fs: FsView, handle: u32) -> (i32, FsView) {
    match spec_handle(fs, handle) {
        Some(_) => (0i32, FsView { handles: fs.handles.update(handle as int, None), ..fs }),
        None => (-1i32, fs),
    }
}

/// The handle in slot `handle` moved to `position`.
pub open spec fn spec_set_position(fs: FsView, handle: u32, position: usize) -> FsView {
    let o = fs.handles[handle as int].unwrap();
    FsView { handles: fs.handles.update(handle as int, Some(HandleView { position, ..o })), ..fs }
}

/// A read would start past the end of its file (the read is then refused by
/// the precondition of `read`).
pub open spec fn spec_read_past_end(fs: FsView, handle: u32) -> bool {
    match spec_handle(fs, handle) {
        Some(o) => o.readable && fs.files.contains_key(o.path) && o.position > fs.files[o.path].len(),
        None => false,
    }
}

/// Reading up to `size` bytes from the handle's position, which moves past
/// them.
pub open spec fn spec_read(fs: FsView, handle: u32, size: usize) -> (Option<Seq<u8>>, FsView) {
    match spec_handle(fs, handle) {
        Some(o) => if !o.readable || !fs.files.contains_key(o.path) {
            (None, fs)
        } else {
            let file = fs.files[o.path];
            let want = if o.position + size > usize::MAX {
                usize::MAX as int
            } else {
                o.position + size
            };
            let end = if want < file.len() {
                want
            } else {
                file.len() as int
            };
            (Some(file.subrange(o.position as int, end)), spec_set_position(fs, handle, end as usize))
        },
        None => (None, fs),
    }
}

/// `file` padded with zeros up to `len` bytes.
pub open spec fn spec_pad(file: Seq<u8>, len: int) -> Seq<u8> {
    if len > file.len() {
        file + Seq::new((len - file.len()) as nat, |i: int| 0u8)
    } else {
        file
    }
}

/// Writing `data` at the handle's position: a file shorter than the
/// position is first padded with zeros, then the bytes are stored and the
/// position moves past them.
pub open spec fn spec_write(fs: FsView, handle: u32, data: Seq<u8>) -> (Option<usize>, FsView) {
    match spec_handle(fs, handle) {
        Some(o) => if !o.writable || !fs.files.contains_key(o.path) {
            (None, fs)
        } else {
            let p = o.position as int;
            let padded = spec_pad(fs.files[o.path], p);
            if p + data.len() > usize::MAX {
                (None, FsView { files: fs.files.insert(o.path, padded), ..fs })
            } else {
                let end = p + data.len();
                let grown = spec_pad(padded, end);
                let stored = grown.subrange(0, p) + data + grown.subrange(end, grown.len() as int);
                (
                    Some(data.len() as usize),
                    spec_set_position(FsView { files: fs.files.insert(o.path, stored), ..fs }, handle, end as usize),
                )
            }
        },
        None => (None, fs),
    }
}

/// Moving the handle to `offset` from the start (origin 0), the current
/// position (1) or the end of the file (2).
pub open spec fn spec_seek(fs: FsView, handle: u32, offset: i32, origin: u32) -> (Option<usize>, FsView) {
    match spec_handle(fs, handle) {
        Some(o) => {
            let base: Option<usize> = if origin == 0 {
                Some(0usize)
            } else if origin == 1 {
                Some(o.position)
            } else if origin == 2 && fs.files.contains_key(o.path) {
                Some(fs.files[o.path].len() as usize)
            } else {
                None
            };
            match base {
                None => (None, fs),
                Some(b) => {
                    let target = (b as i64) as int + offset as int;
                    if target < i64::MIN || target > i64::MAX || target < 0 || target > usize::MAX {
                        (None, fs)
                    } else {
                        (Some(target as usize), spec_set_position(fs, handle, target as usize))
                    }
                },
            }
        },
        None => (None, fs),
    }
}

/// Whether a normalized directory path exists: the root, a created
/// directory, or the parent of some file.
pub open spec fn spec_directory_exists(fs: FsView, p: Seq<char>) -> bool {
    ||| p.len() == 0
    ||| fs.directories.contains(p)
    ||| exists|f: Seq<char>| #[trigger] fs.files.contains_key(f) && f.len() > p.len() && f.subrange(0, p.len() as int) == p
        && f[p.len() as int] == '/'
}

/// The directories named by successive prefixes of the components.
pub open spec fn spec_dir_chain(parts: Seq<Seq<char>>) -> Seq<Seq<char>>
    decreases parts.len(),
{
    if parts.len() == 0 {
        Seq::empty()
    } else {
        let prev = spec_dir_chain(parts.drop_last());
        let current = if prev.len() == 0 {
            Seq::empty()
        } else {
            prev.last()
        };
        let next = if current.len() > 0 {
            current.push('/')
        } else {
            current
        } + parts.last();
        prev.push(next)
    }
}

/// Creating a directory and all its parents; refused when the path climbs
/// above the root.
pub open spec fn spec_create_directory(fs: FsView, path: Seq<char>) -> (bool, FsView) {
    match spec_normalize_path(path) {
        None => (false, fs),
        Some(p) => (
            true,
            FsView { directories: fs.directories + spec_dir_chain(spec_split(p, '/')).to_set(), ..fs },
        ),
    }
}

/// Removing a file; true when it existed.
pub open spec fn spec_remove_file(fs: FsView, path: Seq<char>) -> (bool, FsView) {
    match spec_normalize_path(path) {
        Some(p) => if fs.files.contains_key(p) {
            (true, FsView { files: fs.files.remove(p), ..fs })
        } else {
            (false, fs)
        },
        None => (false, fs),
    }
}

/// A handle slot after its file moved from `from` to `to`.
pub open spec fn spec_renamed_slot(slot: Option<HandleView>, from: Seq<char>, to: Seq<char>) -> Option<HandleView> {
    match slot {
        Some(h) => if h.path == from {
            Some(HandleView { path: to, ..h })
        } else {
            slot
        },
        None => None,
    }
}

/// Renaming a file: its contents move to the new path (replacing any file
/// there) and open handles follow it; false when either path climbs above
/// the root or no file has the old path.
pub open spec fn spec_rename(fs: FsView, old_path: Seq<char>, new_path: Seq<char>) -> (bool, FsView) {
    match (spec_normalize_path(old_path), spec_normalize_path(new_path)) {
        (Some(from), Some(to)) => if fs.files.contains_key(from) {
            (
                true,
                FsView {
                    files: fs.files.remove(from).insert(to, fs.files[from]),
                    handles: fs.handles.map_values(|slot: Option<HandleView>| spec_renamed_slot(slot, from, to)),
                    ..fs
                },
            )
        } else {
            (false, fs)
        },
        _ => (false, fs),
    }
}

/// Contents of a list of (path, bytes) entries as a map.
pub open spec fn spec_files_map(entries: Seq<(Vec<char>, Vec<u8>)>) -> Map<Seq<char>, Seq<u8>>
    decreases entries.len(),
{
    if entries.len() == 0 {
        Map::empty()
    } else {
        spec_files_map(entries.drop_last()).insert(entries.last().0@, entries.last().1@)
    }
}

/// No two entries share a path.
pub open spec fn spec_unique_paths(entries: Seq<(Vec<char>, Vec<u8>)>) -> bool {
    forall|i: int, j: int| 0 <= i < j < entries.len() ==> #[trigger] entries[i].0@ != #[trigger] entries[j].0@
}

/// No directory is listed twice.
pub open spec fn spec_unique_dirs(dirs: Seq<Vec<char>>) -> bool {
    forall|i: int, j: int| 0 <= i < j < dirs.len() ==> #[trigger] dirs[i]@ != #[trigger] dirs[j]@
}

proof fn lemma_files_map_lookup(entries: Seq<(Vec<char>, Vec<u8>)>, k: Seq<char>)
    requires
        spec_unique_paths(entries),
    ensures
        spec_files_map(entries).contains_key(k) <==> exists|i: int| 0 <= i < entries.len() && #[trigger] entries[i].0@ == k,
        forall|i: int| 0 <= i < entries.len() && #[trigger] entries[i].0@ == k ==> spec_files_map(entries)[k] == entries[i].1@,
    decreases entries.len(),
{
    if entries.len() > 0 {
        let prev = entries.drop_last();
        assert forall|i: int, j: int| 0 <= i < j < prev.len() implies #[trigger] prev[i].0@ != #[trigger] prev[j].0@ by {
            assert(prev[i] == entries[i] && prev[j] == entries[j]);
        }
        lemma_files_map_lookup(prev, k);
        if exists|i: int| 0 <= i < entries.len() && #[trigger] entries[i].0@ == k {
            let i = choose|i: int| 0 <= i < entries.len() && #[trigger] entries[i].0@ == k;
            if i < entries.len() - 1 {
                assert(prev[i] == entries[i]);
            }
        }
        assert forall|i: int| 0 <= i < entries.len() && #[trigger] entries[i].0@ == k implies spec_files_map(entries)[k]
            == entries[i].1@ by {
            if i < entries.len() - 1 {
                assert(prev[i] == entries[i]);
                assert(entries[i].0@ != entries[entries.len() - 1].0@);
            }
        }
        assert forall|i: int| 0 <= i < prev.len() && #[trigger] prev[i].0@ == k implies entries[i].0@ == k by {
            assert(prev[i] == entries[i]);
        }
    }
}

proof fn lemma_files_map_update(entries: Seq<(Vec<char>, Vec<u8>)>, i: int, entry: (Vec<char>, Vec<u8>))
    requires
        spec_unique_paths(entries),
        0 <= i < entries.len(),
        entry.0@ == entries[i].0@,
    ensures
        spec_unique_paths(entries.update(i, entry)),
        spec_files_map(entries.update(i, entry)) == spec_files_map(entries).insert(entry.0@, entry.1@),
{
    let updated = entries.update(i, entry);
    let target = spec_files_map(entries).insert(entry.0@, entry.1@);
    lemma_files_map_lookup(entries, entry.0@);
    assert forall|a: int, b: int| 0 <= a < b < updated.len() implies #[trigger] updated[a].0@ != #[trigger] updated[b].0@ by {
        assert(entries[a].0@ != entries[b].0@);
    }
    assert forall|k: Seq<char>| #[trigger] spec_files_map(updated).contains_key(k) <==> target.contains_key(k) by {
        lemma_files_map_lookup(entries, k);
        lemma_files_map_lookup(updated, k);
        if k == entry.0@ {
            assert(updated[i].0@ == k);
        } else if spec_files_map(entries).contains_key(k) {
            let j = choose|j: int| 0 <= j < entries.len() && #[trigger] entries[j].0@ == k;
            assert(updated[j].0@ == k);
        } else if spec_files_map(updated).contains_key(k) {
            let j = choose|j: int| 0 <= j < updated.len() && #[trigger] updated[j].0@ == k;
            assert(entries[j].0@ == k);
        }
    }
    assert forall|k: Seq<char>| #[trigger] target.contains_key(k) implies spec_files_map(updated)[k] == target[k] by {
        lemma_files_map_lookup(entries, k);
        lemma_files_map_lookup(updated, k);
        if k == entry.0@ {
            assert(updated[i].0@ == k);
        } else {
            let j = choose|j: int| 0 <= j < entries.len() && #[trigger] entries[j].0@ == k;
            assert(updated[j].0@ == k);
        }
    }
    assert(spec_files_map(updated) =~= target);
}

proof fn lemma_files_map_push(entries: Seq<(Vec<char>, Vec<u8>)>, entry: (Vec<char>, Vec<u8>))
    requires
        spec_unique_paths(entries),
        !spec_files_map(entries).contains_key(entry.0@),
    ensures
        spec_unique_paths(entries.push(entry)),
        spec_files_map(entries.push(entry)) == spec_files_map(entries).insert(entry.0@, entry.1@),
{
    let pushed = entries.push(entry);
    assert(pushed.drop_last() =~= entries);
    lemma_files_map_lookup(entries, entry.0@);
    assert forall|i: int, j: int| 0 <= i < j < pushed.len() implies #[trigger] pushed[i].0@ != #[trigger] pushed[j].0@ by {
        if j == entries.len() {
            assert(pushed[i] == entries[i]);
        } else {
            assert(pushed[i] == entries[i] && pushed[j] == entries[j]);
        }
    }
}

proof fn lemma_files_map_remove(entries: Seq<(Vec<char>, Vec<u8>)>, i: int)
    requires
        spec_unique_paths(entries),
        0 <= i < entries.len(),
    ensures
        spec_unique_paths(entries.remove(i)),
        spec_files_map(entries.remove(i)) == spec_files_map(entries).remove(entries[i].0@),
{
    let removed = entries.remove(i);
    assert forall|a: int, b: int| 0 <= a < b < removed.len() implies #[trigger] removed[a].0@ != #[trigger] removed[b].0@ by {
        let a2 = if a < i { a } else { a + 1 };
        let b2 = if b < i { b } else { b + 1 };
        assert(removed[a] == entries[a2] && removed[b] == entries[b2]);
    }
    let target = spec_files_map(entries).remove(entries[i].0@);
    assert forall|k: Seq<char>| #[trigger] spec_files_map(removed).contains_key(k) <==> target.contains_key(k) by {
        lemma_files_map_lookup(entries, k);
        lemma_files_map_lookup(removed, k);
        if spec_files_map(removed).contains_key(k) {
            let j = choose|j: int| 0 <= j < removed.len() && #[trigger] removed[j].0@ == k;
            let j2 = if j < i { j } else { j + 1 };
            assert(removed[j] == entries[j2]);
            assert(entries[j2].0@ == k);
            assert(entries[j2].0@ != entries[i].0@);
        } else if spec_files_map(entries).contains_key(k) && k != entries[i].0@ {
            let j = choose|j: int| 0 <= j < entries.len() && #[trigger] entries[j].0@ == k;
            let j2 = if j < i { j } else { j - 1 };
            assert(removed[j2] == entries[j]);
        }
    }
    assert forall|k: Seq<char>| #[trigger] target.contains_key(k) implies spec_files_map(removed)[k] == target[k] by {
        lemma_files_map_lookup(entries, k);
        lemma_files_map_lookup(removed, k);
        let j = choose|j: int| 0 <= j < entries.len() && #[trigger] entries[j].0@ == k;
        let j2 = if j < i { j } else { j - 1 };
        assert(removed[j2] == entries[j]);
        assert(removed[j2].0@ == k);
    }
    assert(spec_files_map(removed) =~= spec_files_map(entries).remove(entries[i].0@));
}

/// Backslashes replaced by slashes.
fn replace_backslash(s: &[char]) -> (res: Vec<char>)
    ensures
        res@ == spec_replace_backslash(s@),
{
    let mut out: Vec<char> = Vec::new();
    let mut i: usize = 0;
    while i < s.len()
        invariant
            i <= s@.len(),
            out@ =~= spec_replace_backslash(s@.subrange(0, i as int)),
        decreases s@.len() - i,
    {
        let c = s[i];
        out.push(if c == '\\' { '/' } else { c });
        i = i + 1;
    }
    assert(s@.subrange(0, s@.len() as int) =~= s@);
    out
}

/// A component lowercased by `str::to_lowercase`.
fn lowercase_chars(p: &[char]) -> (res: Vec<char>)
    ensures
        res@ == spec_to_lowercase(p@),
{
    let text = string_from_chars(p);
    let lower = to_lowercase(text.as_str());
    chars_of(lower.as_str())
}

/// Components joined with a separator.
fn join_chars(parts: &Vec<Vec<char>>, sep: char) -> (res: Vec<char>)
    ensures
        res@ == spec_join(nested_view(parts@), sep),
{
    let mut out: Vec<char> = Vec::new();
    let mut i: usize = 0;
    while i < parts.len()
        invariant
            i <= parts@.len(),
            out@ == spec_join(nested_view(parts@).subrange(0, i as int), sep),
        decreases parts@.len() - i,
    {
        let ghost prev = out@;
        if i > 0 {
            out.push(sep);
        }
        let part = &parts[i];
        let mut j: usize = 0;
        let ghost base = out@;
        while j < part.len()
            invariant
                j <= part@.len(),
                out@ =~= base + part@.subrange(0, j as int),
            decreases part@.len() - j,
        {
            out.push(part[j]);
            j = j + 1;
        }
        proof {
            let v = nested_view(parts@);
            assert(part@.subrange(0, part@.len() as int) =~= part@);
            assert(v.subrange(0, i + 1).drop_last() =~= v.subrange(0, i as int));
            assert(v[i as int] == part@);
            if i == 0 {
                assert(out@ =~= v.subrange(0, 1)[0]);
            }
        }
        i = i + 1;
    }
    assert(nested_view(parts@).subrange(0, parts@.len() as int) =~= nested_view(parts@));
    out
}

proof fn lemma_components_none_grows(parts: Seq<Seq<char>>, k: int)
    requires
        0 <= k <= parts.len(),
        spec_normalize_components(parts.subrange(0, k)) is None,
    ensures
        spec_normalize_components(parts) is None,
    decreases parts.len() - k,
{
    if k < parts.len() {
        assert(parts.subrange(0, k + 1).drop_last() =~= parts.subrange(0, k));
        lemma_components_none_grows(parts, k + 1);
    } else {
        assert(parts.subrange(0, k) =~= parts);
    }
}

/// A guest path normalized to the virtual root, as characters.
pub fn normalize_path_chars(path: &[char]) -> (res: Option<Vec<char>>)
    ensures
        match res {
            Some(v) => spec_normalize_path(path@) == Some(v@),
            None => spec_normalize_path(path@) is None,
        },
{
    let replaced = replace_backslash(path);
    let parts = split_chars(replaced.as_slice(), '/');
    let ghost pv = nested_view(parts@);
    let mut kept: Vec<Vec<char>> = Vec::new();
    let mut i: usize = 0;
    assert(pv.subrange(0, 0) =~= Seq::<Seq<char>>::empty());
    assert(nested_view(kept@) =~= Seq::<Seq<char>>::empty());
    while i < parts.len()
        invariant
            pv == nested_view(parts@),
            pv == spec_split(spec_replace_backslash(path@), '/'),
            i <= parts@.len(),
            spec_normalize_components(pv.subrange(0, i as int)) == Some(nested_view(kept@)),
        decreases parts@.len() - i,
    {
        let part = &parts[i];
        assert(pv.subrange(0, i + 1).drop_last() =~= pv.subrange(0, i as int));
        assert(pv.subrange(0, i + 1).last() == part@);
        let ghost prev = nested_view(kept@);
        if part.len() == 0 || (part.len() == 1 && part[0] == '.') {
            assert(part@.len() == 0 || part@ =~= seq!['.']);
        } else if part.len() == 2 && part[0] == '.' && part[1] == '.' {
            assert(part@ =~= seq!['.', '.']);
            if kept.len() == 0 {
                proof {
                    lemma_components_none_grows(pv, i + 1);
                }
                return None;
            }
            kept.pop();
            assert(nested_view(kept@) =~= prev.drop_last());
        } else {
            assert(part@ != seq!['.']) by {
                if part@.len() == 1 {
                    assert(part@[0] != '.');
                }
            }
            assert(part@ != seq!['.', '.']) by {
                if part@.len() == 2 {
                    assert(part@[0] != '.' || part@[1] != '.');
                }
            }
            let lower = lowercase_chars(part.as_slice());
            kept.push(lower);
            assert(nested_view(kept@) =~= prev.push(spec_to_lowercase(part@)));
        }
        i = i + 1;
    }
    assert(pv.subrange(0, parts@.len() as int) =~= pv);
    Some(join_chars(&kept, '/'))
}

/// A guest path normalized to the virtual root, or `None` when it climbs
/// above the root.
pub fn normalize_path(path: &str) -> (res: Option<String>)
    ensures
        match res {
            Some(v) => spec_normalize_path(path@) == Some(v@),
            None => spec_normalize_path(path@) is None,
        },
{
    let chars = chars_of(path);
    match normalize_path_chars(chars.as_slice()) {
        Some(v) => Some(string_from_chars(v.as_slice())),
        None => None,
    }
}

/// An open file.
#[derive(Debug)]
struct VirtualFileHandle {
    path: Vec<char>,
    position: usize,
    readable: bool,
    writable: bool,
}

impl View for VirtualFileHandle {
    type V = HandleView;

    closed spec fn view(&self) -> HandleView {
        HandleView { path: self.path@, position: self.position, readable: self.readable, writable: self.writable }
    }
}

/// View of a handle slot.
spec fn slot_view(slot: Option<VirtualFileHandle>) -> Option<HandleView> {
    match slot {
        Some(o) => Some(o@),
        None => None,
    }
}

/// Sandboxed in-memory file system.
#[derive(Debug)]
pub struct VirtualFileSystem {
    files: Vec<(Vec<char>, Vec<u8>)>,
    directories: Vec<Vec<char>>,
    handles: Vec<Option<VirtualFileHandle>>,
}

impl View for VirtualFileSystem {
    type V = FsView;

    closed spec fn view(&self) -> FsView {
        FsView {
            files: spec_files_map(self.files@),
            directories: self.directories@.map_values(|d: Vec<char>| d@).to_set(),
            handles: self.handles@.map_values(|slot: Option<VirtualFileHandle>| slot_view(slot)),
        }
    }
}

impl VirtualFileSystem {
    /// No path is stored twice.
    pub closed spec fn wf(&self) -> bool {
        spec_unique_paths(self.files@)
    }

    /// An empty file system with the root directory and 16 free handles.
    pub fn new() -> (res: Self)
        ensures
            res.wf(),
            res@.files == Map::<Seq<char>, Seq<u8>>::empty(),
            res@.directories == set![Seq::<char>::empty()],
            res@.handles == Seq::new(16, |i: int| None::<HandleView>),
    {
        let mut directories: Vec<Vec<char>> = Vec::new();
        directories.push(Vec::new());
        let mut handles: Vec<Option<VirtualFileHandle>> = Vec::new();
        let mut k: usize = 0;
        while k < 16
            invariant
                k <= 16,
                handles@.len() == k,
                forall|i: int| 0 <= i < k ==> #[trigger] handles@[i] is None,
            decreases 16 - k,
        {
            handles.push(None);
            k = k + 1;
        }
        let res = VirtualFileSystem { files: Vec::new(), directories, handles };
        proof {
            assert(res@.files =~= Map::<Seq<char>, Seq<u8>>::empty());
            assert(res.directories@.map_values(|d: Vec<char>| d@) =~= seq![Seq::<char>::empty()]);
            assert(res@.directories =~= set![Seq::<char>::empty()]) by {
                let dv = res.directories@.map_values(|d: Vec<char>| d@);
                assert forall|x: Seq<char>| dv.to_set().contains(x) <==> set![Seq::<char>::empty()].contains(x) by {
                    if x == Seq::<char>::empty() {
                        assert(dv[0] == x);
                    }
                }
            }
            assert(res@.handles =~= Seq::new(16, |i: int| None::<HandleView>));
        }
        res
    }

    /// Index of the file stored under a normalized path.
    #[verifier::loop_isolation(false)]
    fn find_file(&self, path: &[char]) -> (res: Option<usize>)
        requires
            self.wf(),
        ensures
            match res {
                Some(i) => i < self.files@.len() && self.files@[i as int].0@ == path@ && self@.files.contains_key(path@)
                    && self@.files[path@] == self.files@[i as int].1@,
                None => !self@.files.contains_key(path@),
            },
    {
        proof {
            lemma_files_map_lookup(self.files@, path@);
        }
        let mut i: usize = 0;
        while i < self.files.len()
            invariant
                i <= self.files@.len(),
                forall|j: int| 0 <= j < i ==> #[trigger] self.files@[j].0@ != path@,
            decreases self.files@.len() - i,
        {
            if chars_equal(self.files[i].0.as_slice(), path) {
                return Some(i);
            }
            i = i + 1;
        }
        None
    }

    /// The handle in slot `handle`, if it is open.
    fn slot(&self, handle: u32) -> (res: Option<&VirtualFileHandle>)
        ensures
            match res {
                Some(o) => spec_handle(self@, handle) == Some(o@),
                None => spec_handle(self@, handle) is None,
            },
    {
        if (handle as usize) < self.handles.len() {
            match &self.handles[handle as usize] {
                Some(o) => Some(o),
                None => None,
            }
        } else {
            None
        }
    }

    /// Store `data` under a normalized path, replacing any earlier contents.
    fn put_file(&mut self, path: Vec<char>, data: Vec<u8>)
        requires
            old(self).wf(),
        ensures
            final(self).wf(),
            final(self)@ == (FsView { files: old(self)@.files.insert(path@, data@), ..old(self)@ }),
    {
        match self.find_file(path.as_slice()) {
            Some(i) => {
                proof {
                    lemma_files_map_update(self.files@, i as int, (path, data));
                }
                self.files.set(i, (path, data));
            },
            None => {
                proof {
                    lemma_files_map_push(self.files@, (path, data));
                }
                self.files.push((path, data));
            },
        }
    }

    /// Move the open handle in slot `handle` to `position`.
    fn set_position(&mut self, handle: u32, position: usize)
        requires
            spec_handle(old(self)@, handle) is Some,
        ensures
            final(self).files@ == old(self).files@,
            final(self).directories@ == old(self).directories@,
            final(self)@ == spec_set_position(old(self)@, handle, position),
    {
        let h = handle as usize;
        let (path, readable, writable) = match &self.handles[h] {
            Some(o) => (vstd::slice::slice_to_vec(o.path.as_slice()), o.readable, o.writable),
            None => {
                return;
            },
        };
        self.handles.set(h, Some(VirtualFileHandle { path, position, readable, writable }));
        proof {
            let target = spec_set_position(old(self)@, handle, position);
            assert(self@.handles =~= target.handles);
        }
    }

    /// Open a file by guest path and mode (or open flags when the mode is
    /// empty); returns the handle or -1.
    pub fn open(&mut self, path: &str, mode: &str, flags: u32) -> (res: i32)
        requires
            old(self).wf(),
        ensures
            final(self).wf(),
            (res, final(self)@) == spec_open(old(self)@, path@, mode@, flags),
    {
        let chars = chars_of(path);
        let p = match normalize_path_chars(chars.as_slice()) {
            Some(v) => v,
            None => {
                return -1;
            },
        };
        let given = chars_of(mode);
        let m: Vec<char> = if given.len() > 0 {
            given
        } else if flags == 1 {
            vec!['w']
        } else if flags == 3 {
            vec!['r', '+']
        } else if flags & 0x10 != 0 {
            vec!['a', '+']
        } else if flags & 0x08 != 0 {
            vec!['w', '+']
        } else if flags & 0x04 != 0 {
            vec!['r', '+']
        } else {
            vec!['r']
        };
        assert(m@ =~= spec_open_mode(mode@, flags));
        let starts_r = m.len() > 0 && m[0] == 'r';
        let starts_w = m.len() > 0 && m[0] == 'w';
        let starts_a = m.len() > 0 && m[0] == 'a';
        let mut has_plus = false;
        let mut k: usize = 0;
        while k < m.len()
            invariant
                k <= m@.len(),
                has_plus == m@.subrange(0, k as int).contains('+'),
            decreases m@.len() - k,
        {
            proof {
                let sub = m@.subrange(0, k + 1);
                if sub.contains('+') {
                    let j = choose|j: int| 0 <= j < sub.len() && sub[j] == '+';
                    if j < k {
                        assert(m@.subrange(0, k as int)[j] == '+');
                    }
                }
                if m@.subrange(0, k as int).contains('+') {
                    let j = choose|j: int| 0 <= j < k && m@.subrange(0, k as int)[j] == '+';
                    assert(sub[j] == '+');
                }
                if m@[k as int] == '+' {
                    assert(sub[k as int] == '+');
                }
            }
            if m[k] == '+' {
                has_plus = true;
            }
            k = k + 1;
        }
        assert(m@.subrange(0, m@.len() as int) =~= m@);
        let readable = starts_r || has_plus;
        let writable = starts_w || starts_a || has_plus;
        let existing = self.find_file(p.as_slice());
        if starts_r && existing.is_none() {
            return -1;
        }
        if starts_w || (writable && existing.is_none()) {
            let key = vstd::slice::slice_to_vec(p.as_slice());
            self.put_file(key, Vec::new());
        }
        let ghost files_now = self@.files;
        let mut slot: usize = 0;
        while slot < self.handles.len() && self.handles[slot].is_some()
            invariant
                slot <= self.handles@.len(),
                forall|j: int| 0 <= j < slot ==> #[trigger] self.handles@[j] is Some,
            decreases self.handles@.len() - slot,
        {
            slot = slot + 1;
        }
        proof {
            let hv = self@.handles;
            assert forall|j: int| 0 <= j < slot implies #[trigger] hv[j] is Some by {
                assert(self.handles@[j] is Some);
            }
        }
        if slot == self.handles.len() {
            proof {
                let hv = self@.handles;
                assert(!(exists|i: int| 0 <= i < hv.len() && hv[i] is None)) by {
                    assert forall|i: int| 0 <= i < hv.len() implies hv[i] is Some by {
                        assert(self.handles@[i] is Some);
                    }
                }
            }
            return -1;
        }
        proof {
            let hv = self@.handles;
            assert(hv[slot as int] is None);
            let c = choose|i: int| 0 <= i < hv.len() && hv[i] is None && forall|j: int| 0 <= j < i ==> hv[j] is Some;
            if c < slot {
                assert(self.handles@[c] is Some);
            }
            if slot < c {
                assert(hv[slot as int] is Some);
            }
        }
        let position = if starts_a {
            match self.find_file(p.as_slice()) {
                Some(i) => self.files[i].1.len(),
                None => 0,
            }
        } else {
            0
        };
        let ghost before = self@;
        self.handles.set(slot, Some(VirtualFileHandle { path: p, position, readable, writable }));
        proof {
            assert(self@.handles =~= before.handles.update(
                slot as int,
                Some(HandleView { path: p@, position, readable, writable }),
            ));
        }
        slot as i32
    }

    /// Close a handle: 0 when it was open, else -1.
    pub fn close(&mut self, handle: u32) -> (res: i32)
        requires
            old(self).wf(),
        ensures
            final(self).wf(),
            (res, final(self)@) == spec_close(old(self)@, handle),
    {
        if (handle as usize) < self.handles.len() && self.handles[handle as usize].is_some() {
            self.handles.set(handle as usize, None);
            proof {
                assert(self@.handles =~= old(self)@.handles.update(handle as int, None));
            }
            0
        } else {
            -1
        }
    }

    /// Whether the handle is open for reading at a position past the end of
    /// its file, where no read is possible.
    pub fn reads_past_end(&self, handle: u32) -> (res: bool)
        requires
            self.wf(),
        ensures
            res == spec_read_past_end(self@, handle),
    {
        match self.slot(handle) {
            Some(o) => {
                if !o.readable {
                    return false;
                }
                match self.find_file(o.path.as_slice()) {
                    Some(i) => o.position > self.files[i].1.len(),
                    None => false,
                }
            },
            None => false,
        }
    }

    /// Read up to `size` bytes at the handle's position.
    pub fn read(&mut self, handle: u32, size: usize) -> (res: Option<Vec<u8>>)
        requires
            old(self).wf(),
            !spec_read_past_end(old(self)@, handle),
        ensures
            final(self).wf(),
            (match res {
                Some(v) => Some(v@),
                None => None,
            }, final(self)@) == spec_read(old(self)@, handle, size),
    {
        let (index, position) = match self.slot(handle) {
            Some(o) => {
                if !o.readable {
                    return None;
                }
                match self.find_file(o.path.as_slice()) {
                    Some(i) => (i, o.position),
                    None => {
                        return None;
                    },
                }
            },
            None => {
                return None;
            },
        };
        let file = &self.files[index].1;
        let want = if size > usize::MAX - position {
            usize::MAX
        } else {
            position + size
        };
        let end = if want < file.len() {
            want
        } else {
            file.len()
        };
        let data = vstd::slice::slice_to_vec(&file.as_slice()[position..end]);
        self.set_position(handle, end);
        Some(data)
    }

    /// Write `data` at the handle's position; returns the number of bytes
    /// written.
    pub fn write(&mut self, handle: u32, data: &[u8]) -> (res: Option<usize>)
        requires
            old(self).wf(),
        ensures
            final(self).wf(),
            (res, final(self)@) == spec_write(old(self)@, handle, data@),
    {
        let (index, position, path) = match self.slot(handle) {
            Some(o) => {
                if !o.writable {
                    return None;
                }
                match self.find_file(o.path.as_slice()) {
                    Some(i) => (i, o.position, vstd::slice::slice_to_vec(o.path.as_slice())),
                    None => {
                        return None;
                    },
                }
            },
            None => {
                return None;
            },
        };
        let mut file = vstd::slice::slice_to_vec(self.files[index].1.as_slice());
        pad_to(&mut file, position);
        if data.len() > usize::MAX - position {
            self.put_file(path, file);
            return None;
        }
        let end = position + data.len();
        pad_to(&mut file, end);
        let ghost grown = file@;
        let mut k: usize = 0;
        while k < data.len()
            invariant
                end == position + data@.len(),
                end <= file@.len(),
                file@.len() == grown.len(),
                k <= data@.len(),
                forall|j: int| 0 <= j < grown.len() ==> #[trigger] file@[j] == if position <= j < position + k {
                    data@[j - position]
                } else {
                    grown[j]
                },
            decreases data@.len() - k,
        {
            file.set(position + k, data[k]);
            k = k + 1;
        }
        assert(file@ =~= grown.subrange(0, position as int) + data@ + grown.subrange(end as int, grown.len() as int));
        self.put_file(path, file);
        self.set_position(handle, end);
        Some(data.len())
    }

    /// Move the handle to `offset` from the start (origin 0), the current
    /// position (1) or the end of the file (2).
    pub fn seek(&mut self, handle: u32, offset: i32, origin: u32) -> (res: Option<usize>)
        requires
            old(self).wf(),
        ensures
            final(self).wf(),
            (res, final(self)@) == spec_seek(old(self)@, handle, offset, origin),
    {
        let base: usize = match self.slot(handle) {
            Some(o) => {
                if origin == 0 {
                    0
                } else if origin == 1 {
                    o.position
                } else if origin == 2 {
                    match self.find_file(o.path.as_slice()) {
                        Some(i) => self.files[i].1.len(),
                        None => {
                            return None;
                        },
                    }
                } else {
                    return None;
                }
            },
            None => {
                return None;
            },
        };
        let b = base as i64;
        let target: i128 = b as i128 + offset as i128;
        if target < i64::MIN as i128 || target > i64::MAX as i128 || target < 0 || target > usize::MAX as i128 {
            return None;
        }
        let position = target as usize;
        self.set_position(handle, position);
        Some(position)
    }

    /// The handle's position.
    pub fn tell(&self, handle: u32) -> (res: Option<usize>)
        ensures
            res == match spec_handle(self@, handle) {
                Some(o) => Some(o.position),
                None => None::<usize>,
            },
    {
        match self.slot(handle) {
            Some(o) => Some(o.position),
            None => None,
        }
    }

    /// The size of the handle's file.
    pub fn size(&self, handle: u32) -> (res: Option<usize>)
        requires
            self.wf(),
        ensures
            res == match spec_handle(self@, handle) {
                Some(o) => if self@.files.contains_key(o.path) {
                    Some(self@.files[o.path].len() as usize)
                } else {
                    None::<usize>
                },
                None => None::<usize>,
            },
    {
        match self.slot(handle) {
            Some(o) => match self.find_file(o.path.as_slice()) {
                Some(i) => Some(self.files[i].1.len()),
                None => None,
            },
            None => None,
        }
    }

    /// Whether a file exists under the guest path.
    pub fn file_exists(&self, path: &str) -> (res: bool)
        requires
            self.wf(),
        ensures
            res == match spec_normalize_path(path@) {
                Some(p) => self@.files.contains_key(p),
                None => false,
            },
    {
        let chars = chars_of(path);
        match normalize_path_chars(chars.as_slice()) {
            Some(p) => self.find_file(p.as_slice()).is_some(),
            None => false,
        }
    }

    /// The contents of the file under the guest path.
    pub fn file(&self, path: &str) -> (res: Option<&[u8]>)
        requires
            self.wf(),
        ensures
            match spec_normalize_path(path@) {
                Some(p) => if self@.files.contains_key(p) {
                    res matches Some(d) && d@ == self@.files[p]
                } else {
                    res is None
                },
                None => res is None,
            },
    {
        let chars = chars_of(path);
        match normalize_path_chars(chars.as_slice()) {
            Some(p) => match self.find_file(p.as_slice()) {
                Some(i) => Some(self.files[i].1.as_slice()),
                None => None,
            },
            None => None,
        }
    }

    /// Whether a directory exists under the guest path: the root, a created
    /// directory, or the parent of a file.
    pub fn directory_exists(&self, path: &str) -> (res: bool)
        requires
            self.wf(),
        ensures
            res == match spec_normalize_path(path@) {
                Some(p) => spec_directory_exists(self@, p),
                None => false,
            },
    {
        let chars = chars_of(path);
        let p = match normalize_path_chars(chars.as_slice()) {
            Some(v) => v,
            None => {
                return false;
            },
        };
        if p.len() == 0 || self.contains_dir(p.as_slice()) {
            return true;
        }
        let mut i: usize = 0;
        while i < self.files.len()
            invariant
                self.wf(),
                spec_normalize_path(path@) == Some(p@),
                i <= self.files@.len(),
                forall|j: int| #![trigger self.files@[j]]
                    0 <= j < i ==> !({
                        let f = self.files@[j].0@;
                        f.len() > p@.len() && f.subrange(0, p@.len() as int) == p@ && f[p@.len() as int] == '/'
                    }),
            decreases self.files@.len() - i,
        {
            let key = &self.files[i].0;
            if key.len() > p.len() && key[p.len()] == '/' && chars_equal(
                vstd::slice::slice_subrange(key.as_slice(), 0, p.len()),
                p.as_slice(),
            ) {
                proof {
                    lemma_files_map_lookup(self.files@, key@);
                    assert(self.files@[i as int].0@ == key@);
                    assert(self@.files.contains_key(key@));
                    assert(key@.subrange(0, p@.len() as int) == p@);
                    assert(spec_directory_exists(self@, p@));
                }
                return true;
            }
            i = i + 1;
        }
        proof {
            assert forall|f: Seq<char>| #[trigger] self@.files.contains_key(f) implies !(f.len() > p@.len() && f.subrange(
                0,
                p@.len() as int,
            ) == p@ && f[p@.len() as int] == '/') by {
                lemma_files_map_lookup(self.files@, f);
                let j = choose|j: int| 0 <= j < self.files@.len() && #[trigger] self.files@[j].0@ == f;
                assert(self.files@[j].0@ == f);
            }
        }
        false
    }

    /// Whether a directory path was created.
    fn contains_dir(&self, d: &[char]) -> (res: bool)
        ensures
            res == self@.directories.contains(d@),
    {
        let ghost dv = self.directories@.map_values(|x: Vec<char>| x@);
        let mut i: usize = 0;
        while i < self.directories.len()
            invariant
                dv == self.directories@.map_values(|x: Vec<char>| x@),
                i <= self.directories@.len(),
                forall|j: int| 0 <= j < i ==> #[trigger] dv[j] != d@,
            decreases self.directories@.len() - i,
        {
            if chars_equal(self.directories[i].as_slice(), d) {
                assert(dv[i as int] == d@);
                assert(dv.to_set().contains(d@));
                return true;
            }
            i = i + 1;
        }
        assert(!dv.to_set().contains(d@)) by {
            if dv.to_set().contains(d@) {
                let j = choose|j: int| 0 <= j < dv.len() && dv[j] == d@;
                assert(dv[j] != d@);
            }
        }
        false
    }

    /// Record a directory path.
    fn add_dir(&mut self, d: Vec<char>)
        ensures
            final(self).files@ == old(self).files@,
            final(self)@ == (FsView { directories: old(self)@.directories.insert(d@), ..old(self)@ }),
    {
        if self.contains_dir(d.as_slice()) {
            assert(self@.directories.insert(d@) =~= self@.directories);
            return;
        }
        let ghost before = self.directories@;
        self.directories.push(d);
        proof {
            let old_v = before.map_values(|x: Vec<char>| x@);
            let new_v = self.directories@.map_values(|x: Vec<char>| x@);
            assert(new_v =~= old_v.push(d@));
            assert(new_v.to_set() =~= old_v.to_set().insert(d@)) by {
                assert forall|x: Seq<char>| new_v.to_set().contains(x) <==> old_v.to_set().insert(d@).contains(x) by {
                    if new_v.to_set().contains(x) {
                        let j = choose|j: int| 0 <= j < new_v.len() && new_v[j] == x;
                        if j < old_v.len() {
                            assert(old_v[j] == x);
                        }
                    }
                    if old_v.to_set().contains(x) {
                        let j = choose|j: int| 0 <= j < old_v.len() && old_v[j] == x;
                        assert(new_v[j] == x);
                    }
                    if x == d@ {
                        assert(new_v[old_v.len() as int] == x);
                    }
                }
            }
        }
    }

    /// Create a directory and all its parents; false when the path climbs
    /// above the root.
    pub fn create_directory(&mut self, path: &str) -> (res: bool)
        requires
            old(self).wf(),
        ensures
            final(self).wf(),
            (res, final(self)@) == spec_create_directory(old(self)@, path@),
    {
        let chars = chars_of(path);
        let p = match normalize_path_chars(chars.as_slice()) {
            Some(v) => v,
            None => {
                return false;
            },
        };
        let pieces = split_chars(p.as_slice(), '/');
        let ghost pv = nested_view(pieces@);
        let mut current: Vec<char> = Vec::new();
        let mut i: usize = 0;
        assert(pv.subrange(0, 0) =~= Seq::<Seq<char>>::empty());
        assert(old(self)@.directories + Seq::<Seq<char>>::empty().to_set() =~= old(self)@.directories);
        while i < pieces.len()
            invariant
                pv == nested_view(pieces@),
                pv == spec_split(p@, '/'),
                i <= pieces@.len(),
                spec_unique_paths(self.files@),
                self.files@ == old(self).files@,
                self@ == (FsView {
                    directories: old(self)@.directories + spec_dir_chain(pv.subrange(0, i as int)).to_set(),
                    ..old(self)@
                }),
                current@ == if i == 0 {
                    Seq::<char>::empty()
                } else {
                    spec_dir_chain(pv.subrange(0, i as int)).last()
                },
            decreases pieces@.len() - i,
        {
            let ghost chain = spec_dir_chain(pv.subrange(0, i as int));
            assert(pv.subrange(0, i + 1).drop_last() =~= pv.subrange(0, i as int));
            assert(pv.subrange(0, i + 1).last() == pieces@[i as int]@);
            proof {
                lemma_dir_chain_len(pv.subrange(0, i as int));
            }
            if current.len() > 0 {
                current.push('/');
            }
            let piece = &pieces[i];
            let mut j: usize = 0;
            let ghost base = current@;
            while j < piece.len()
                invariant
                    j <= piece@.len(),
                    current@ =~= base + piece@.subrange(0, j as int),
                decreases piece@.len() - j,
            {
                current.push(piece[j]);
                j = j + 1;
            }
            assert(piece@.subrange(0, piece@.len() as int) =~= piece@);
            let copy = vstd::slice::slice_to_vec(current.as_slice());
            self.add_dir(copy);
            proof {
                let next_chain = spec_dir_chain(pv.subrange(0, i + 1));
                assert(next_chain == chain.push(current@));
                chain.lemma_push_to_set_commute(current@);
                assert(old(self)@.directories + next_chain.to_set() =~= (old(self)@.directories + chain.to_set()).insert(
                    current@,
                ));
            }
            i = i + 1;
        }
        assert(pv.subrange(0, pieces@.len() as int) =~= pv);
        true
    }

    /// Remove the file under the guest path; true when it existed.
    pub fn remove_file(&mut self, path: &str) -> (res: bool)
        requires
            old(self).wf(),
        ensures
            final(self).wf(),
            (res, final(self)@) == spec_remove_file(old(self)@, path@),
    {
        let chars = chars_of(path);
        let p = match normalize_path_chars(chars.as_slice()) {
            Some(v) => v,
            None => {
                return false;
            },
        };
        match self.find_file(p.as_slice()) {
            Some(i) => {
                proof {
                    lemma_files_map_remove(self.files@, i as int);
                }
                self.files.remove(i);
                true
            },
            None => false,
        }
    }

    /// Rename a file; open handles follow it.
    pub fn rename(&mut self, old_path: &str, new_path: &str) -> (res: bool)
        requires
            old(self).wf(),
        ensures
            final(self).wf(),
            (res, final(self)@) == spec_rename(old(self)@, old_path@, new_path@),
    {
        let old_chars = chars_of(old_path);
        let new_chars = chars_of(new_path);
        let from = match normalize_path_chars(old_chars.as_slice()) {
            Some(v) => v,
            None => {
                return false;
            },
        };
        let to = match normalize_path_chars(new_chars.as_slice()) {
            Some(v) => v,
            None => {
                return false;
            },
        };
        let i = match self.find_file(from.as_slice()) {
            Some(i) => i,
            None => {
                return false;
            },
        };
        proof {
            lemma_files_map_remove(self.files@, i as int);
        }
        let (_, data) = self.files.remove(i);
        let key = vstd::slice::slice_to_vec(to.as_slice());
        self.put_file(key, data);
        let ghost after_files = self@;
        let mut h: usize = 0;
        while h < self.handles.len()
            invariant
                h <= self.handles@.len(),
                self@.handles.len() == old(self)@.handles.len(),
                spec_unique_paths(self.files@),
                self@.files == after_files.files,
                self@.directories == old(self)@.directories,
                forall|j: int| 0 <= j < h ==> #[trigger] self@.handles[j] == spec_renamed_slot(old(self)@.handles[j], from@, to@),
                forall|j: int| h <= j < self.handles@.len() ==> #[trigger] self@.handles[j] == old(self)@.handles[j],
            decreases self.handles@.len() - h,
        {
            let same = match &self.handles[h] {
                Some(o) => chars_equal(o.path.as_slice(), from.as_slice()),
                None => false,
            };
            let ghost before = self@.handles;
            assert(before[h as int] == old(self)@.handles[h as int]);
            if same {
                let (path, position, readable, writable) = match &self.handles[h] {
                    Some(o) => (vstd::slice::slice_to_vec(to.as_slice()), o.position, o.readable, o.writable),
                    None => (Vec::new(), 0, false, false),
                };
                self.handles.set(h, Some(VirtualFileHandle { path, position, readable, writable }));
                assert(self@.handles =~= before.update(h as int, Some(HandleView { path: to@, position, readable, writable })));
            }
            h = h + 1;
        }
        assert(self@.handles =~= old(self)@.handles.map_values(|slot: Option<HandleView>| spec_renamed_slot(slot, from@, to@)));
        true
    }

    /// The number of stored files.
    pub fn file_count(&self) -> (res: usize)
        requires
            self.wf(),
        ensures
            res == self@.files.len(),
    {
        proof {
            lemma_files_map_len(self.files@);
        }
        self.files.len()
    }
}

/// Pad with zeros up to `len` bytes.
fn pad_to(file: &mut Vec<u8>, len: usize)
    ensures
        final(file)@ == spec_pad(old(file)@, len as int),
{
    let ghost start = file@;
    if file.len() >= len {
        return;
    }
    while file.len() < len
        invariant
            start.len() <= file@.len() <= len,
            file@ =~= start + Seq::new((file@.len() - start.len()) as nat, |i: int| 0u8),
        decreases len - file@.len(),
    {
        file.push(0);
    }
}

proof fn lemma_files_map_len(entries: Seq<(Vec<char>, Vec<u8>)>)
    requires
        spec_unique_paths(entries),
    ensures
        spec_files_map(entries).len() == entries.len(),
        spec_files_map(entries).dom().finite(),
    decreases entries.len(),
{
    if entries.len() > 0 {
        let prev = entries.drop_last();
        assert forall|i: int, j: int| 0 <= i < j < prev.len() implies #[trigger] prev[i].0@ != #[trigger] prev[j].0@ by {
            assert(prev[i] == entries[i] && prev[j] == entries[j]);
        }
        lemma_files_map_len(prev);
        lemma_files_map_lookup(prev, entries.last().0@);
        assert(!spec_files_map(prev).contains_key(entries.last().0@)) by {
            if spec_files_map(prev).contains_key(entries.last().0@) {
                let i = choose|i: int| 0 <= i < prev.len() && #[trigger] prev[i].0@ == entries.last().0@;
                assert(prev[i] == entries[i]);
            }
        }
    }
}

proof fn lemma_dir_chain_len(parts: Seq<Seq<char>>)
    ensures
        spec_dir_chain(parts).len() == parts.len(),
    decreases parts.len(),
{
    if parts.len() > 0 {
        lemma_dir_chain_len(parts.drop_last());
    }
}

impl Default for VirtualFileSystem {
    fn default() -> (res: Self)
        ensures
            res.wf(),
            res@.files == Map::<Seq<char>, Seq<u8>>::empty(),
            res@.directories == set![Seq::<char>::empty()],
            res@.handles == Seq::new(16, |i: int| None::<HandleView>),
    {
        VirtualFileSystem::new()
    }
}

/// Opening an existing file with a mode that does not start with `w`
/// (given as a string, or derived from guest flags other than 1 and the
/// write-and-create flag 0x08 alone) keeps its contents: only `w` empties a
/// file. A file that was written, closed and reopened for update is read
/// back whole.
pub proof fn lemma_open_keeps_existing_contents(fs: FsView, path: Seq<char>, mode: Seq<char>, flags: u32)
    requires
        spec_normalize_path(path) is Some,
        fs.files.contains_key(spec_normalize_path(path)->0),
        mode.len() > 0 ==> mode[0] != 'w',
        mode.len() == 0 ==> flags != 1 && (flags == 3 || flags & 0x10 != 0 || flags & 0x08 == 0),
    ensures
        spec_open(fs, path, mode, flags).1.files.contains_key(spec_normalize_path(path)->0),
        spec_open(fs, path, mode, flags).1.files == fs.files,
{
    let m = spec_open_mode(mode, flags);
    assert(!spec_starts(m, 'w'));
}

/// Bytes written through a readable and writable handle are read back
/// after seeking to where the write started.
pub proof fn lemma_write_then_read_back(fs: FsView, handle: u32, data: Seq<u8>)
    requires
        spec_handle(fs, handle) matches Some(o) && o.readable && o.writable && fs.files.contains_key(o.path)
            && o.position <= i32::MAX && o.position + data.len() <= usize::MAX,
    ensures
        ({
            let o = spec_handle(fs, handle).unwrap();
            let written = spec_write(fs, handle, data);
            let sought = spec_seek(written.1, handle, o.position as i32, 0);
            &&& written.0 == Some(data.len() as usize)
            &&& sought.0 == Some(o.position)
            &&& spec_read(sought.1, handle, data.len() as usize).0 == Some(data)
        }),
{
    let o = spec_handle(fs, handle).unwrap();
    let p = o.position as int;
    let padded = spec_pad(fs.files[o.path], p);
    let end = p + data.len();
    let grown = spec_pad(padded, end);
    let stored = grown.subrange(0, p) + data + grown.subrange(end, grown.len() as int);
    let written = spec_write(fs, handle, data);
    assert(written.1.files[o.path] == stored);
    assert(stored.subrange(p, end) =~= data);
    let sought = spec_seek(written.1, handle, o.position as i32, 0);
    assert(spec_handle(written.1, handle) matches Some(w) && w.path == o.path && w.readable);
    assert(spec_handle(sought.1, handle) matches Some(w) && w.path == o.path && w.position == o.position && w.readable);
    assert(sought.1.files == written.1.files);
}

/// A path that climbs above the virtual root opens nothing, creates no
/// directory and changes nothing.
pub proof fn lemma_escaping_path_refused(fs: FsView, path: Seq<char>, mode: Seq<char>, flags: u32)
    requires
        spec_normalize_path(path) is None,
    ensures
        spec_open(fs, path, mode, flags) == (-1i32, fs),
        spec_create_directory(fs, path) == (false, fs),
        spec_remove_file(fs, path) == (false, fs),
{
}

/// Closing an open handle frees its slot; closing it again fails.
pub proof fn lemma_close_frees_handle(fs: FsView, handle: u32)
    requires
        spec_handle(fs, handle) is Some,
    ensures
        spec_close(fs, handle).0 == 0,
        spec_handle(spec_close(fs, handle).1, handle) is None,
        spec_close(spec_close(fs, handle).1, handle).0 == -1,
{
}

} // verus!
