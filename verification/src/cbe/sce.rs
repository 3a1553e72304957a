//! Scene resources (`.sce`): scene size, the maps a scene uses, and the
//! actors and scripts it refers to.
//!
//! Layout: a 10-byte header, "SCE2", width, height and map count as
//! little-endian `u16` at 0x0E, 0x10 and 0x12, then a map table of 9-byte
//! entries (flag, 4-byte name, extension byte, 3 bytes) each optionally
//! followed by a NUL byte, and finally length-prefixed resource names.
use vstd::prelude::*;

use crate::bytes::{read_u16_le, spec_u16_le};
use crate::text::{chars_of, spec_utf8_lossy, string_from_chars, utf8_lossy};

verus! {

/// A map used by a scene.
#[derive(Debug)]
pub struct MapRef {
    /// Map resource name.
    pub name: String,
    /// The entry's flag byte.
    pub field0: u8,
    /// Second byte after the extension byte.
    pub field1: u8,
    /// Third byte after the extension byte.
    pub field2: u8,
    /// Always 0.
    pub field3: u8,
}

impl View for MapRef {
    type V = (Seq<char>, u8, u8, u8, u8);

    open spec fn view(&self) -> (Seq<char>, u8, u8, u8, u8) {
        (self.name@, self.field0, self.field1, self.field2, self.field3)
    }
}

/// An entity placed in a scene; it refers to an actor resource.
#[derive(Debug)]
pub struct Entity {
    /// Reference to the actor resource.
    pub actor_ref: Option<String>,
    /// Entity index.
    pub id: u32,
    /// Entity type.
    pub entity_type: u32,
}

impl View for Entity {
    type V = (Option<Seq<char>>, u32, u32);

    open spec fn view(&self) -> (Option<Seq<char>>, u32, u32) {
        (
            match self.actor_ref {
                Some(s) => Some(s@),
                None => None,
            },
            self.id,
            self.entity_type,
        )
    }
}

/// A script linked to a scene.
#[derive(Debug)]
pub struct ScriptRef {
    /// Script resource name.
    pub script_name: String,
    /// Script type or context.
    pub script_type: String,
}

impl View for ScriptRef {
    type V = (Seq<char>, Seq<char>);

    open spec fn view(&self) -> (Seq<char>, Seq<char>) {
        (self.script_name@, self.script_type@)
    }
}

/// Why a scene resource was refused.
#[derive(Debug, Clone, Copy, PartialEq, Eq, Structural)]
pub enum SceneError {
    /// Fewer than 20 bytes.
    TooShort,
}

/// A parsed scene.
#[derive(Debug)]
pub struct Scene {
    /// Scene width.
    pub width: u32,
    /// Scene height.
    pub height: u32,
    /// Maps the scene uses.
    pub maps: Vec<MapRef>,
    /// Entities placed in the scene.
    pub entities: Vec<Entity>,
    /// Scripts linked to the scene.
    pub scripts: Vec<ScriptRef>,
    /// The raw scene data.
    pub raw_data: Vec<u8>,
}

/// Whether `s` ends with `suffix`.
pub open spec fn spec_ends_with(s: Seq<char>, suffix: Seq<char>) -> bool {
    s.len() >= suffix.len() && s.subrange(s.len() - suffix.len(), s.len() as int) == suffix
}

/// Trailing NUL characters removed.
pub open spec fn spec_trim_nul(s: Seq<char>) -> Seq<char>
    decreases s.len(),
{
    if s.len() > 0 && s.last() == '\0' {
        spec_trim_nul(s.drop_last())
    } else {
        s
    }
}

/// ".map"
pub open spec fn spec_map_suffix() -> Seq<char> {
    seq!['.', 'm', 'a', 'p']
}

/// ".actor"
pub open spec fn spec_actor_suffix() -> Seq<char> {
    seq!['.', 'a', 'c', 't', 'o', 'r']
}

/// ".xse"
pub open spec fn spec_script_suffix() -> Seq<char> {
    seq!['.', 'x', 's', 'e']
}

/// "main"
pub open spec fn spec_main() -> Seq<char> {
    seq!['m', 'a', 'i', 'n']
}

/// The map table entry at `pos`: the 4-byte name without trailing NULs
/// (with ".map" appended when the extension byte is '.'), the flag byte and
/// the second and third bytes after the extension byte.
pub open spec fn spec_map_entry(data: Seq<u8>, pos: int) -> (Seq<char>, u8, u8, u8, u8) {
    let name = spec_trim_nul(spec_utf8_lossy(data.subrange(pos + 1, pos + 5)));
    let full = if data[pos + 5] == 0x2e {
        name + spec_map_suffix()
    } else {
        name
    };
    (full, data[pos], data[pos + 7], data[pos + 8], 0)
}

/// Up to `remaining` map table entries from `pos` (the table stops early
/// where fewer than 9 bytes remain), and where the table ends.
pub open spec fn spec_map_table(data: Seq<u8>, pos: int, remaining: nat) -> (Seq<(Seq<char>, u8, u8, u8, u8)>, int)
    decreases remaining,
{
    if remaining == 0 || pos + 9 > data.len() {
        (Seq::empty(), pos)
    } else {
        let next = if pos + 9 < data.len() && data[pos + 9] == 0 {
            pos + 10
        } else {
            pos + 9
        };
        let rest = spec_map_table(data, next, (remaining - 1) as nat);
        (seq![spec_map_entry(data, pos)] + rest.0, rest.1)
    }
}

/// The actor and script names among the length-prefixed names from `pos`
/// on: a length of 0, over 64, or running past the end skips one byte.
pub open spec fn spec_scan_refs(data: Seq<u8>, pos: int) -> (Seq<Seq<char>>, Seq<Seq<char>>)
    decreases data.len() - pos,
{
    if pos < 0 || pos >= data.len() {
        (Seq::empty(), Seq::empty())
    } else {
        let len = data[pos] as int;
        if len == 0 || len > 64 || pos + 1 + len > data.len() {
            spec_scan_refs(data, pos + 1)
        } else {
            let name = spec_utf8_lossy(data.subrange(pos + 1, pos + 1 + len));
            let rest = spec_scan_refs(data, pos + 1 + len);
            if spec_ends_with(name, spec_actor_suffix()) {
                (seq![name] + rest.0, rest.1)
            } else if spec_ends_with(name, spec_script_suffix()) {
                (rest.0, seq![name] + rest.1)
            } else {
                rest
            }
        }
    }
}

/// Views of maps.
pub open spec fn maps_view(s: Seq<MapRef>) -> Seq<(Seq<char>, u8, u8, u8, u8)> {
    s.map_values(|m: MapRef| m@)
}

/// Views of entities.
pub open spec fn entities_view(s: Seq<Entity>) -> Seq<(Option<Seq<char>>, u32, u32)> {
    s.map_values(|e: Entity| e@)
}

/// Views of scripts.
pub open spec fn scripts_view(s: Seq<ScriptRef>) -> Seq<(Seq<char>, Seq<char>)> {
    s.map_values(|r: ScriptRef| r@)
}

/// The entities for the actor names: entity `i` refers to actor `i`.
pub open spec fn spec_entities(actors: Seq<Seq<char>>) -> Seq<(Option<Seq<char>>, u32, u32)> {
    Seq::new(actors.len(), |i: int| (Some(actors[i]), i as u32, 0u32))
}

/// The scripts for the script names, all of type "main".
pub open spec fn spec_scripts(names: Seq<Seq<char>>) -> Seq<(Seq<char>, Seq<char>)> {
    Seq::new(names.len(), |i: int| (names[i], spec_main()))
}

/// Whether a character vector ends with the given suffix.
fn ends_with(s: &[char], suffix: &[char]) -> (res: bool)
    ensures
        res == spec_ends_with(s@, suffix@),
{
    if s.len() < suffix.len() {
        return false;
    }
    let n = s.len();
    let offset = n - suffix.len();
    let mut i: usize = 0;
    while i < suffix.len()
        invariant
            n == s@.len(),
            offset + suffix@.len() == n,
            i <= suffix@.len(),
            forall|j: int| 0 <= j < i ==> s@[offset + j] == suffix@[j],
        decreases suffix@.len() - i,
    {
        if s[offset + i] != suffix[i] {
            assert(s@.subrange(offset as int, s@.len() as int)[i as int] != suffix@[i as int]);
            return false;
        }
        i = i + 1;
    }
    assert(s@.subrange(offset as int, s@.len() as int) =~= suffix@);
    true
}

/// Trailing NUL characters removed.
fn trim_nul(s: &[char]) -> (res: Vec<char>)
    ensures
        res@ == spec_trim_nul(s@),
{
    let mut end: usize = s.len();
    assert(s@.subrange(0, end as int) =~= s@);
    while end > 0 && s[end - 1] == '\0'
        invariant
            end <= s@.len(),
            spec_trim_nul(s@) == spec_trim_nul(s@.subrange(0, end as int)),
        decreases end,
    {
        assert(s@.subrange(0, end as int).drop_last() =~= s@.subrange(0, end - 1));
        end = end - 1;
    }
    vstd::slice::slice_to_vec(vstd::slice::slice_subrange(s, 0, end))
}

/// The map table entry at `pos`.
fn map_entry(data: &[u8], pos: usize) -> (res: MapRef)
    requires
        pos + 9 <= data.len(),
    ensures
        res@ == spec_map_entry(data@, pos as int),
{
    let raw = utf8_lossy(vstd::slice::slice_subrange(data, pos + 1, pos + 5));
    let chars = chars_of(raw.as_str());
    let mut name = trim_nul(chars.as_slice());
    if data[pos + 5] == 0x2e {
        let ghost base = name@;
        name.push('.');
        name.push('m');
        name.push('a');
        name.push('p');
        assert(name@ =~= base + spec_map_suffix());
    }
    MapRef {
        name: string_from_chars(name.as_slice()),
        field0: data[pos],
        field1: data[pos + 7],
        field2: data[pos + 8],
        field3: 0,
    }
}

impl Scene {
    /// Parse a scene resource: its size, its map table, and the actor and
    /// script names that follow the table.
    pub fn parse(data: &[u8]) -> (res: Result<Self, SceneError>)
        ensures
            data@.len() < 20 <==> res is Err,
            res is Err ==> res == Err::<Self, SceneError>(SceneError::TooShort),
            res matches Ok(scene) ==> {
                let table = spec_map_table(data@, 0x14, spec_u16_le(data@, 0x12) as nat);
                let refs = spec_scan_refs(data@, table.1);
                &&& scene.width == spec_u16_le(data@, 0x0E)
                &&& scene.height == spec_u16_le(data@, 0x10)
                &&& maps_view(scene.maps@) == table.0
                &&& entities_view(scene.entities@) == spec_entities(refs.0)
                &&& scripts_view(scene.scripts@) == spec_scripts(refs.1)
                &&& scene.raw_data@ == data@
            },
    {
        let n = data.len();
        if n < 20 {
            return Err(SceneError::TooShort);
        }
        let width = read_u16_le(data, 0x0E) as u32;
        let height = read_u16_le(data, 0x10) as u32;
        let map_count = read_u16_le(data, 0x12) as usize;
        let ghost total = spec_map_table(data@, 0x14, map_count as nat);
        let mut maps: Vec<MapRef> = Vec::new();
        let mut pos: usize = 0x14;
        let mut k: usize = 0;
        assert(maps_view(maps@) + total.0 =~= total.0);
        while k < map_count && pos <= n && n - pos >= 9
            invariant
                n == data@.len(),
                k <= map_count,
                pos <= n + 1,
                total == spec_map_table(data@, 0x14, map_count as nat),
                maps_view(maps@) + spec_map_table(data@, pos as int, (map_count - k) as nat).0 == total.0,
                spec_map_table(data@, pos as int, (map_count - k) as nat).1 == total.1,
            decreases map_count - k,
        {
            let entry = map_entry(data, pos);
            let ghost prev = maps_view(maps@);
            maps.push(entry);
            assert(maps_view(maps@) =~= prev.push(entry@));
            let next = if pos + 9 < n && data[pos + 9] == 0 {
                pos + 10
            } else {
                pos + 9
            };
            proof {
                let rest = spec_map_table(data@, next as int, (map_count - k - 1) as nat);
                assert(spec_map_table(data@, pos as int, (map_count - k) as nat).0 =~= seq![entry@] + rest.0);
                assert(prev.push(entry@) + rest.0 =~= prev + (seq![entry@] + rest.0));
            }
            pos = next;
            k = k + 1;
        }
        assert(maps_view(maps@) + Seq::empty() =~= maps_view(maps@));
        let ghost refs = spec_scan_refs(data@, pos as int);
        let mut actors: Vec<Entity> = Vec::new();
        let mut scripts: Vec<ScriptRef> = Vec::new();
        let ghost actor_names: Seq<Seq<char>> = Seq::empty();
        let ghost script_names: Seq<Seq<char>> = Seq::empty();
        assert(actor_names + refs.0 =~= refs.0);
        assert(script_names + refs.1 =~= refs.1);
        while pos < n
            invariant
                n == data@.len(),
                refs == spec_scan_refs(data@, total.1),
                actor_names + spec_scan_refs(data@, pos as int).0 == refs.0,
                script_names + spec_scan_refs(data@, pos as int).1 == refs.1,
                entities_view(actors@) == spec_entities(actor_names),
                scripts_view(scripts@) == spec_scripts(script_names),
            decreases n - pos,
        {
            let len = data[pos] as usize;
            if len == 0 || len > 64 || n - pos - 1 < len {
                pos = pos + 1;
            } else {
                let raw = utf8_lossy(vstd::slice::slice_subrange(data, pos + 1, pos + 1 + len));
                let name = chars_of(raw.as_str());
                let ghost rest = spec_scan_refs(data@, (pos + 1 + len) as int);
                if ends_with(name.as_slice(), &['.', 'a', 'c', 't', 'o', 'r']) {
                    proof {
                        assert(['.', 'a', 'c', 't', 'o', 'r']@ =~= spec_actor_suffix());
                    }
                    let id = actors.len() as u32;
                    let ghost prev = entities_view(actors@);
                    actors.push(Entity { actor_ref: Some(raw), id, entity_type: 0 });
                    proof {
                        assert(entities_view(actors@) =~= prev.push((Some(name@), id, 0u32)));
                        assert(spec_entities(actor_names.push(name@)) =~= spec_entities(actor_names).push(
                            (Some(name@), actor_names.len() as u32, 0u32),
                        ));
                        assert(entities_view(actors@) =~= spec_entities(actor_names.push(name@)));
                        assert(actor_names.push(name@) + rest.0 =~= actor_names + (seq![name@] + rest.0));
                        actor_names = actor_names.push(name@);
                    }
                } else if ends_with(name.as_slice(), &['.', 'x', 's', 'e']) {
                    proof {
                        assert(['.', 'a', 'c', 't', 'o', 'r']@ =~= spec_actor_suffix());
                        assert(['.', 'x', 's', 'e']@ =~= spec_script_suffix());
                    }
                    let main = string_from_chars(&['m', 'a', 'i', 'n']);
                    proof {
                        assert(['m', 'a', 'i', 'n']@ =~= spec_main());
                    }
                    let ghost prev = scripts_view(scripts@);
                    scripts.push(ScriptRef { script_name: raw, script_type: main });
                    proof {
                        assert(scripts_view(scripts@) =~= prev.push((name@, spec_main())));
                        assert(spec_scripts(script_names.push(name@)) =~= spec_scripts(script_names).push(
                            (name@, spec_main()),
                        ));
                        assert(scripts_view(scripts@) =~= spec_scripts(script_names.push(name@)));
                        assert(script_names.push(name@) + rest.1 =~= script_names + (seq![name@] + rest.1));
                        script_names = script_names.push(name@);
                    }
                } else {
                    proof {
                        assert(['.', 'a', 'c', 't', 'o', 'r']@ =~= spec_actor_suffix());
                        assert(['.', 'x', 's', 'e']@ =~= spec_script_suffix());
                    }
                }
                pos = pos + 1 + len;
            }
        }
        Ok(Scene { width, height, maps, entities: actors, scripts, raw_data: vstd::slice::slice_to_vec(data) })
    }

    /// Scene width.
    pub fn width(&self) -> (res: u32)
        ensures
            res == self.width,
    {
        self.width
    }

    /// Scene height.
    pub fn height(&self) -> (res: u32)
        ensures
            res == self.height,
    {
        self.height
    }

    /// Number of entities.
    pub fn entity_count(&self) -> (res: usize)
        ensures
            res == self.entities@.len(),
    {
        self.entities.len()
    }

    /// The map references.
    pub fn maps(&self) -> (res: &[MapRef])
        ensures
            res@ == self.maps@,
    {
        self.maps.as_slice()
    }

    /// The script references.
    pub fn scripts(&self) -> (res: &[ScriptRef])
        ensures
            res@ == self.scripts@,
    {
        self.scripts.as_slice()
    }
}

} // verus!
