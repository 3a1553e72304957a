//! Resource types and entries found in CBE archives.
use vstd::prelude::*;
use vstd::string::*;

use crate::text::{ascii_lower, chars_equal_str, chars_of, is_ascii_seq, spec_lower, spec_to_lowercase, string_from_chars, to_lowercase};

verus! {

/// Errors during resource parsing.
pub enum ResourceError {
    InvalidSignature,
    UnsupportedType(String),
    NotFound(String),
    ParseError(String),
}

/// Resource types found in CBE archives.
#[derive(Debug, Clone, Copy, PartialEq, Eq, Hash, Structural)]
pub enum ResourceType {
    /// Scene file (.sce)
    Scene,
    /// Map file (.map)
    TileMap,
    /// Actor file (.actor)
    Actor,
    /// Script file (.xse)
    Script,
    /// GIF image (.gif)
    Image,
    /// Audio file
    Audio,
    /// Unknown resource type
    Unknown,
}

/// The resource type named by an already lowercased extension.
pub open spec fn spec_type_of_lower(ext: Seq<char>) -> ResourceType {
    if ext == "sce"@ {
        ResourceType::Scene
    } else if ext == "map"@ {
        ResourceType::TileMap
    } else if ext == "actor"@ {
        ResourceType::Actor
    } else if ext == "xse"@ {
        ResourceType::Script
    } else if ext == "gif"@ {
        ResourceType::Image
    } else if ext == "mp3"@ || ext == "wav"@ || ext == "amr"@ || ext == "mid"@ || ext == "midi"@
        || ext == "ogg"@ {
        ResourceType::Audio
    } else {
        ResourceType::Unknown
    }
}

/// Lowercasing an ASCII extension again changes nothing, so an ASCII
/// extension and its lowercase name the same resource type: case is
/// ignored.
pub proof fn lemma_extension_case_ignored(ext: Seq<char>)
    requires
        is_ascii_seq(ext),
    ensures
        is_ascii_seq(spec_lower(ext)),
        spec_lower(spec_lower(ext)) == spec_lower(ext),
        spec_type_of_lower(spec_lower(spec_lower(ext))) == spec_type_of_lower(spec_lower(ext)),
{
    assert forall|i: int| 0 <= i < ext.len() implies (#[trigger] spec_lower(ext)[i] as u32) < 0x80
        && ascii_lower(spec_lower(ext)[i]) == spec_lower(ext)[i] by {
        let c = ext[i];
        assert((c as u32) < 0x80);
        if 'A' <= c && c <= 'Z' {
            assert(((c as u32) + 32) as char as u32 == (c as u32) + 32);
        }
    }
    assert(spec_lower(spec_lower(ext)) =~= spec_lower(ext));
}

/// The resource type of a file extension, compared case-insensitively.
pub open spec fn spec_type_of_extension(ext: Seq<char>) -> ResourceType {
    spec_type_of_lower(spec_to_lowercase(ext))
}

/// Human-readable name of a resource type.
pub open spec fn spec_type_name(t: ResourceType) -> Seq<char> {
    match t {
        ResourceType::Scene => "Scene"@,
        ResourceType::TileMap => "Map"@,
        ResourceType::Actor => "Actor"@,
        ResourceType::Script => "Script"@,
        ResourceType::Image => "Image"@,
        ResourceType::Audio => "Audio"@,
        ResourceType::Unknown => "Unknown"@,
    }
}

impl ResourceType {
    /// Determine resource type from file extension.
    pub fn from_extension(ext: &str) -> (res: Self)
        ensures
            res == spec_type_of_extension(ext@),
            is_ascii_seq(ext@) ==> res == spec_type_of_lower(spec_lower(ext@)),
    {
        let lowered = to_lowercase(ext);
        let l = chars_of(lowered.as_str());
        if chars_equal_str(l.as_slice(), "sce") {
            ResourceType::Scene
        } else if chars_equal_str(l.as_slice(), "map") {
            ResourceType::TileMap
        } else if chars_equal_str(l.as_slice(), "actor") {
            ResourceType::Actor
        } else if chars_equal_str(l.as_slice(), "xse") {
            ResourceType::Script
        } else if chars_equal_str(l.as_slice(), "gif") {
            ResourceType::Image
        } else if chars_equal_str(l.as_slice(), "mp3") || chars_equal_str(l.as_slice(), "wav")
            || chars_equal_str(l.as_slice(), "amr") || chars_equal_str(l.as_slice(), "mid")
            || chars_equal_str(l.as_slice(), "midi") || chars_equal_str(l.as_slice(), "ogg") {
            ResourceType::Audio
        } else {
            ResourceType::Unknown
        }
    }

    /// Get human-readable name.
    pub fn name(&self) -> (res: &'static str)
        ensures
            res@ == spec_type_name(*self),
    {
        match self {
            ResourceType::Scene => "Scene",
            ResourceType::TileMap => "Map",
            ResourceType::Actor => "Actor",
            ResourceType::Script => "Script",
            ResourceType::Image => "Image",
            ResourceType::Audio => "Audio",
            ResourceType::Unknown => "Unknown",
        }
    }
}

/// Index of the last '.' in a name, or -1 when there is none.
pub open spec fn spec_last_dot(s: Seq<char>) -> int
    decreases s.len(),
{
    if s.len() == 0 {
        -1
    } else if s.last() == '.' {
        s.len() - 1
    } else {
        spec_last_dot(s.drop_last())
    }
}

/// The part of a name after its last '.', or the whole name without a dot.
pub open spec fn spec_extension(s: Seq<char>) -> Seq<char> {
    s.subrange(spec_last_dot(s) + 1, s.len() as int)
}

/// The last dot of a name is the dot with no dot after it.
pub proof fn lemma_last_dot(s: Seq<char>, k: int)
    requires
        -1 <= k < s.len(),
        k >= 0 ==> s[k] == '.',
        forall|j: int| k < j < s.len() ==> s[j] != '.',
    ensures
        spec_last_dot(s) == k,
    decreases s.len(),
{
    if s.len() > 0 && s.last() != '.' {
        assert forall|j: int| k < j < s.drop_last().len() implies s.drop_last()[j] != '.' by {
            assert(s.drop_last()[j] == s[j]);
        }
        lemma_last_dot(s.drop_last(), k);
    }
}

/// Index just after the last '.' of a character vector (0 without a dot).
fn extension_start(chars: &[char]) -> (res: usize)
    ensures
        res as int == spec_last_dot(chars@) + 1,
        res <= chars@.len(),
{
    let mut i: usize = chars.len();
    while i > 0
        invariant
            i <= chars.len(),
            forall|j: int| i <= j < chars.len() ==> chars@[j] != '.',
        decreases i,
    {
        if chars[i - 1] == '.' {
            proof {
                lemma_last_dot(chars@, i - 1);
            }
            return i;
        }
        i = i - 1;
    }
    proof {
        lemma_last_dot(chars@, -1);
    }
    0
}

/// Abstract view of a resource entry.
#[verifier::ext_equal]
pub struct ResourceEntryView {
    pub name: Seq<char>,
    pub section_index: usize,
    pub offset: u64,
    pub size: u64,
    pub resource_type: ResourceType,
}

/// A single resource entry in a CBE archive.
#[derive(Debug, Clone)]
pub struct ResourceEntry {
    /// Resource name (e.g., "guangmingshendian.sce")
    pub name: String,
    /// Section index containing this resource
    pub section_index: usize,
    /// Offset of the resource data within the archive (in bytes)
    pub offset: u64,
    /// Size of the resource data (in bytes)
    pub size: u64,
    /// Resource type (derived from extension)
    pub resource_type: ResourceType,
}

impl View for ResourceEntry {
    type V = ResourceEntryView;

    open spec fn view(&self) -> ResourceEntryView {
        ResourceEntryView {
            name: self.name@,
            section_index: self.section_index,
            offset: self.offset,
            size: self.size,
            resource_type: self.resource_type,
        }
    }
}

/// The entry that `ResourceEntry::new` builds from its arguments.
pub open spec fn spec_new_entry(name: Seq<char>, section_index: usize, offset: u64, size: u64) -> ResourceEntryView {
    ResourceEntryView {
        name,
        section_index,
        offset,
        size,
        resource_type: spec_type_of_extension(spec_extension(name)),
    }
}

/// Views of a sequence of entries.
pub open spec fn entries_view(entries: Seq<ResourceEntry>) -> Seq<ResourceEntryView> {
    entries.map_values(|e: ResourceEntry| e@)
}

impl ResourceEntry {
    /// Create a new resource entry; its type follows the name's extension.
    pub fn new(name: String, section_index: usize, offset: u64, size: u64) -> (res: Self)
        ensures
            res@ == spec_new_entry(name@, section_index, offset, size),
    {
        let chars = chars_of(name.as_str());
        let start = extension_start(chars.as_slice());
        let ext = string_from_chars(&chars.as_slice()[start..chars.len()]);
        proof {
            assert(ext@ =~= spec_extension(name@));
        }
        let resource_type = ResourceType::from_extension(ext.as_str());
        ResourceEntry { name, section_index, offset, size, resource_type }
    }

    /// A copy of this entry.
    pub fn clone_entry(&self) -> (res: Self)
        ensures
            res@ == self@,
    {
        ResourceEntry {
            name: self.name.clone(),
            section_index: self.section_index,
            offset: self.offset,
            size: self.size,
            resource_type: self.resource_type,
        }
    }

    /// Get file extension: the text after the last '.', or `None` for a
    /// name without one.
    pub fn extension(&self) -> (res: Option<&str>)
        ensures
            spec_last_dot(self.name@) < 0 ==> res is None,
            spec_last_dot(self.name@) >= 0 ==> (res matches Some(e) && e@ == spec_extension(self.name@)),
    {
        let chars = chars_of(self.name.as_str());
        let start = extension_start(chars.as_slice());
        if start == 0 {
            None
        } else {
            Some(self.name.as_str().substring_char(start, chars.len()))
        }
    }

    /// Check if this is a scene resource.
    pub fn is_scene(&self) -> (res: bool)
        ensures
            res == (self.resource_type == ResourceType::Scene),
    {
        self.resource_type == ResourceType::Scene
    }

    /// Check if this is a script resource.
    pub fn is_script(&self) -> (res: bool)
        ensures
            res == (self.resource_type == ResourceType::Script),
    {
        self.resource_type == ResourceType::Script
    }

    /// Check if this is an audio resource.
    pub fn is_audio(&self) -> (res: bool)
        ensures
            res == (self.resource_type == ResourceType::Audio),
    {
        self.resource_type == ResourceType::Audio
    }
}

} // verus!
