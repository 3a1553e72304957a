//! The audio manager (group 18): volume, pause, resume and stop act on the
//! engine; the play methods pick the bytes to play (from guest memory, a
//! packaged resource or a file) and hand them to the engine, which decodes
//! and queues them.
//!
//! Any call of this group hands the audio over to the guest: the automatic
//! background music stops for good.
use vstd::prelude::*;

use crate::audio_engine::{spec_play_bytes, spec_state, AudioView};
use crate::machine::frame::spec_auto_bgm;
use crate::machine::files::{read_file_path, spec_file_path};
use crate::machine::memory::{spec_read, MachineMemory, MemoryView};
use crate::machine::nicai::{MachineView, NicaiMachine};
use crate::machine::resources::{basename, read_gbk_string, spec_basename, spec_gbk_string, spec_resource_by_id, spec_resource_name_by_id};
use crate::machine::stdio::ServiceRegisters;
use crate::machine::virtual_fs::spec_normalize_path;
use crate::text::{chars_of, eq_ignore_ascii_case, spec_lower};

verus! {

/// The most bytes that a play call takes from guest memory.
pub const MAX_AUDIO_BYTES: u32 = 0x40_0000;

/// `n` bytes read one by one from guest memory at `pointer` on.
pub open spec fn spec_guest_bytes(m: MemoryView, pointer: u32, n: nat) -> (Seq<u8>, MemoryView)
    decreases n,
{
    if n == 0 {
        (Seq::empty(), m)
    } else {
        let (before, m1) = spec_guest_bytes(m, pointer, (n - 1) as nat);
        let (byte, m2) = spec_read(m1, pointer.wrapping_add((n - 1) as u32), 1);
        (before.push(byte as u8), m2)
    }
}

/// Read `n` bytes from guest memory.
fn read_guest_bytes(memory: &mut MachineMemory, pointer: u32, n: u32) -> (res: Vec<u8>)
    ensures
        (res@, final(memory)@) == spec_guest_bytes(old(memory)@, pointer, n as nat),
{
    let mut out: Vec<u8> = Vec::new();
    let mut k: u32 = 0;
    while k < n
        invariant
            k <= n,
            (out@, memory@) == spec_guest_bytes(old(memory)@, pointer, k as nat),
        decreases n - k,
    {
        let byte = memory.r8(pointer.wrapping_add(k));
        out.push(byte);
        k = k + 1;
    }
    out
}

/// The size of guest audio at `pointer`: a five-byte header whose last
/// three bytes give the payload length (big-endian), capped at
/// `MAX_AUDIO_BYTES`.
pub open spec fn spec_guest_audio_size(m: MemoryView, pointer: u32) -> (u32, MemoryView) {
    let (h0, m0) = spec_read(m, pointer, 1);
    let (h1, m1) = spec_read(m0, pointer.wrapping_add(1), 1);
    let (h2, m2) = spec_read(m1, pointer.wrapping_add(2), 1);
    let (h3, m3) = spec_read(m2, pointer.wrapping_add(3), 1);
    let (h4, m4) = spec_read(m3, pointer.wrapping_add(4), 1);
    let length = (h2 as u8) as int * 0x1_0000 + (h3 as u8) as int * 0x100 + (h4 as u8) as int;
    (if 5 + length < MAX_AUDIO_BYTES { (5 + length) as u32 } else { MAX_AUDIO_BYTES }, m4)
}

/// The engine after playing `data`, with the outcome; a track that plays
/// leaves no packaged resource marked as playing.
pub open spec fn spec_play_data(v: MachineView, data: Seq<u8>) -> MachineView {
    let (res, audio) = spec_play_bytes(v.audio, data);
    MachineView {
        audio,
        playing_resource_id: if res is Ok {
            None
        } else {
            v.playing_resource_id
        },
        ..v
    }
}

/// Play the guest audio at `pointer`: its bytes are read and played.
pub open spec fn spec_play_guest_audio(v: MachineView, pointer: u32) -> MachineView {
    let (total, m1) = spec_guest_audio_size(v.memory, pointer);
    let (bytes, m2) = spec_guest_bytes(m1, pointer, total as nat);
    spec_play_data(MachineView { memory: m2, ..v }, bytes)
}

/// The first resource from position `k` on whose name, after its last path
/// separator, matches `name` ignoring ASCII case.
pub open spec fn spec_resource_by_basename(resources: Seq<(Seq<char>, Seq<u8>)>, name: Seq<char>, k: int) -> Option<int>
    decreases resources.len() - k,
{
    if k < 0 || k >= resources.len() {
        None
    } else if spec_lower(spec_basename(resources[k].0)) == spec_lower(name) {
        Some(k)
    } else {
        spec_resource_by_basename(resources, name, k + 1)
    }
}

/// The bytes of the resource with id `id`: the main package's resource of
/// that position when its data is loaded, else the first resource whose
/// name matches the last path part of the name that the id gives (read as
/// GBK, up to 256 bytes).
pub open spec fn spec_resource_bytes_by_id(v: MachineView, id: u32) -> (Option<Seq<u8>>, MachineView) {
    let (direct, v1) = if id < v.resources.len() {
        let (pointer, v1) = spec_resource_by_id(v, id);
        (pointer != 0, v1)
    } else {
        (false, v)
    };
    if direct {
        (Some(v1.resources[id as int].1), v1)
    } else {
        let (name_pointer, v2) = spec_resource_name_by_id(v1, id);
        if name_pointer == 0 {
            (None, v2)
        } else {
            let (name, m3) = spec_gbk_string(v2.memory, name_pointer, 256);
            let v3 = MachineView { memory: m3, ..v2 };
            match spec_resource_by_basename(v3.resources, spec_basename(name), 0) {
                Some(i) => (Some(v3.resources[i].1), v3),
                None => (None, v3),
            }
        }
    }
}

/// Play the resource with id `id`: nothing while that resource still plays
/// with samples buffered, nothing for an unknown resource; else its bytes
/// are played, and it is marked as playing when they play (no resource is
/// marked when the engine refuses them).
pub open spec fn spec_play_resource(v: MachineView, id: u32) -> MachineView {
    if v.playing_resource_id == Some(id) && spec_state(v.audio) == 1 && v.audio.samples.len() / 2 > 0 {
        v
    } else {
        let (bytes, v1) = spec_resource_bytes_by_id(v, id);
        match bytes {
            None => v1,
            Some(data) => spec_play_resource_data(v1, id, data),
        }
    }
}

/// Play the bytes of the resource with id `id`: it is marked as playing
/// when they play, and no resource is when the engine refuses them.
pub open spec fn spec_play_resource_data(v: MachineView, id: u32, data: Seq<u8>) -> MachineView {
    let (res, audio) = spec_play_bytes(v.audio, data);
    MachineView {
        audio,
        playing_resource_id: if res is Ok {
            Some(id)
        } else {
            None
        },
        ..v
    }
}

/// Play the file named by the guest path at `address`: nothing for an
/// empty path; the bytes of the file system's file under it, else of the
/// first resource matching its last path part, are played; nothing when
/// neither exists.
pub open spec fn spec_play_file(v: MachineView, address: u32) -> MachineView {
    let (path, m1) = spec_file_path(v.memory, address);
    let v1 = MachineView { memory: m1, ..v };
    if path.len() == 0 {
        v1
    } else {
        let in_fs = match spec_normalize_path(path) {
            Some(p) => if v1.fs.files.contains_key(p) {
                Some(v1.fs.files[p])
            } else {
                None
            },
            None => None,
        };
        match in_fs {
            Some(data) => spec_play_data(v1, data),
            None => match spec_resource_by_basename(v1.resources, spec_basename(path), 0) {
                Some(i) => spec_play_data(v1, v1.resources[i].1),
                None => v1,
            },
        }
    }
}

/// The audio stopped: not playing, not paused, nothing buffered.
pub open spec fn spec_stopped(a: AudioView) -> AudioView {
    AudioView { playing: false, paused: false, samples: Seq::empty(), ..a }
}

/// The machine once the guest has taken over the audio: with automatic
/// background music on, it gives way for good, the audio stops and no
/// resource plays.
pub open spec fn spec_give_way(v: MachineView) -> MachineView {
    if v.auto_bgm {
        MachineView {
            auto_bgm_gave_way: true,
            audio: spec_stopped(v.audio),
            playing_resource_id: None,
            ..v
        }
    } else {
        v
    }
}

/// The audio manager (group 18), after the automatic music gave way: set
/// the volume (0); play guest audio (1, 9); play a resource (2 to 4);
/// pause (5, 10, 14); resume (6, 11,
/// 15); stop, no resource playing (7, 12, 16); the playback state (8);
/// play a file (13, 25). Only 8 answers other than 0.
#[verifier::opaque]
pub open spec fn spec_audio_service(v: MachineView, index: u32, registers: ServiceRegisters) -> (u32, MachineView) {
    let w = spec_give_way(v);
    let r0 = registers.r0;
    if index == 0 {
        (0, MachineView { audio: AudioView { volume: if r0 < 100 { r0 } else { 100 }, ..w.audio }, ..w })
    } else if index == 1 || index == 9 {
        (0, spec_play_guest_audio(w, r0))
    } else if 2 <= index && index <= 4 {
        (0, spec_play_resource(w, r0))
    } else if index == 5 || index == 10 || index == 14 {
        (0, MachineView { audio: AudioView { paused: true, ..w.audio }, ..w })
    } else if index == 6 || index == 11 || index == 15 {
        (0, MachineView { audio: AudioView { paused: false, ..w.audio }, ..w })
    } else if index == 7 || index == 12 || index == 16 {
        (0, MachineView { audio: spec_stopped(w.audio), playing_resource_id: None, ..w })
    } else if index == 8 {
        (spec_state(w.audio), w)
    } else if index == 13 || index == 25 {
        (0, spec_play_file(w, r0))
    } else {
        (0, w)
    }
}

impl NicaiMachine {
    /// Play `data` on the engine (see `spec_play_data`).
    fn play_data(&mut self, data: &[u8])
        requires
            old(self).wf(),
        ensures
            final(self).wf(),
            final(self)@ == spec_play_data(old(self)@, data@),
    {
        if self.audio.play_bytes(data).is_ok() {
            self.playing_resource_id = None;
        }
    }

    /// Play guest audio (see `spec_play_guest_audio`).
    fn play_guest_audio(&mut self, pointer: u32)
        requires
            old(self).wf(),
        ensures
            final(self).wf(),
            final(self)@ == spec_play_guest_audio(old(self)@, pointer),
    {
        let h0 = self.memory.r8(pointer);
        let h1 = self.memory.r8(pointer.wrapping_add(1));
        let h2 = self.memory.r8(pointer.wrapping_add(2));
        let h3 = self.memory.r8(pointer.wrapping_add(3));
        let h4 = self.memory.r8(pointer.wrapping_add(4));
        let length: u32 = h2 as u32 * 0x1_0000 + h3 as u32 * 0x100 + h4 as u32;
        let total: u32 = if 5 + length < MAX_AUDIO_BYTES {
            5 + length
        } else {
            MAX_AUDIO_BYTES
        };
        let bytes = read_guest_bytes(&mut self.memory, pointer, total);
        self.play_data(bytes.as_slice());
    }

    /// The position of the first resource whose name's last path part
    /// matches `name` (see `spec_resource_by_basename`).
    fn resource_index_by_basename(&self, name: &[char]) -> (res: Option<usize>)
        ensures
            match res {
                Some(i) => spec_resource_by_basename(self@.resources, name@, 0) == Some(i as int)
                    && i < self@.resources.len(),
                None => spec_resource_by_basename(self@.resources, name@, 0) is None,
            },
    {
        let ghost rv = self@.resources;
        let mut k: usize = 0;
        while k < self.resources.len()
            invariant
                k <= self.resources@.len(),
                rv == self@.resources,
                spec_resource_by_basename(rv, name@, 0) == spec_resource_by_basename(rv, name@, k as int),
            decreases self.resources@.len() - k,
        {
            let full = chars_of(self.resources[k].name.as_str());
            assert(rv[k as int] == self.resources@[k as int]@);
            let candidate = basename(full.as_slice());
            if eq_ignore_ascii_case(candidate.as_slice(), name) {
                return Some(k);
            }
            k = k + 1;
        }
        None
    }

    /// The bytes of the resource with id `id` (see
    /// `spec_resource_bytes_by_id`).
    fn resource_bytes_by_id(&mut self, id: u32) -> (res: Option<Vec<u8>>)
        requires
            old(self).wf(),
        ensures
            final(self).wf(),
            (match res {
                Some(d) => Some(d@),
                None => None::<Seq<u8>>,
            }, final(self)@) == spec_resource_bytes_by_id(old(self)@, id),
    {
        let mut direct = false;
        if (id as usize) < self.resources.len() {
            let pointer = self.resource_by_id(id);
            direct = pointer != 0;
        }
        if direct {
            let i = id as usize;
            assert(self@.resources[i as int] == self.resources@[i as int]@);
            return Some(vstd::slice::slice_to_vec(self.resources[i].data.as_slice()));
        }
        let name_pointer = self.resource_name_by_id(id);
        if name_pointer == 0 {
            return None;
        }
        let name = read_gbk_string(&mut self.memory, name_pointer, 256);
        let name_chars = chars_of(name.as_str());
        let base = basename(name_chars.as_slice());
        match self.resource_index_by_basename(base.as_slice()) {
            Some(i) => {
                assert(self@.resources[i as int] == self.resources@[i as int]@);
                Some(vstd::slice::slice_to_vec(self.resources[i].data.as_slice()))
            },
            None => None,
        }
    }

    /// Play the bytes of a resource (see `spec_play_resource_data`).
    fn play_resource_data(&mut self, id: u32, data: &[u8])
        requires
            old(self).wf(),
        ensures
            final(self).wf(),
            final(self)@ == spec_play_resource_data(old(self)@, id, data@),
    {
        if self.audio.play_bytes(data).is_ok() {
            self.playing_resource_id = Some(id);
        } else {
            self.playing_resource_id = None;
        }
    }

    /// Play a packaged resource (see `spec_play_resource`).
    fn play_resource(&mut self, id: u32)
        requires
            old(self).wf(),
        ensures
            final(self).wf(),
            final(self)@ == spec_play_resource(old(self)@, id),
    {
        if self.playing_resource_id == Some(id) && self.audio.state() == 1 && self.audio.buffered_frames() > 0 {
            return;
        }
        match self.resource_bytes_by_id(id) {
            None => {},
            Some(data) => self.play_resource_data(id, data.as_slice()),
        }
    }

    /// Play a file (see `spec_play_file`).
    fn play_file(&mut self, address: u32)
        requires
            old(self).wf(),
        ensures
            final(self).wf(),
            final(self)@ == spec_play_file(old(self)@, address),
    {
        let path = read_file_path(&mut self.memory, address);
        let path_chars = chars_of(path.as_str());
        if path_chars.len() == 0 {
            return;
        }
        let in_fs = match self.virtual_fs.file(path.as_str()) {
            Some(d) => Some(vstd::slice::slice_to_vec(d)),
            None => None,
        };
        match in_fs {
            Some(data) => self.play_data(data.as_slice()),
            None => {
                let base = basename(path_chars.as_slice());
                match self.resource_index_by_basename(base.as_slice()) {
                    Some(i) => {
                        assert(self@.resources[i as int] == self.resources@[i as int]@);
                        let data = vstd::slice::slice_to_vec(self.resources[i].data.as_slice());
                        self.play_data(data.as_slice());
                    },
                    None => {},
                }
            },
        }
    }

    /// Hand the audio over to the guest (see `spec_give_way`).
    fn give_way(&mut self)
        requires
            old(self).wf(),
        ensures
            final(self).wf(),
            final(self)@ == spec_give_way(old(self)@),
    {
        if self.auto_bgm {
            self.auto_bgm_gave_way = true;
            self.audio.stop();
            self.playing_resource_id = None;
        }
    }

    /// Run audio-manager service `index` (group 18).
    pub fn handle_audio_service(&mut self, index: u32, registers: ServiceRegisters) -> (res: u32)
        requires
            old(self).wf(),
        ensures
            final(self).wf(),
            (res, final(self)@) == spec_audio_service(old(self)@, index, registers),
    {
        reveal(spec_audio_service);
        self.give_way();
        let r0 = registers.r0;
        match index {
            0 => self.audio.set_volume(r0),
            1 | 9 => self.play_guest_audio(r0),
            2 | 3 | 4 => self.play_resource(r0),
            5 | 10 | 14 => self.audio.pause(),
            6 | 11 | 15 => self.audio.resume(),
            7 | 12 | 16 => {
                self.audio.stop();
                self.playing_resource_id = None;
            },
            8 => {
                return self.audio.state();
            },
            13 | 25 => self.play_file(r0),
            _ => {},
        }
        0
    }
}

/// Once the guest has called the audio manager, the automatic background
/// music has given way for good: the machine says so, and the automatic
/// music step leaves it unchanged.
pub proof fn lemma_audio_call_silences_auto_bgm(v: MachineView, index: u32, registers: ServiceRegisters)
    requires
        v.auto_bgm,
    ensures
        spec_audio_service(v, index, registers).1.auto_bgm_gave_way,
        spec_auto_bgm(spec_audio_service(v, index, registers).1) == spec_audio_service(v, index, registers).1,
{
    reveal(spec_audio_service);
}

} // verus!
