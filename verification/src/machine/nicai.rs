//! The emulated machine: guest memory, heap, registers, screens, timers,
//! keys, pointer, packaged resources, the virtual file system and audio,
//! together with the initial memory image built from a CBE file.
//!
//! The ARM core itself is not part of this module. Whoever runs the machine
//! asks it, before every instruction, what to do at the program counter
//! (`before_instruction`), and lets the core execute the instruction only
//! when the machine says so. Booting and running a frame call guest code
//! several times; `start_boot`, `start_frame` and `resume` drive them as a
//! sequence of guest calls (see `frame.rs`).
use std::collections::BTreeSet;

use vstd::prelude::*;

use crate::audio_engine::{spec_sample_bytes, spec_sum_squares, AudioDiagnostics, AudioEngine, AudioView, AUDIO_SAMPLE_RATE, MAX_QUEUED_SAMPLES};
use crate::cbe::archive::{sections_view, CbeArchive, CbeSection, CbeSectionView};
use crate::cbe::resource::ResourceEntryView;
use crate::machine::cpu::{CpuRegisters, CpuView};
use crate::machine::executable::{
    spec_code_address,
    spec_data_address,
    spec_advance,
    spec_fe_run_end,
    spec_first_bad_marker,
    spec_first_candidate,
    spec_segment_matches,
    spec_locate,
    spec_parse_executable,
    spec_segment_fields,
    spec_segments,
    CbeExecutable,
    ExecutableError,
    SegmentKind,
};
use crate::machine::heap::{spec_empty_heap, spec_heap_wf, GuestHeap, HeapView, HEAP_BASE};
use crate::machine::memory::{
    spec_find_region,
    spec_read,
    spec_store,
    spec_write,
    MachineMemory,
    MemoryError,
    MemoryRegionInfo,
    MemoryView,
    RegionView,
};
use crate::machine::packages::{
    grouped_package_resources,
    native_package_resources,
    resources_view,
    spec_grouped_package,
    spec_native_package,
    HostResource,
};
use crate::machine::screens::{ScreenState, ScreenView};
use crate::machine::services::{MEMORY_BLOCK_PTR, SERVICE_BASE};
use crate::machine::tables::{
    populate_table,
    spec_populate_from,
    APP_STORE_MANAGER,
    DL_IMAGE_MANAGER,
    DL_LOAD_MANAGER,
    DL_PAY_MANAGER,
    DL_RESOURCE_MANAGER,
    FIXED_MANAGER_INIT,
    LOG_NOOP_SERVICE,
    MANAGER_BASE,
    TABLE_STRIDE,
    VIDEO_MANAGER,
};
use crate::machine::timers::{GuestTimer, GuestTimers, MAX_TIMERS};
use crate::machine::virtual_fs::{FsView, VirtualFileSystem};
use crate::machine::{
    fixed_manager_specs,
    rotate_frame,
    spec_pointer_set,
    spec_rotate_frame_ok,
    spec_swaps_dimensions,
    spec_unrotate,
    update_physical_key_bits,
    FRAME_HEIGHT,
    FRAME_WIDTH,
    rotation_for_archive,
    spec_fixed_manager_specs,
    MachineState,
    PointerState,
    Rotation,
};
use crate::bytes::{spec_crc32, spec_u32_be};
use crate::rotation_profile::spec_builtin_landscape;

verus! {

/// First guest address of the stack.
pub const STACK_BASE: u32 = 0x0200_0000;
/// Size of the stack.
pub const STACK_SIZE: u32 = 0x10_0000;
/// Size of the heap region (allocations, memory blocks and the screen).
pub const HEAP_SIZE: u32 = 0x100_0000;
/// Size of the manager region.
pub const MANAGER_SIZE: u32 = 0x10_0000;
/// Directory of the fixed-layout managers.
pub const FIXED_MANAGER_DIRECTORY: u32 = 0x0a00_a000;
/// Slot holding the current data package.
pub const DREAM_FACTORY_PACKAGE_SLOT: u32 = 0x0a00_7ff0;
/// Slot holding the memory block of the engine.
pub const DREAM_FACTORY_MEMORY_BLOCK_SLOT: u32 = 0x0a00_7ff4;
/// Buffer of the engine's formatted strings.
pub const DREAM_FACTORY_FORMAT_BUFFER: u32 = 0x0a00_7f80;
/// Size of that buffer.
pub const DREAM_FACTORY_FORMAT_BUFFER_SIZE: u32 = 64;
/// Word that carries the key of a key event to the guest.
pub const KEY_EVENT_ARG: u32 = 0x0a00_7fdc;
/// Size of a data package object.
pub const DATA_PACKAGE_SIZE: u32 = 108;
/// The image descriptor of the screen.
pub const SCREEN_IMAGE_STRUCT: u32 = 0x0580_0408;
/// The RGB565 pixels of the screen.
pub const SCREEN_IMAGE: u32 = 0x0580_0420;

/// A key press or release waiting for the guest.
#[derive(Debug, Clone, Copy, PartialEq, Eq, Structural)]
pub struct KeyEvent {
    pub key: u8,
    pub pressed: bool,
}

/// Why the machine cannot be built or stopped running guest code.
#[derive(Debug, Clone, Copy, PartialEq, Eq)]
pub enum MachineError {
    /// The executable header was rejected.
    Executable(ExecutableError),
    /// A segment could not be loaded.
    Memory(MemoryError),
    /// A frame was requested before the machine was ready.
    NotReady,
    /// The guest initializer returned without registering an entry.
    NoApplicationEntry,
    /// The native initializer returned without registering an entry.
    NoNativeApplicationEntry,
    /// No screen is active and no timer is running.
    NoActiveScreen,
    /// The active screen has no render callback.
    NoRenderCallback(u32),
    /// The program counter left mapped memory.
    UnmappedFetch(u32),
    /// The core could not decode the instruction at this address.
    UnsupportedInstruction(u32),
    /// A semihosting call with an unknown reason (reason, address).
    UnhandledSemihosting(u32, u32),
    /// A guest call ran out of its instruction budget (budget, last address).
    InstructionLimit(u64, u32),
}

/// The machine as plain values.
pub struct MachineView {
    pub cpu: CpuView,
    pub memory: MemoryView,
    pub heap: HeapView,
    pub audio: AudioView,
    pub executable: CbeExecutable,
    pub state: MachineState,
    pub app_main: u32,
    pub app_exit: u32,
    pub instruction_count: u64,
    pub frame_count: u64,
    pub last_pc: u32,
    pub screens: ScreenView,
    pub key_down: u32,
    pub key_held: u32,
    pub key_held_physical: u32,
    pub pending_keys: Seq<KeyEvent>,
    pub pointer: PointerState,
    pub timers: Seq<GuestTimer>,
    pub resources: Seq<(Seq<char>, Seq<u8>)>,
    pub resource_data: Seq<u32>,
    pub resource_names: Seq<u32>,
    pub app_image_package: u32,
    pub inner_image_package: u32,
    pub current_image_package: u32,
    pub native_app_parser: u32,
    pub native_app_init: u32,
    pub native_system_info: u32,
    pub native_property_info: u32,
    pub fs: FsView,
    /// Whether the file system stores no path twice.
    pub fs_wf: bool,
    pub rotation: Rotation,
    pub effective_rotation: Rotation,
    pub auto_bgm: bool,
    pub auto_bgm_gave_way: bool,
    pub playing_resource_id: Option<u32>,
    pub service_calls: Seq<(u32, u32, u64)>,
    pub phase: FramePhase,
    pub due_timers: Seq<(u32, u32)>,
    pub frame_screen: u32,
    pub frame_this: u32,
    pub frame_logic: u32,
    pub frame_had_screen: bool,
}

/// Where a boot or a frame goes on when the guest call it made returns.
#[derive(Debug, Clone, Copy, PartialEq, Eq, Structural)]
pub enum FramePhase {
    /// No boot or frame is under way.
    Idle,
    /// The executable's initializer.
    BootInitializer,
    /// The native application parser, during boot.
    BootNativeParser,
    /// The native application initializer, during boot.
    BootNativeInit,
    /// The application entry, during boot.
    BootMain,
    /// A timer callback; the next due timer is at this index.
    Timers(u32),
    /// The screen's initializer.
    ScreenInit,
    /// The screen's resource loader.
    ScreenLoad,
    /// The screen's logic with a key event.
    KeyLogic,
    /// The screen's logic for the frame.
    Logic,
    /// The screen's renderer.
    Render,
    /// The native application parser, once per frame.
    NativeFrame,
}


/// A platform-independent ARM machine for executable CBE games.
pub struct NicaiMachine {
    pub cpu: CpuRegisters,
    pub memory: MachineMemory,
    pub heap: GuestHeap,
    pub audio: AudioEngine,
    pub executable: CbeExecutable,
    pub state: MachineState,
    pub app_main: u32,
    pub app_exit: u32,
    pub instruction_count: u64,
    pub frame_count: u64,
    pub last_pc: u32,
    pub screens: ScreenState,
    pub key_down: u32,
    pub key_held: u32,
    pub key_held_physical: u32,
    pub pending_keys: Vec<KeyEvent>,
    pub pointer: PointerState,
    pub timers: GuestTimers,
    pub resources: Vec<HostResource>,
    pub resource_data: Vec<u32>,
    pub resource_names: Vec<u32>,
    pub app_image_package: u32,
    pub inner_image_package: u32,
    pub current_image_package: u32,
    pub native_app_parser: u32,
    pub native_app_init: u32,
    pub native_system_info: u32,
    pub native_property_info: u32,
    pub virtual_fs: VirtualFileSystem,
    pub rotation: Rotation,
    pub effective_rotation: Rotation,
    pub auto_bgm: bool,
    pub auto_bgm_gave_way: bool,
    pub playing_resource_id: Option<u32>,
    pub service_calls: Vec<(u32, u32, u64)>,
    pub phase: FramePhase,
    pub due_timers: Vec<(u32, u32)>,
    pub frame_screen: u32,
    pub frame_this: u32,
    pub frame_logic: u32,
    pub frame_had_screen: bool,
}

impl View for NicaiMachine {
    type V = MachineView;

    open spec fn view(&self) -> MachineView {
        MachineView {
            cpu: self.cpu@,
            memory: self.memory@,
            heap: self.heap@,
            audio: self.audio@,
            executable: self.executable,
            state: self.state,
            app_main: self.app_main,
            app_exit: self.app_exit,
            instruction_count: self.instruction_count,
            frame_count: self.frame_count,
            last_pc: self.last_pc,
            screens: self.screens@,
            key_down: self.key_down,
            key_held: self.key_held,
            key_held_physical: self.key_held_physical,
            pending_keys: self.pending_keys@,
            pointer: self.pointer,
            timers: self.timers@,
            resources: resources_view(self.resources@),
            resource_data: self.resource_data@,
            resource_names: self.resource_names@,
            app_image_package: self.app_image_package,
            inner_image_package: self.inner_image_package,
            current_image_package: self.current_image_package,
            native_app_parser: self.native_app_parser,
            native_app_init: self.native_app_init,
            native_system_info: self.native_system_info,
            native_property_info: self.native_property_info,
            fs: self.virtual_fs@,
            fs_wf: self.virtual_fs.wf(),
            rotation: self.rotation,
            effective_rotation: self.effective_rotation,
            auto_bgm: self.auto_bgm,
            auto_bgm_gave_way: self.auto_bgm_gave_way,
            playing_resource_id: self.playing_resource_id,
            service_calls: self.service_calls@,
            phase: self.phase,
            due_timers: self.due_timers@,
            frame_screen: self.frame_screen,
            frame_this: self.frame_this,
            frame_logic: self.frame_logic,
            frame_had_screen: self.frame_had_screen,
        }
    }
}

/// The heap keeps its invariant, every timer slot exists, the virtual file
/// system stores no path twice and the audio engine is in range.
pub open spec fn spec_machine_wf(v: MachineView) -> bool {
    &&& spec_heap_wf(v.heap)
    &&& v.timers.len() == MAX_TIMERS
    &&& v.fs_wf
    &&& v.audio.volume <= 100
    &&& v.audio.samples.len() <= MAX_QUEUED_SAMPLES
    &&& v.audio.samples.len() % 2 == 0
    &&& v.resource_data.len() == v.resource_names.len()
    &&& (v.resource_data.len() == 0 || v.resource_data.len() == v.resources.len())
    &&& v.due_timers.len() <= MAX_TIMERS
    &&& (v.phase matches FramePhase::Timers(i) ==> i <= v.due_timers.len())
}

/// Whether the executable uses the fixed-layout manager interface.
pub open spec fn spec_uses_fixed_manager_abi(e: CbeExecutable) -> bool {
    e.big_endian && e.preferred_code_address != 0 && e.code_image_size as int > e.code_size as int
}

/// Whether the executable uses the native dispatcher interface.
pub open spec fn spec_uses_native_dispatch_abi(e: CbeExecutable) -> bool {
    e.big_endian && e.preferred_code_address != 0 && !spec_uses_fixed_manager_abi(e)
}

/// The size of the code region: code and data images (their sum saturating
/// at `u32::MAX`) or the code segment if larger, rounded up to 4 KiB.
pub open spec fn spec_rom_size(e: CbeExecutable) -> int {
    let images = if e.code_image_size + e.data_image_size > u32::MAX {
        u32::MAX as int
    } else {
        e.code_image_size + e.data_image_size
    };
    let code = (e.code_size as int) % 0x1_0000_0000;
    let larger = if images >= code {
        images
    } else {
        code
    };
    if larger % 0x1000 == 0 {
        larger
    } else {
        larger + 0x1000 - larger % 0x1000
    }
}

/// Memory with one more zero-filled region.
pub open spec fn spec_mapped(m: MemoryView, base: u32, size: int, read_only: bool) -> MemoryView {
    MemoryView {
        regions: m.regions.push(RegionView { base, data: Seq::new(size as nat, |i: int| 0u8), read_only }),
        ..m
    }
}

/// Memory after loading `data` at `address`, or the failure.
pub open spec fn spec_loaded(m: MemoryView, address: u32, data: Seq<u8>) -> Result<MemoryView, MachineError> {
    match spec_find_region(m.regions, address, data.len() as int) {
        Some(i) => Ok(MemoryView { regions: spec_store(m.regions, i, address, data), ..m }),
        None => Err(MachineError::Memory(MemoryError::NotMapped)),
    }
}

/// The four regions of a fresh machine: code and data, stack, heap and
/// managers, all writable.
pub open spec fn spec_regions(e: CbeExecutable) -> MemoryView {
    let m0 = MemoryView { regions: Seq::empty(), bad_accesses: Set::empty(), big_endian: e.big_endian };
    let m1 = spec_mapped(m0, spec_code_address(e), spec_rom_size(e), false);
    let m2 = spec_mapped(m1, STACK_BASE, STACK_SIZE as int, false);
    let m3 = spec_mapped(m2, HEAP_BASE, HEAP_SIZE as int, false);
    spec_mapped(m3, MANAGER_BASE, MANAGER_SIZE as int, false)
}

/// The manager tables 1 to `count`: table `t + 1` holds the entry points of
/// service group `t`.
pub open spec fn spec_group_tables(m: MemoryView, count: int) -> MemoryView
    decreases count,
{
    if count <= 0 {
        m
    } else {
        let t = count - 1;
        spec_populate_from(
            spec_group_tables(m, t),
            (MANAGER_BASE + TABLE_STRIDE * (t + 1)) as u32,
            (SERVICE_BASE + TABLE_STRIDE * t) as u32,
            TABLE_STRIDE / 4,
            0,
        )
    }
}

/// The first `count` entries of the fixed-manager directory.
pub open spec fn spec_fixed_directory(m: MemoryView, count: int) -> MemoryView
    decreases count,
{
    if count <= 0 {
        m
    } else {
        let i = count - 1;
        spec_write(
            spec_fixed_directory(m, i),
            (FIXED_MANAGER_DIRECTORY + spec_fixed_manager_specs()[i].0) as u32,
            (FIXED_MANAGER_INIT + i * 4) as u32,
            4,
        )
    }
}

/// The download, video, payment and app-store managers.
pub open spec fn spec_download_managers(m: MemoryView) -> MemoryView {
    let m1 = spec_populate_from(m, DL_LOAD_MANAGER, (SERVICE_BASE + TABLE_STRIDE * 22) as u32, 11, 0);
    let m2 = spec_populate_from(m1, VIDEO_MANAGER, (SERVICE_BASE + TABLE_STRIDE * 23) as u32, 38, 0);
    let m3 = spec_populate_from(m2, DL_PAY_MANAGER, (SERVICE_BASE + TABLE_STRIDE * 24) as u32, 16, 0);
    let m4 = spec_populate_from(m3, DL_RESOURCE_MANAGER, (SERVICE_BASE + TABLE_STRIDE * 25) as u32, 20, 0);
    let m5 = spec_populate_from(m4, DL_IMAGE_MANAGER, (SERVICE_BASE + TABLE_STRIDE * 26) as u32, 12, 0);
    spec_populate_from(m5, APP_STORE_MANAGER, (SERVICE_BASE + TABLE_STRIDE * 28) as u32, 40, 0)
}

/// The manager tables of a fresh machine: one table per service group, the
/// manager directory (the fixed-layout one for the fixed interface), the
/// logging entry and the download managers.
pub open spec fn spec_initialize_tables(m: MemoryView, fixed: bool) -> MemoryView {
    let m1 = spec_group_tables(m, 27);
    let m2 = spec_write(m1, (MANAGER_BASE + 8) as u32, (MANAGER_BASE + TABLE_STRIDE) as u32, 4);
    let m3 = spec_write(m2, (MANAGER_BASE + 12) as u32, LOG_NOOP_SERVICE, 4);
    let m4 = spec_write(m3, (MANAGER_BASE + 16) as u32, (MANAGER_BASE + 0x9000) as u32, 4);
    let m5 = if fixed {
        spec_write(
            spec_fixed_directory(m4, spec_fixed_manager_specs().len() as int),
            (MANAGER_BASE + 8) as u32,
            FIXED_MANAGER_DIRECTORY,
            4,
        )
    } else {
        m4
    };
    spec_download_managers(m5)
}

/// The screen's image descriptor: pixels, width 240, height 400, pitch 240.
pub open spec fn spec_initialize_screen(m: MemoryView) -> MemoryView {
    let m1 = spec_write(m, SCREEN_IMAGE_STRUCT, SCREEN_IMAGE, 4);
    let m2 = spec_write(m1, (SCREEN_IMAGE_STRUCT + 4) as u32, 240, 2);
    let m3 = spec_write(m2, (SCREEN_IMAGE_STRUCT + 6) as u32, 400, 2);
    spec_write(m3, (SCREEN_IMAGE_STRUCT + 8) as u32, 240, 2)
}

/// Guest memory of a fresh machine: the regions, the code and the
/// initialized data loaded, the manager tables and the screen descriptor.
pub open spec fn spec_initial_memory(e: CbeExecutable, bytes: Seq<u8>) -> Result<MemoryView, MachineError> {
    let code = bytes.subrange(e.code_offset as int, e.code_offset + e.code_size);
    let data = bytes.subrange(e.data_offset as int, e.data_offset + e.initialized_data_size);
    match spec_loaded(spec_regions(e), spec_code_address(e), code) {
        Err(err) => Err(err),
        Ok(m1) => match spec_loaded(m1, spec_data_address(e), data) {
            Err(err) => Err(err),
            Ok(m2) => Ok(spec_initialize_screen(spec_initialize_tables(m2, spec_uses_fixed_manager_abi(e)))),
        },
    }
}

/// The resources of one archive entry that lies inside the file.
pub open spec fn spec_entry_resources(entries: Seq<ResourceEntryView>, bytes: Seq<u8>, count: int) -> Seq<
    (Seq<char>, Seq<u8>),
>
    decreases count,
{
    if count <= 0 {
        Seq::empty()
    } else {
        let rest = spec_entry_resources(entries, bytes, count - 1);
        let e = entries[count - 1];
        if e.offset + e.size <= bytes.len() {
            rest.push((e.name, bytes.subrange(e.offset as int, e.offset + e.size)))
        } else {
            rest
        }
    }
}

/// The first section whose resource list starts at `offset`.
pub open spec fn spec_section_at(sections: Seq<CbeSectionView>, offset: int, k: int) -> Option<int>
    decreases sections.len() - k,
{
    if k < 0 || k >= sections.len() {
        None
    } else if sections[k].header.file_offset + 8 == offset {
        Some(k)
    } else {
        spec_section_at(sections, offset, k + 1)
    }
}

/// The packaged resources of a fresh machine: the native package, else the
/// grouped package, else the resources of the archive section that starts
/// at the resource package.
pub open spec fn spec_initial_resources(
    e: CbeExecutable,
    bytes: Seq<u8>,
    sections: Seq<CbeSectionView>,
) -> Seq<(Seq<char>, Seq<u8>)> {
    let native = spec_native_package(bytes, e.resource_package_offset as int);
    if native.len() > 0 {
        native
    } else {
        let grouped = spec_grouped_package(bytes, e.resource_package_offset as int, e.resource_package_size as int);
        if grouped.len() > 0 {
            grouped
        } else {
            match spec_section_at(sections, e.resource_package_offset as int, 0) {
                Some(k) => spec_entry_resources(
                    sections[k].resources,
                    bytes,
                    sections[k].resources.len() as int,
                ),
                None => Seq::empty(),
            }
        }
    }
}

/// Whether the code region of an executable fits the address space.
pub open spec fn spec_image_fits(bytes: Seq<u8>) -> bool {
    match spec_parse_executable(bytes) {
        Ok(e) => spec_rom_size(e) <= u32::MAX,
        Err(_) => true,
    }
}

/// The machine built from an archive: an error where the header is rejected
/// or a segment cannot be loaded; otherwise a created machine with the
/// initial memory, an empty heap, idle timers and screens, the packaged
/// resources and the rotation of the content-identity profile.
pub open spec fn spec_new_machine_ok(v: MachineView, bytes: Seq<u8>, sections: Seq<CbeSectionView>) -> bool {
    &&& spec_parse_executable(bytes) == Ok::<CbeExecutable, ExecutableError>(v.executable)
    &&& spec_initial_memory(v.executable, bytes) == Ok::<MemoryView, MachineError>(v.memory)
    &&& v.cpu.gpr == Seq::new(16, |i: int| 0u32)
    &&& v.cpu.cpsr == 0
    &&& v.heap == spec_empty_heap()
    &&& v.state == MachineState::Created
    &&& v.app_main == 0 && v.app_exit == 0
    &&& v.instruction_count == 0 && v.frame_count == 0 && v.last_pc == 0
    &&& v.screens == (ScreenView {
        stack: Seq::empty(),
        pending: 0,
        active: 0,
        initialized: false,
        load_screen: 0,
        load_pending: false,
    })
    &&& v.key_down == 0 && v.key_held == 0 && v.key_held_physical == 0
    &&& v.pending_keys == Seq::<KeyEvent>::empty()
    &&& v.pointer == (PointerState { held: false, down: false, up: false, x: 0, y: 0, press_x: 0, press_y: 0 })
    &&& v.timers == Seq::new(MAX_TIMERS as nat, |i: int| GuestTimer { active: false, callback: 0, context: 0, remaining_frames: 0 })
    &&& v.resources == spec_initial_resources(v.executable, bytes, sections)
    &&& v.resource_data == Seq::<u32>::empty() && v.resource_names == Seq::<u32>::empty()
    &&& v.app_image_package == 0 && v.inner_image_package == 0 && v.current_image_package == 0
    &&& v.native_app_parser == 0 && v.native_app_init == 0
    &&& v.native_system_info == 0 && v.native_property_info == 0
    &&& v.rotation == Rotation::Auto
    &&& v.effective_rotation == (if spec_builtin_landscape(spec_crc32(bytes), bytes.len() as int) {
        Rotation::Ccw
    } else {
        Rotation::Unrotated
    })
    &&& !v.auto_bgm && !v.auto_bgm_gave_way
    &&& v.playing_resource_id == None::<u32>
    &&& v.service_calls == Seq::<(u32, u32, u64)>::empty()
    &&& v.phase == FramePhase::Idle
    &&& v.due_timers == Seq::<(u32, u32)>::empty()
}

/// A located segment starts after its separator.
proof fn lemma_candidate_after(
    data: Seq<u8>,
    start: int,
    size: int,
    expected: u32,
    mode: Option<bool>,
    s: int,
    hi: int,
)
    requires
        spec_first_candidate(data, start, size, expected, mode, s, hi) is Some,
    ensures
        spec_first_candidate(data, start, size, expected, mode, s, hi)->Some_0.0 >= start + s,
    decreases hi - s + 1,
{
    if s <= hi && spec_segment_matches(data, start + s, size, expected, mode) is None {
        lemma_candidate_after(data, start, size, expected, mode, s + 1, hi);
    }
}

/// The three checked segments end inside the data.
proof fn lemma_segments_in_file(data: Seq<u8>, cursor: int, f: Seq<u32>)
    requires
        spec_segments(data, cursor, f) is Ok,
        cursor >= 0,
    ensures
        ({
            let s = spec_segments(data, cursor, f)->Ok_0;
            &&& 0 <= s.0 && s.0 + f[0] <= data.len() && s.0 + f[0] <= usize::MAX
            &&& 0 <= s.1 && s.1 + f[2] <= data.len() && s.1 + f[2] <= usize::MAX
        }),
{
    let len = data.len() as int;
    let sep = spec_fe_run_end(data, cursor) - cursor;
    if f[0] == 0 {
        lemma_candidate_after(data, cursor, f[0] as int, f[1], None, sep, sep);
    } else {
        lemma_candidate_after(data, cursor, f[0] as int, f[1], None, 8, sep);
    }
    let (code_offset, big_endian) = spec_locate(data, cursor, f[0] as int, f[1], None, SegmentKind::Code)->Ok_0;
    let c1 = spec_advance(code_offset, f[0] as int, len, SegmentKind::Code)->Ok_0;
    let sep2 = spec_fe_run_end(data, c1) - c1;
    if f[2] == 0 {
        lemma_candidate_after(data, c1, f[2] as int, f[3], Some(big_endian), sep2, sep2);
    } else {
        lemma_candidate_after(data, c1, f[2] as int, f[3], Some(big_endian), 8, sep2);
    }
    let (data_offset, _) = spec_locate(data, c1, f[2] as int, f[3], Some(big_endian), SegmentKind::InitializedData)->Ok_0;
    assert(spec_advance(data_offset, f[2] as int, len, SegmentKind::InitializedData) is Ok);
}

/// Segments accepted by the parser lie inside the file.
#[verifier::rlimit(40)]
pub proof fn lemma_parsed_segments_in_file(data: Seq<u8>)
    requires
        spec_parse_executable(data) is Ok,
    ensures
        ({
            let e = spec_parse_executable(data)->Ok_0;
            &&& e.code_offset + e.code_size <= data.len()
            &&& e.data_offset + e.initialized_data_size <= data.len()
        }),
{
    let sh = 68 + spec_u32_be(data, 56);
    assert(data.len() >= 0x98);
    assert(spec_first_bad_marker(data, 0, 0, 5) is None);
    assert(sh <= usize::MAX);
    assert(spec_first_bad_marker(data, sh, 0, 6) is None);
    assert(spec_segment_fields(data, sh) is Ok);
    let f = spec_segment_fields(data, sh)->Ok_0;
    assert(spec_segments(data, sh + 72, f) is Ok);
    let s = spec_segments(data, sh + 72, f)->Ok_0;
    lemma_segments_in_file(data, sh + 72, f);
    let e = spec_parse_executable(data)->Ok_0;
    assert(e.code_offset == s.0 as usize);
    assert(e.code_size == f[0] as usize);
    assert(e.data_offset == s.1 as usize);
    assert(e.initialized_data_size == f[2] as usize);
}

/// The size of the code region, or `None` when rounding it up leaves the
/// address space.
pub fn rom_size(e: &CbeExecutable) -> (res: Option<u32>)
    ensures
        spec_rom_size(*e) <= u32::MAX ==> res == Some(spec_rom_size(*e) as u32),
        spec_rom_size(*e) > u32::MAX ==> res is None,
{
    let images: u64 = if e.code_image_size as u64 + e.data_image_size as u64 > u32::MAX as u64 {
        u32::MAX as u64
    } else {
        e.code_image_size as u64 + e.data_image_size as u64
    };
    let code: u64 = (e.code_size as u64) % 0x1_0000_0000;
    let larger: u64 = if images >= code {
        images
    } else {
        code
    };
    let rounded: u64 = if larger % 0x1000 == 0 {
        larger
    } else {
        larger + 0x1000 - larger % 0x1000
    };
    if rounded > u32::MAX as u64 {
        None
    } else {
        Some(rounded as u32)
    }
}

/// Whether the code region of the executable in `bytes` fits the address
/// space (true where the header is rejected anyway).
pub fn image_fits(bytes: &[u8]) -> (res: bool)
    requires
        bytes@.len() <= isize::MAX,
    ensures
        res == spec_image_fits(bytes@),
{
    match CbeExecutable::parse(bytes) {
        Ok(e) => rom_size(&e).is_some(),
        Err(_) => true,
    }
}

/// Write the manager tables of a fresh machine.
fn initialize_tables(memory: &mut MachineMemory, fixed: bool)
    ensures
        final(memory)@ == spec_initialize_tables(old(memory)@, fixed),
{
    let ghost m0 = memory@;
    let mut t: u32 = 0;
    while t < 27
        invariant
            t <= 27,
            memory@ == spec_group_tables(m0, t as int),
        decreases 27 - t,
    {
        populate_table(memory, MANAGER_BASE + TABLE_STRIDE * (t + 1), SERVICE_BASE + TABLE_STRIDE * t, TABLE_STRIDE / 4);
        t = t + 1;
    }
    memory.w32(MANAGER_BASE + 8, MANAGER_BASE + TABLE_STRIDE);
    memory.w32(MANAGER_BASE + 12, LOG_NOOP_SERVICE);
    memory.w32(MANAGER_BASE + 16, MANAGER_BASE + 0x9000);
    if fixed {
        let ghost m4 = memory@;
        let specs = fixed_manager_specs();
        let mut i: usize = 0;
        while i < specs.len()
            invariant
                i <= specs@.len(),
                specs@ == spec_fixed_manager_specs(),
                memory@ == spec_fixed_directory(m4, i as int),
            decreases specs@.len() - i,
        {
            let (offset, _, _) = specs[i];
            memory.w32(FIXED_MANAGER_DIRECTORY + offset, FIXED_MANAGER_INIT + i as u32 * 4);
            i = i + 1;
        }
        memory.w32(MANAGER_BASE + 8, FIXED_MANAGER_DIRECTORY);
    }
    populate_table(memory, DL_LOAD_MANAGER, SERVICE_BASE + TABLE_STRIDE * 22, 11);
    populate_table(memory, VIDEO_MANAGER, SERVICE_BASE + TABLE_STRIDE * 23, 38);
    populate_table(memory, DL_PAY_MANAGER, SERVICE_BASE + TABLE_STRIDE * 24, 16);
    populate_table(memory, DL_RESOURCE_MANAGER, SERVICE_BASE + TABLE_STRIDE * 25, 20);
    populate_table(memory, DL_IMAGE_MANAGER, SERVICE_BASE + TABLE_STRIDE * 26, 12);
    populate_table(memory, APP_STORE_MANAGER, SERVICE_BASE + TABLE_STRIDE * 28, 40);
}

/// Write the screen's image descriptor.
fn initialize_screen(memory: &mut MachineMemory)
    ensures
        final(memory)@ == spec_initialize_screen(old(memory)@),
{
    memory.w32(SCREEN_IMAGE_STRUCT, SCREEN_IMAGE);
    memory.w16(SCREEN_IMAGE_STRUCT + 4, 240);
    memory.w16(SCREEN_IMAGE_STRUCT + 6, 400);
    memory.w16(SCREEN_IMAGE_STRUCT + 8, 240);
}

/// The resources of the first archive section whose resource list starts
/// at `offset`, each entry that lies inside the file.
fn section_resources(archive: &CbeArchive, offset: usize) -> (res: Vec<HostResource>)
    ensures
        resources_view(res@) == (match spec_section_at(archive.sections_spec(), offset as int, 0) {
            Some(k) => spec_entry_resources(
                archive.sections_spec()[k].resources,
                archive.data_view(),
                archive.sections_spec()[k].resources.len() as int,
            ),
            None => Seq::empty(),
        }),
{
    let sections = archive.sections();
    let bytes = archive.bytes();
    let ghost sv = archive.sections_spec();
    let mut k: usize = 0;
    while k < sections.len()
        invariant
            k <= sections@.len(),
            sections_view(sections@) == sv,
            sv == archive.sections_spec(),
            bytes@ == archive.data_view(),
            spec_section_at(sv, offset as int, 0) == spec_section_at(sv, offset as int, k as int),
        decreases sections@.len() - k,
    {
        let section = &sections[k];
        assert(sv[k as int] == section@);
        if section.header.file_offset as u128 + 8 == offset as u128 {
            let mut res: Vec<HostResource> = Vec::new();
            let mut j: usize = 0;
            while j < section.resources.len()
                invariant
                    j <= section@.resources.len(),
                    section@ == sv[k as int],
                    bytes@ == archive.data_view(),
                    resources_view(res@) == spec_entry_resources(section@.resources, bytes@, j as int),
                decreases section@.resources.len() - j,
            {
                let entry = &section.resources[j];
                assert(section@.resources[j as int] == entry@);
                if entry.offset as u128 + entry.size as u128 <= bytes.len() as u128 {
                    let start = entry.offset as usize;
                    let end = start + entry.size as usize;
                    let data = vstd::slice::slice_to_vec(vstd::slice::slice_subrange(bytes, start, end));
                    let ghost prev = res@;
                    res.push(HostResource { name: entry.name.clone(), data });
                    assert(resources_view(res@) =~= resources_view(prev).push((entry@.name, bytes@.subrange(start as int, end as int))));
                }
                j = j + 1;
            }
            assert(spec_section_at(sv, offset as int, k as int) == Some(k as int));
            return res;
        }
        k = k + 1;
    }
    Vec::new()
}

/// The packaged resources of a fresh machine.
fn initial_resources(archive: &CbeArchive, e: &CbeExecutable) -> (res: Vec<HostResource>)
    requires
        archive.data_view().len() <= isize::MAX,
    ensures
        resources_view(res@) == spec_initial_resources(*e, archive.data_view(), archive.sections_spec()),
{
    let bytes = archive.bytes();
    let native = native_package_resources(bytes, e.resource_package_offset);
    if native.len() > 0 {
        return native;
    }
    let grouped = grouped_package_resources(bytes, e.resource_package_offset, e.resource_package_size);
    if grouped.len() > 0 {
        return grouped;
    }
    section_resources(archive, e.resource_package_offset)
}

impl NicaiMachine {
    /// The heap keeps its invariant, every timer slot exists, the virtual
    /// file system stores no path twice and the audio engine is in range.
    pub open spec fn wf(&self) -> bool {
        spec_machine_wf(self@)
    }

    /// Build a machine from an archive: parse the executable header, map
    /// the code, stack, heap and manager regions, load the code and the
    /// initialized data, write the manager tables and the screen
    /// descriptor, and collect the packaged resources.
    pub fn new(archive: &CbeArchive) -> (res: Result<Self, MachineError>)
        requires
            archive.data_view().len() <= isize::MAX,
            spec_image_fits(archive.data_view()),
        ensures
            match res {
                Ok(m) => m.wf() && spec_new_machine_ok(m@, archive.data_view(), archive.sections_spec()),
                Err(err) => match spec_parse_executable(archive.data_view()) {
                    Err(x) => err == MachineError::Executable(x),
                    Ok(e) => spec_initial_memory(e, archive.data_view()) == Err::<MemoryView, MachineError>(err),
                },
            },
    {
        let bytes = archive.bytes();
        let executable = match CbeExecutable::parse(bytes) {
            Ok(e) => e,
            Err(x) => return Err(MachineError::Executable(x)),
        };
        proof {
            lemma_parsed_segments_in_file(bytes@);
        }
        let rom = rom_size(&executable).unwrap();
        let code_address = executable.code_address();
        let data_address = executable.data_address();
        let mut memory = MachineMemory::new(executable.big_endian);
        memory.map(code_address, rom as usize, false);
        memory.map(STACK_BASE, STACK_SIZE as usize, false);
        memory.map(HEAP_BASE, HEAP_SIZE as usize, false);
        memory.map(MANAGER_BASE, MANAGER_SIZE as usize, false);
        assert(memory@.regions =~= spec_regions(executable).regions);
        let code = vstd::slice::slice_subrange(
            bytes,
            executable.code_offset,
            executable.code_offset + executable.code_size,
        );
        match memory.load(code_address, code) {
            Ok(()) => {},
            Err(x) => return Err(MachineError::Memory(x)),
        }
        let data = vstd::slice::slice_subrange(
            bytes,
            executable.data_offset,
            executable.data_offset + executable.initialized_data_size,
        );
        match memory.load(data_address, data) {
            Ok(()) => {},
            Err(x) => return Err(MachineError::Memory(x)),
        }
        let fixed = executable.big_endian && executable.preferred_code_address != 0
            && executable.code_image_size as usize > executable.code_size;
        initialize_tables(&mut memory, fixed);
        initialize_screen(&mut memory);
        let resources = initial_resources(archive, &executable);
        let effective_rotation = rotation_for_archive(bytes);
        let machine = NicaiMachine {
            cpu: CpuRegisters::new(),
            memory,
            heap: GuestHeap::new(),
            audio: AudioEngine::new(),
            executable,
            state: MachineState::Created,
            app_main: 0,
            app_exit: 0,
            instruction_count: 0,
            frame_count: 0,
            last_pc: 0,
            screens: ScreenState::new(),
            key_down: 0,
            key_held: 0,
            key_held_physical: 0,
            pending_keys: Vec::new(),
            pointer: PointerState::new(),
            timers: GuestTimers::new(),
            resources,
            resource_data: Vec::new(),
            resource_names: Vec::new(),
            app_image_package: 0,
            inner_image_package: 0,
            current_image_package: 0,
            native_app_parser: 0,
            native_app_init: 0,
            native_system_info: 0,
            native_property_info: 0,
            virtual_fs: VirtualFileSystem::new(),
            rotation: Rotation::Auto,
            effective_rotation,
            auto_bgm: false,
            auto_bgm_gave_way: false,
            playing_resource_id: None,
            service_calls: Vec::new(),
            phase: FramePhase::Idle,
            due_timers: Vec::new(),
            frame_screen: 0,
            frame_this: 0,
            frame_logic: 0,
            frame_had_screen: false,
        };
        assert(machine@.pending_keys =~= Seq::<KeyEvent>::empty());
        assert(machine@.resource_data =~= Seq::<u32>::empty());
        assert(machine@.resource_names =~= Seq::<u32>::empty());
        assert(machine@.service_calls =~= Seq::<(u32, u32, u64)>::empty());
        assert(machine@.due_timers =~= Seq::<(u32, u32)>::empty());
        Ok(machine)
    }

    /// Whether the executable uses the fixed-layout manager interface.
    pub fn uses_fixed_manager_abi(&self) -> (res: bool)
        ensures
            res == spec_uses_fixed_manager_abi(self@.executable),
    {
        self.executable.big_endian && self.executable.preferred_code_address != 0
            && self.executable.code_image_size as usize > self.executable.code_size
    }

    /// Whether the executable uses the native dispatcher interface.
    pub fn uses_native_dispatch_abi(&self) -> (res: bool)
        ensures
            res == spec_uses_native_dispatch_abi(self@.executable),
    {
        self.executable.big_endian && self.executable.preferred_code_address != 0
            && !self.uses_fixed_manager_abi()
    }
}

/// An RGB565 color as 0x00RRGGBB, each channel scaled to 0-255.
pub open spec fn spec_rgb565_pixel(color: u16) -> u32 {
    let red = color as int / 2048;
    let green = (color as int / 32) % 64;
    let blue = color as int % 32;
    (red * 255 / 31 * 0x1_0000 + green * 255 / 63 * 0x100 + blue * 255 / 31) as u32
}

/// The first `count` screen pixels read from guest memory, and memory after
/// the reads.
pub open spec fn spec_screen_reads(m: MemoryView, count: int) -> (Seq<u32>, MemoryView)
    decreases count,
{
    if count <= 0 {
        (Seq::empty(), m)
    } else {
        let (pixels, m1) = spec_screen_reads(m, count - 1);
        let (color, m2) = spec_read(m1, (SCREEN_IMAGE + (count - 1) * 2) as u32, 2);
        (pixels.push(spec_rgb565_pixel(color as u16)), m2)
    }
}

/// An RGB565 color as 0x00RRGGBB.
fn rgb565_pixel(color: u16) -> (res: u32)
    ensures
        res == spec_rgb565_pixel(color),
{
    let red = color as u32 / 2048;
    let green = (color as u32 / 32) % 64;
    let blue = color as u32 % 32;
    red * 255 / 31 * 0x1_0000 + green * 255 / 63 * 0x100 + blue * 255 / 31
}

impl NicaiMachine {
    /// Lifecycle state.
    pub fn state(&self) -> (res: MachineState)
        ensures
            res == self@.state,
    {
        self.state
    }

    /// The parsed executable header.
    pub fn executable(&self) -> (res: &CbeExecutable)
        ensures
            *res == self@.executable,
    {
        &self.executable
    }

    /// Entry point registered by the guest initializer.
    pub fn app_main(&self) -> (res: u32)
        ensures
            res == self@.app_main,
    {
        self.app_main
    }

    /// Program counter of the last instruction looked at.
    pub fn last_pc(&self) -> (res: u32)
        ensures
            res == self@.last_pc,
    {
        self.last_pc
    }

    /// Number of guest instructions run.
    pub fn instruction_count(&self) -> (res: u64)
        ensures
            res == self@.instruction_count,
    {
        self.instruction_count
    }

    /// Calls per service: (group, index, count), in order of first call.
    pub fn service_calls(&self) -> (res: &[(u32, u32, u64)])
        ensures
            res@ == self@.service_calls,
    {
        self.service_calls.as_slice()
    }

    /// Addresses of refused guest accesses.
    pub fn bad_accesses(&self) -> (res: &BTreeSet<u32>)
        ensures
            res@ == self@.memory.bad_accesses,
    {
        self.memory.bad_accesses()
    }

    /// The active screen.
    pub fn active_screen(&self) -> (res: u32)
        ensures
            res == self@.screens.active,
    {
        self.screens.active()
    }

    /// The screen that becomes active at the next frame.
    pub fn pending_screen(&self) -> (res: u32)
        ensures
            res == self@.screens.pending,
    {
        self.screens.pending()
    }

    /// A user-mode register: r0-r15, then the CPSR (16 and 17).
    pub fn register_value(&self, register: u8) -> (res: u32)
        requires
            register <= 17,
        ensures
            register < 16 ==> res == self@.cpu.gpr[register as int],
            register >= 16 ==> res == self@.cpu.cpsr,
    {
        if register < 16 {
            self.cpu.gpr[register as usize]
        } else {
            self.cpu.cpsr
        }
    }

    /// The registers.
    pub fn registers(&self) -> (res: CpuRegisters)
        ensures
            res@ == self@.cpu,
    {
        self.cpu
    }

    /// Read a guest word.
    pub fn read_u32(&mut self, address: u32) -> (res: u32)
        ensures
            (res, final(self)@.memory) == spec_read(old(self)@.memory, address, 4),
            final(self)@ == (MachineView { memory: final(self)@.memory, ..old(self)@ }),
    {
        self.memory.r32(address)
    }

    /// Base address of the guest heap, exposed as system RAM.
    pub fn system_ram_base() -> (res: u32)
        ensures
            res == HEAP_BASE,
    {
        HEAP_BASE
    }

    /// Size of the guest heap in bytes.
    pub fn system_ram_size() -> (res: usize)
        ensures
            res == HEAP_SIZE,
    {
        HEAP_SIZE as usize
    }

    /// Base address of the guest screen, exposed as video RAM.
    pub fn video_ram_base() -> (res: u32)
        ensures
            res == SCREEN_IMAGE,
    {
        SCREEN_IMAGE
    }

    /// Size of the guest screen in bytes.
    pub fn video_ram_size() -> (res: usize)
        ensures
            res == 240 * 400 * 2,
    {
        240 * 400 * 2
    }

    /// The mapped guest memory regions.
    pub fn memory_regions(&self) -> (res: Vec<MemoryRegionInfo>)
        ensures
            res@.len() == self@.memory.regions.len(),
            forall|i: int| 0 <= i < res@.len() ==> #[trigger] res@[i] == (MemoryRegionInfo {
                base: self@.memory.regions[i].base,
                size: self@.memory.regions[i].data.len() as usize,
                read_only: self@.memory.regions[i].read_only,
            }),
    {
        self.memory.region_infos()
    }

    /// Set a guest key (platform key codes): a change of the key's
    /// physical state queues a key event for the guest.
    pub fn set_key(&mut self, key: u8, pressed: bool)
        ensures
            key >= 31 ==> final(self)@ == old(self)@,
            key < 31 ==> final(self)@ == (MachineView {
                key_held_physical: if pressed {
                    old(self)@.key_held_physical | (1u32 << key)
                } else {
                    old(self)@.key_held_physical & !(1u32 << key)
                },
                pending_keys: if ((old(self)@.key_held_physical & (1u32 << key)) != 0) != pressed {
                    old(self)@.pending_keys.push(KeyEvent { key, pressed })
                } else {
                    old(self)@.pending_keys
                },
                ..old(self)@
            }),
    {
        if update_physical_key_bits(&mut self.key_held_physical, key, pressed) {
            self.pending_keys.push(KeyEvent { key, pressed });
        }
    }

    /// Bitmask of keys physically held (key code as bit index).
    pub fn held_keys(&self) -> (res: u32)
        ensures
            res == self@.key_held_physical,
    {
        self.key_held_physical
    }

    /// Drop queued key events and take the held keys from the physical
    /// state, as after restoring a saved machine.
    pub fn normalize_input_after_load(&mut self)
        ensures
            final(self)@ == (MachineView {
                key_down: 0,
                key_held: old(self)@.key_held_physical,
                pending_keys: Seq::empty(),
                ..old(self)@
            }),
    {
        self.key_down = 0;
        self.key_held = self.key_held_physical;
        self.pending_keys = Vec::new();
        assert(self.pending_keys@ =~= Seq::<KeyEvent>::empty());
    }

    /// Set the playback volume, clamped to 0-100.
    pub fn set_volume(&mut self, volume: u32)
        requires
            old(self).wf(),
        ensures
            final(self).wf(),
            final(self)@ == (MachineView {
                audio: AudioView {
                    volume: if volume < 100 {
                        volume
                    } else {
                        100
                    },
                    ..old(self)@.audio
                },
                ..old(self)@
            }),
    {
        self.audio.set_volume(volume);
    }

    /// Turn the automatic background music on or off. Turning it on lets it
    /// take over again even after the guest called the audio manager;
    /// turning it off stops the audio.
    pub fn set_auto_bgm(&mut self, enabled: bool)
        requires
            old(self).wf(),
        ensures
            final(self).wf(),
            enabled ==> final(self)@ == (MachineView { auto_bgm: true, auto_bgm_gave_way: false, ..old(self)@ }),
            !enabled ==> final(self)@ == (MachineView {
                auto_bgm: false,
                audio: AudioView { playing: false, paused: false, samples: Seq::empty(), ..old(self)@.audio },
                ..old(self)@
            }),
    {
        self.auto_bgm = enabled;
        if enabled {
            self.auto_bgm_gave_way = false;
        } else {
            self.audio.stop();
        }
    }

    /// Whether the automatic background music is on.
    pub fn auto_bgm(&self) -> (res: bool)
        ensures
            res == self@.auto_bgm,
    {
        self.auto_bgm
    }

    /// The audio engine's diagnostics (see `AudioEngine::diagnostics`).
    pub fn audio_diagnostics(&self) -> (res: AudioDiagnostics)
        requires
            self.wf(),
        ensures
            res.sample_rate == AUDIO_SAMPLE_RATE,
            res.channels == 2,
            res.volume == self@.audio.volume,
            res.submitted_bytes == self@.audio.submitted_bytes,
            res.decoded_frames == self@.audio.decoded_frames,
            res.nonzero_samples == self@.audio.nonzero_samples,
            res.rejected_writes == self@.audio.rejected_writes,
            res.underflow_frames == self@.audio.underflow_frames,
            res.max_buffered_frames == self@.audio.max_buffered_frames,
            res.pcm_crc32 == spec_crc32(spec_sample_bytes(self@.audio.samples)),
            res.sum_squares == spec_sum_squares(self@.audio.samples),
            res.queued_samples == self@.audio.samples.len(),
    {
        self.audio.diagnostics()
    }

    /// Rebuild the machine from `archive`, keeping the volume and the
    /// automatic-music setting; the host then boots it with `start_boot`.
    /// When the archive cannot be loaded the machine is left as it was.
    pub fn reset(&mut self, archive: &CbeArchive) -> (res: Result<(), MachineError>)
        requires
            old(self).wf(),
            archive.data_view().len() <= isize::MAX,
            spec_image_fits(archive.data_view()),
        ensures
            final(self).wf(),
            match res {
                Ok(()) => {
                    &&& spec_new_machine_ok(
                        MachineView { auto_bgm: false, ..final(self)@ },
                        archive.data_view(),
                        archive.sections_spec(),
                    )
                    &&& final(self)@.audio.volume == old(self)@.audio.volume
                    &&& final(self)@.auto_bgm == old(self)@.auto_bgm
                },
                Err(err) => {
                    &&& final(self)@ == old(self)@
                    &&& match spec_parse_executable(archive.data_view()) {
                        Err(x) => err == MachineError::Executable(x),
                        Ok(e) => spec_initial_memory(e, archive.data_view()) == Err::<MemoryView, MachineError>(err),
                    }
                },
            },
    {
        let volume = self.audio.volume();
        let auto_bgm = self.auto_bgm;
        let mut rebuilt = match NicaiMachine::new(archive) {
            Ok(m) => m,
            Err(err) => return Err(err),
        };
        rebuilt.audio.set_volume(volume);
        rebuilt.auto_bgm = auto_bgm;
        *self = rebuilt;
        Ok(())
    }

    /// Set the pointer in screen coordinates.
    pub fn set_pointer(&mut self, x: i32, y: i32, down: bool)
        ensures
            final(self)@ == (MachineView {
                pointer: spec_pointer_set(old(self)@.pointer, x as int, y as int, down),
                ..old(self)@
            }),
    {
        self.pointer.set(x, y, down);
    }

    /// Set the display rotation; an explicit one takes effect at once.
    pub fn set_rotation(&mut self, rotation: Rotation)
        ensures
            final(self)@ == (MachineView {
                rotation,
                effective_rotation: if rotation != Rotation::Auto {
                    rotation
                } else {
                    old(self)@.effective_rotation
                },
                ..old(self)@
            }),
    {
        self.rotation = rotation;
        if rotation != Rotation::Auto {
            self.effective_rotation = rotation;
        }
    }

    /// Re-resolve the automatic rotation from the content-identity profile;
    /// an explicit rotation stays.
    pub fn resolve_auto_rotation(&mut self, archive: &CbeArchive)
        ensures
            final(self)@ == (MachineView {
                effective_rotation: if old(self)@.rotation == Rotation::Auto {
                    if spec_builtin_landscape(spec_crc32(archive.data_view()), archive.data_view().len() as int) {
                        Rotation::Ccw
                    } else {
                        Rotation::Unrotated
                    }
                } else {
                    old(self)@.effective_rotation
                },
                ..old(self)@
            }),
    {
        if self.rotation == Rotation::Auto {
            self.effective_rotation = rotation_for_archive(archive.bytes());
        }
    }

    /// The requested rotation.
    pub fn rotation(&self) -> (res: Rotation)
        ensures
            res == self@.rotation,
    {
        self.rotation
    }

    /// The rotation applied to output.
    pub fn effective_rotation(&self) -> (res: Rotation)
        ensures
            res == self@.effective_rotation,
    {
        self.effective_rotation
    }

    /// Presented output size in pixels after rotation.
    pub fn display_size(&self) -> (res: (u32, u32))
        ensures
            res == if spec_swaps_dimensions(self@.effective_rotation) {
                (FRAME_HEIGHT, FRAME_WIDTH)
            } else {
                (FRAME_WIDTH, FRAME_HEIGHT)
            },
    {
        if self.effective_rotation.swaps_dimensions() {
            (FRAME_HEIGHT, FRAME_WIDTH)
        } else {
            (FRAME_WIDTH, FRAME_HEIGHT)
        }
    }

    /// Map a presented display coordinate back to the guest framebuffer.
    pub fn display_to_framebuffer(&self, display_x: i32, display_y: i32) -> (res: (i32, i32))
        requires
            self@.effective_rotation == Rotation::Cw ==> FRAME_HEIGHT - 1 - display_x <= i32::MAX,
            self@.effective_rotation == Rotation::Ccw ==> FRAME_WIDTH - 1 - display_y <= i32::MAX,
        ensures
            (res.0 as int, res.1 as int) == spec_unrotate(
                self@.effective_rotation,
                display_x as int,
                display_y as int,
            ),
    {
        self.effective_rotation.unrotate(display_x, display_y)
    }

    /// The screen as 0x00RRGGBB pixels, rotated for presentation.
    pub fn frame_pixels(&mut self) -> (res: Vec<u32>)
        ensures
            final(self)@ == (MachineView { memory: spec_screen_reads(old(self)@.memory, 96000int).1, ..old(self)@ }),
            spec_rotate_frame_ok(
                spec_screen_reads(old(self)@.memory, 96000int).0,
                FRAME_WIDTH as int,
                FRAME_HEIGHT as int,
                old(self)@.effective_rotation,
                res@,
            ),
    {
        let ghost m0 = self.memory@;
        let ghost v0 = self@;
        let mut pixels: Vec<u32> = Vec::new();
        let mut index: u32 = 0;
        while index < 240 * 400
            invariant
                index <= 240 * 400,
                m0 == v0.memory,
                self@ == (MachineView { memory: self@.memory, ..v0 }),
                pixels@.len() == index,
                (pixels@, self.memory@) == spec_screen_reads(m0, index as int),
            decreases 240 * 400 - index,
        {
            let color = self.memory.r16(SCREEN_IMAGE + index * 2);
            pixels.push(rgb565_pixel(color));
            index = index + 1;
        }
        rotate_frame(pixels.as_slice(), FRAME_WIDTH, FRAME_HEIGHT, self.effective_rotation)
    }

    /// Take up to `max_frames` stereo frames of guest audio.
    pub fn take_audio_samples(&mut self, max_frames: usize) -> (res: Vec<i16>)
        requires
            old(self).wf(),
            2 * max_frames <= usize::MAX,
        ensures
            final(self).wf(),
            final(self)@ == (MachineView { audio: final(self)@.audio, ..old(self)@ }),
    {
        self.audio.pull_samples(max_frames)
    }
}

} // verus!
