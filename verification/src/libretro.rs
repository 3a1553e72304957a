//! Frontend-independent pieces of the libretro core: guest tick pacing,
//! pointer coordinate mapping, the RetroPad input descriptors, log level
//! filtering and mapping, and core option parsing.
use vstd::prelude::*;

use crate::text::{chars_equal_str, chars_of, parse_unsigned, spec_parse_unsigned};

verus! {

/// Guest screen ticks per second.
pub const GUEST_FRAME_RATE: u32 = 10;

/// Rate at which the frontend is asked to call the core.
pub const PACING_FPS: u32 = 60;

/// Device type: none.
pub const RETRO_DEVICE_NONE: u32 = 0;

/// Device type: RetroPad.
pub const RETRO_DEVICE_JOYPAD: u32 = 1;

/// RetroPad button identifiers.
pub const RETRO_DEVICE_ID_JOYPAD_B: u32 = 0;
pub const RETRO_DEVICE_ID_JOYPAD_Y: u32 = 1;
pub const RETRO_DEVICE_ID_JOYPAD_START: u32 = 3;
pub const RETRO_DEVICE_ID_JOYPAD_UP: u32 = 4;
pub const RETRO_DEVICE_ID_JOYPAD_DOWN: u32 = 5;
pub const RETRO_DEVICE_ID_JOYPAD_LEFT: u32 = 6;
pub const RETRO_DEVICE_ID_JOYPAD_RIGHT: u32 = 7;
pub const RETRO_DEVICE_ID_JOYPAD_A: u32 = 8;
pub const RETRO_DEVICE_ID_JOYPAD_X: u32 = 9;

/// Converts frontend frames into guest screen ticks: each frame adds
/// `GUEST_FRAME_RATE` credit, and every `PACING_FPS` of credit is a tick.
#[derive(Debug, Clone, Copy, PartialEq, Eq, Structural)]
pub struct GuestTickPacer {
    /// Outstanding credit in 1/`PACING_FPS` frame units.
    pub credit: u32,
}

/// One frontend frame: the credit left and the ticks that fell due.
pub open spec fn spec_advance(credit: int) -> (int, int) {
    ((credit + 10) % 60, (credit + 10) / 60)
}

impl GuestTickPacer {
    /// A pacer with no credit.
    pub fn new() -> (res: Self)
        ensures
            res.credit == 0,
    {
        GuestTickPacer { credit: 0 }
    }

    /// Record one frontend frame and return the guest ticks that are due.
    pub fn advance(&mut self) -> (res: u32)
        requires
            old(self).credit < PACING_FPS,
        ensures
            (final(self).credit as int, res as int) == spec_advance(old(self).credit as int),
            final(self).credit < PACING_FPS,
    {
        self.credit = self.credit + GUEST_FRAME_RATE;
        let mut ticks: u32 = 0;
        while self.credit >= PACING_FPS
            invariant
                self.credit < 70,
                ticks <= 1,
                ticks == 1 ==> self.credit < 10,
                (self.credit + 60 * ticks) as int == old(self).credit + 10,
            decreases self.credit,
        {
            self.credit = self.credit - PACING_FPS;
            ticks = ticks + 1;
        }
        ticks
    }
}

/// Six frontend frames make exactly one guest tick and leave the credit
/// where it was, so the guest runs at `GUEST_FRAME_RATE` ticks per second
/// when the frontend paces at `PACING_FPS`.
pub proof fn lemma_six_frames_one_tick(credit: int)
    requires
        0 <= credit < 60,
    ensures
        ({
            let a = spec_advance(credit);
            let b = spec_advance(a.0);
            let c = spec_advance(b.0);
            let d = spec_advance(c.0);
            let e = spec_advance(d.0);
            let f = spec_advance(e.0);
            &&& f.0 == credit
            &&& a.1 + b.1 + c.1 + d.1 + e.1 + f.1 == 1
        }),
{
}

/// Map a pointer coordinate of the frontend (-0x7fff..0x7fff) onto a
/// screen of `screen_size` pixels.
pub open spec fn spec_pointer_to_screen(value: i32, screen_size: i32) -> i32 {
    let shifted = if value + 0x7fff > i32::MAX {
        i32::MAX as int
    } else {
        value + 0x7fff
    };
    let numerator = shifted * screen_size + 0x7fff;
    let top = if screen_size - 1 > 0 {
        screen_size - 1
    } else {
        0
    };
    if numerator < 0 {
        0
    } else if numerator / 0xFFFF > top {
        top as i32
    } else {
        (numerator / 0xFFFF) as i32
    }
}

/// Map a pointer coordinate of the frontend (-0x7fff..0x7fff) onto a
/// screen of `screen_size` pixels, clamped to the screen.
pub fn pointer_to_screen(value: i32, screen_size: i32) -> (res: i32)
    requires
        screen_size > i32::MIN,
    ensures
        res == spec_pointer_to_screen(value, screen_size),
{
    let shifted: i64 = if value as i64 + 0x7fff > i32::MAX as i64 {
        i32::MAX as i64
    } else {
        value as i64 + 0x7fff
    };
    assert(-0x8000_0000 * 0x8000_0000 <= shifted * screen_size <= 0x8000_0000 * 0x8000_0000) by (nonlinear_arith)
        requires
            -0x8000_0000 <= shifted <= 0x8000_0000,
            -0x8000_0000 <= screen_size <= 0x8000_0000,
    ;
    let numerator: i64 = shifted * screen_size as i64 + 0x7fff;
    let top: i64 = if screen_size as i64 - 1 > 0 {
        screen_size as i64 - 1
    } else {
        0
    };
    if numerator < 0 {
        0
    } else {
        let q = (numerator as u64 / 0xFFFF) as i64;
        if q > top {
            top as i32
        } else {
            q as i32
        }
    }
}

/// A RetroPad input description advertised to the frontend.
#[derive(Debug)]
pub struct InputDescriptor {
    pub port: u32,
    pub device: u32,
    pub index: u32,
    pub id: u32,
    /// The label; `None` for the terminating entry.
    pub description: Option<String>,
}

impl View for InputDescriptor {
    type V = (u32, u32, u32, u32, Option<Seq<char>>);

    open spec fn view(&self) -> (u32, u32, u32, u32, Option<Seq<char>>) {
        (
            self.port,
            self.device,
            self.index,
            self.id,
            match self.description {
                Some(s) => Some(s@),
                None => None,
            },
        )
    }
}

/// The RetroPad buttons the core reads, with their labels, followed by a
/// terminating entry.
pub open spec fn spec_input_descriptors() -> Seq<(u32, Option<Seq<char>>)> {
    seq![
        (RETRO_DEVICE_ID_JOYPAD_UP, Some("D-Pad Up"@)),
        (RETRO_DEVICE_ID_JOYPAD_DOWN, Some("D-Pad Down"@)),
        (RETRO_DEVICE_ID_JOYPAD_LEFT, Some("D-Pad Left"@)),
        (RETRO_DEVICE_ID_JOYPAD_RIGHT, Some("D-Pad Right"@)),
        (RETRO_DEVICE_ID_JOYPAD_A, Some("Confirm"@)),
        (RETRO_DEVICE_ID_JOYPAD_B, Some("Confirm"@)),
        (RETRO_DEVICE_ID_JOYPAD_X, Some("Left Soft Key"@)),
        (RETRO_DEVICE_ID_JOYPAD_Y, Some("Right Soft Key"@)),
        (RETRO_DEVICE_ID_JOYPAD_START, Some("Confirm"@)),
        (0u32, None),
    ]
}

fn joypad_descriptor(id: u32, label: &str) -> (res: InputDescriptor)
    ensures
        res@ == (0u32, RETRO_DEVICE_JOYPAD, 0u32, id, Some(label@)),
{
    InputDescriptor {
        port: 0,
        device: RETRO_DEVICE_JOYPAD,
        index: 0,
        id,
        description: Some(crate::text::string_from_chars(chars_of(label).as_slice())),
    }
}

/// The input descriptors: every RetroPad button the core reads on port 0,
/// then a terminating entry with no device and no label.
pub fn input_descriptors() -> (res: Vec<InputDescriptor>)
    ensures
        res@.len() == 10,
        forall|i: int|
            0 <= i < 9 ==> #[trigger] res@[i]@ == (0u32, RETRO_DEVICE_JOYPAD, 0u32, spec_input_descriptors()[i].0, spec_input_descriptors()[i].1),
        res@[9]@ == (0u32, RETRO_DEVICE_NONE, 0u32, 0u32, None::<Seq<char>>),
{
    let mut v: Vec<InputDescriptor> = Vec::new();
    v.push(joypad_descriptor(RETRO_DEVICE_ID_JOYPAD_UP, "D-Pad Up"));
    v.push(joypad_descriptor(RETRO_DEVICE_ID_JOYPAD_DOWN, "D-Pad Down"));
    v.push(joypad_descriptor(RETRO_DEVICE_ID_JOYPAD_LEFT, "D-Pad Left"));
    v.push(joypad_descriptor(RETRO_DEVICE_ID_JOYPAD_RIGHT, "D-Pad Right"));
    v.push(joypad_descriptor(RETRO_DEVICE_ID_JOYPAD_A, "Confirm"));
    v.push(joypad_descriptor(RETRO_DEVICE_ID_JOYPAD_B, "Confirm"));
    v.push(joypad_descriptor(RETRO_DEVICE_ID_JOYPAD_X, "Left Soft Key"));
    v.push(joypad_descriptor(RETRO_DEVICE_ID_JOYPAD_Y, "Right Soft Key"));
    v.push(joypad_descriptor(RETRO_DEVICE_ID_JOYPAD_START, "Confirm"));
    v.push(InputDescriptor { port: 0, device: RETRO_DEVICE_NONE, index: 0, id: 0, description: None });
    v
}

/// Severity of a log record, most severe first.
#[derive(Debug, Clone, Copy, PartialEq, Eq, Structural)]
pub enum LogLevel {
    Error,
    Warn,
    Info,
    Debug,
    Trace,
}

/// Severity levels of the frontend's log interface.
#[derive(Debug, Clone, Copy, PartialEq, Eq, Structural)]
pub enum RetroLogLevel {
    Debug,
    Info,
    Warn,
    Error,
}

/// The most verbose level that is passed on.
#[derive(Debug, Clone, Copy, PartialEq, Eq, Structural)]
pub enum MaxLogLevel {
    Info,
    Debug,
}

/// The frontend level for a log level: debug and trace records are both
/// debug records.
pub fn map_level(level: LogLevel) -> (res: RetroLogLevel)
    ensures
        res == match level {
            LogLevel::Error => RetroLogLevel::Error,
            LogLevel::Warn => RetroLogLevel::Warn,
            LogLevel::Info => RetroLogLevel::Info,
            LogLevel::Debug | LogLevel::Trace => RetroLogLevel::Debug,
        },
{
    match level {
        LogLevel::Error => RetroLogLevel::Error,
        LogLevel::Warn => RetroLogLevel::Warn,
        LogLevel::Info => RetroLogLevel::Info,
        LogLevel::Debug | LogLevel::Trace => RetroLogLevel::Debug,
    }
}

/// Which log records reach the frontend.
#[derive(Debug, Clone, Copy, PartialEq, Eq, Structural)]
pub struct FrontendLogFilter {
    /// Whether debug and trace records are forwarded.
    pub debug_logging: bool,
}

impl FrontendLogFilter {
    /// The filter a freshly initialized core starts with: debug records
    /// are not forwarded.
    pub fn init() -> (res: Self)
        ensures
            !res.debug_logging,
    {
        FrontendLogFilter { debug_logging: false }
    }

    /// Enable or disable debug records; returns the most verbose level the
    /// logging facade must let through.
    pub fn set_debug_logging(&mut self, enabled: bool) -> (res: MaxLogLevel)
        ensures
            final(self).debug_logging == enabled,
            res == if enabled {
                MaxLogLevel::Debug
            } else {
                MaxLogLevel::Info
            },
    {
        self.debug_logging = enabled;
        if enabled {
            MaxLogLevel::Debug
        } else {
            MaxLogLevel::Info
        }
    }

    /// Whether a record of the given level is forwarded: all of them with
    /// debug logging on, else error, warning and info records.
    pub fn enabled(&self, level: LogLevel) -> (res: bool)
        ensures
            res == (self.debug_logging || level == LogLevel::Error || level == LogLevel::Warn || level
                == LogLevel::Info),
    {
        if self.debug_logging {
            true
        } else {
            match level {
                LogLevel::Error | LogLevel::Warn | LogLevel::Info => true,
                LogLevel::Debug | LogLevel::Trace => false,
            }
        }
    }
}

/// Resolved core option values.
#[derive(Debug, Clone, Copy, PartialEq, Eq, Structural)]
pub struct CoreOptions {
    pub volume: u32,
    pub repeat_delay: u32,
    pub repeat_period: u32,
    pub touch_input: bool,
    pub debug_logging: bool,
}

/// The options used when the frontend sets none.
pub open spec fn spec_default_options() -> CoreOptions {
    CoreOptions { volume: 100, repeat_delay: 10, repeat_period: 15, touch_input: true, debug_logging: false }
}

impl Default for CoreOptions {
    fn default() -> (res: Self)
        ensures
            res == spec_default_options(),
    {
        CoreOptions { volume: 100, repeat_delay: 10, repeat_period: 15, touch_input: true, debug_logging: false }
    }
}

/// A frontend value parsed as a decimal `u32`.
pub open spec fn spec_option_number(value: Option<Seq<char>>) -> Option<int> {
    match value {
        Some(v) => spec_parse_unsigned(v, 10, u32::MAX as int),
        None => None,
    }
}

/// A frontend value read as a switch: "enabled" or "disabled", else the
/// default.
pub open spec fn spec_option_switch(value: Option<Seq<char>>, default: bool) -> bool {
    match value {
        Some(v) => if v == "enabled"@ {
            true
        } else if v == "disabled"@ {
            false
        } else {
            default
        },
        None => default,
    }
}

/// The options from the frontend's values: the volume is capped at 100,
/// the repeat period is at least 1, and unset or invalid values keep their
/// defaults.
pub open spec fn spec_read_core_options(
    volume: Option<Seq<char>>,
    repeat_delay: Option<Seq<char>>,
    repeat_period: Option<Seq<char>>,
    touch_input: Option<Seq<char>>,
    debug_logging: Option<Seq<char>>,
) -> CoreOptions {
    let d = spec_default_options();
    CoreOptions {
        volume: match spec_option_number(volume) {
            Some(v) => if v < 100 {
                v as u32
            } else {
                100
            },
            None => d.volume,
        },
        repeat_delay: match spec_option_number(repeat_delay) {
            Some(v) => v as u32,
            None => d.repeat_delay,
        },
        repeat_period: match spec_option_number(repeat_period) {
            Some(v) => if v > 1 {
                v as u32
            } else {
                1
            },
            None => d.repeat_period,
        },
        touch_input: spec_option_switch(touch_input, d.touch_input),
        debug_logging: spec_option_switch(debug_logging, d.debug_logging),
    }
}

/// View of an optional string slice.
pub open spec fn opt_view(v: Option<&str>) -> Option<Seq<char>> {
    match v {
        Some(s) => Some(s@),
        None => None,
    }
}

fn option_number(value: Option<&str>) -> (res: Option<u32>)
    ensures
        match res {
            Some(v) => spec_option_number(opt_view(value)) == Some(v as int),
            None => spec_option_number(opt_view(value)) is None,
        },
{
    match value {
        Some(s) => {
            let chars = chars_of(s);
            match parse_unsigned(chars.as_slice(), 10, 0xffff_ffff) {
                Some(v) => Some(v as u32),
                None => None,
            }
        },
        None => None,
    }
}

fn option_switch(value: Option<&str>, default: bool) -> (res: bool)
    ensures
        res == spec_option_switch(opt_view(value), default),
{
    match value {
        Some(s) => {
            let chars = chars_of(s);
            if chars_equal_str(chars.as_slice(), "enabled") {
                true
            } else if chars_equal_str(chars.as_slice(), "disabled") {
                false
            } else {
                default
            }
        },
        None => default,
    }
}

/// Resolve the core options from the values the frontend reports for each
/// option key (`None` where it reports nothing).
pub fn read_core_options(
    volume: Option<&str>,
    repeat_delay: Option<&str>,
    repeat_period: Option<&str>,
    touch_input: Option<&str>,
    debug_logging: Option<&str>,
) -> (res: CoreOptions)
    ensures
        res == spec_read_core_options(
            opt_view(volume),
            opt_view(repeat_delay),
            opt_view(repeat_period),
            opt_view(touch_input),
            opt_view(debug_logging),
        ),
{
    let mut options = CoreOptions::default();
    if let Some(v) = option_number(volume) {
        options.volume = if v < 100 {
            v
        } else {
            100
        };
    }
    if let Some(v) = option_number(repeat_delay) {
        options.repeat_delay = v;
    }
    if let Some(v) = option_number(repeat_period) {
        options.repeat_period = if v > 1 {
            v
        } else {
            1
        };
    }
    options.touch_input = option_switch(touch_input, options.touch_input);
    options.debug_logging = option_switch(debug_logging, options.debug_logging);
    options
}

/// The libretro core object; content handling goes through the machine.
#[derive(Debug)]
pub struct NicaiLibretro {}

impl NicaiLibretro {
    /// A core with nothing loaded.
    pub fn new() -> (res: Self) {
        NicaiLibretro {  }
    }

    /// Initialize the core; always succeeds.
    pub fn init(&mut self) -> (res: bool)
        ensures
            res,
    {
        true
    }

    /// Load a game from data; this core object loads none.
    pub fn load_game(&mut self, data: &[u8]) -> (res: bool)
        ensures
            !res,
    {
        false
    }

    /// Run one frame; nothing is loaded, so nothing runs.
    pub fn run(&mut self) {
    }

    /// Reset the emulator; nothing is loaded, so nothing changes.
    pub fn reset(&mut self) {
    }

    /// Unload the game; always succeeds.
    pub fn unload_game(&mut self) -> (res: bool)
        ensures
            res,
    {
        true
    }
}

/// What the core tells a frontend about itself: its core name, library
/// name, content extension, that content is loaded from a path, and which
/// frontend features it implements.
#[derive(Debug, Clone, Copy, PartialEq, Eq)]
pub struct CoreInfo {
    pub corename: &'static str,
    pub library_name: &'static str,
    pub valid_extensions: &'static str,
    pub need_fullpath: bool,
    pub savestate: bool,
    pub cheats: bool,
    pub input_descriptors: bool,
    pub memory_descriptors: bool,
    pub core_options: bool,
}

/// The core's description: core `nicaiemu`, library `NicaiEmu`, `.cbe`
/// content loaded by path, save states, input descriptors, memory
/// descriptors and core options, but no cheats.
pub fn core_info() -> (res: CoreInfo)
    ensures
        res.corename@ == "nicaiemu"@,
        res.library_name@ == "NicaiEmu"@,
        res.valid_extensions@ == "cbe"@,
        res.need_fullpath,
        res.savestate,
        !res.cheats,
        res.input_descriptors,
        res.memory_descriptors,
        res.core_options,
{
    CoreInfo {
        corename: "nicaiemu",
        library_name: "NicaiEmu",
        valid_extensions: "cbe",
        need_fullpath: true,
        savestate: true,
        cheats: false,
        input_descriptors: true,
        memory_descriptors: true,
        core_options: true,
    }
}

} // verus!
