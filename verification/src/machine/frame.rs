//! Booting the guest and running one frame, as a sequence of guest calls.
//!
//! `start_boot` and `start_frame` either finish at once or set the
//! registers for a guest call and answer `Control::Call`. The caller then
//! runs the core until the call returns (see `before_instruction`) and
//! reports the outcome to `resume`, which decides the next call or the end.
//! A frame fires the due timers, enters the pending screen, runs its
//! initializer and resource loader when needed, hands it the next key
//! event, runs its logic and renders it; games with the native interface
//! run their parser once per frame instead.
use vstd::prelude::*;

use crate::audio_engine::{spec_play_bytes, spec_state};
use crate::machine::cpu::{spec_enter_callback, spec_jump, spec_set_reg, CpuView, EXIT_ADDRESS, LR, PC, SP};
use crate::machine::executable::spec_data_address;
use crate::machine::memory::{spec_read, spec_write};
use crate::machine::nicai::{
    spec_machine_wf,
    spec_uses_native_dispatch_abi,
    FramePhase,
    KeyEvent,
    MachineError,
    MachineView,
    NicaiMachine,
    KEY_EVENT_ARG,
    STACK_BASE,
    STACK_SIZE,
};
use crate::machine::screens::ScreenView;
use crate::machine::tables::{MANAGER_BASE, NATIVE_DISPATCH_SERVICE};
use crate::machine::timers::{spec_tick, GuestTimer};
use crate::machine::{update_key_bits, MachineState, PointerState};
use crate::text::{chars_of, ends_with_ignore_ascii_case, spec_ends_with, spec_lower};

verus! {

/// What the caller does next.
#[derive(Debug, Clone, Copy, PartialEq, Eq)]
pub enum Control {
    /// Run the core until the guest call set up in the registers returns,
    /// then report the outcome to `resume`.
    Call,
    /// The boot or the frame is over, with this outcome.
    Done(Result<(), MachineError>),
}

/// The per-frame input edges cleared.
pub open spec fn spec_end_frame(v: MachineView) -> MachineView {
    MachineView { key_down: 0, pointer: PointerState { down: false, up: false, ..v.pointer }, ..v }
}

/// A halted machine ends the frame.
pub open spec fn spec_finish_halted(v: MachineView) -> (bool, MachineView) {
    if v.state == MachineState::Halted {
        (true, spec_end_frame(v))
    } else {
        (false, v)
    }
}

/// After a screen callback: with no screen left the machine halts, and a
/// halted machine ends the frame.
pub open spec fn spec_finish_screen_callback(v: MachineView) -> (bool, MachineView) {
    let s = v.screens;
    if v.state != MachineState::Halted && s.active == 0 && s.pending == 0 && s.stack.len() == 0 {
        spec_finish_halted(MachineView { state: MachineState::Halted, ..v })
    } else {
        spec_finish_halted(v)
    }
}

/// A guest call to `entry` set up, resuming at `phase`.
pub open spec fn spec_call(v: MachineView, entry: u32, r0: u32, r1: u32, r2: u32, phase: FramePhase) -> MachineView {
    MachineView { cpu: spec_enter_callback(v.cpu, entry, r0, r1, r2), phase, ..v }
}

/// The `this` argument of a screen's callbacks: screens in the data image
/// are passed 0x18 bytes lower (saturating at 0).
pub open spec fn spec_screen_param(v: MachineView, screen: u32) -> u32 {
    if screen >= spec_data_address(v.executable) {
        if screen >= 0x18 {
            (screen - 0x18) as u32
        } else {
            0
        }
    } else {
        screen
    }
}

/// The oldest key event taken from the queue.
pub open spec fn spec_pop_key(v: MachineView) -> (MachineView, Option<KeyEvent>) {
    if v.pending_keys.len() == 0 {
        (v, None)
    } else {
        (MachineView { pending_keys: v.pending_keys.drop_first(), ..v }, Some(v.pending_keys[0]))
    }
}

/// The guest key bitmasks after a key event: a press marks the key held
/// and, when it was not held, down; a release clears the held bit. Keys of
/// 31 and above are ignored.
pub open spec fn spec_apply_key(v: MachineView, e: KeyEvent) -> MachineView {
    if e.key >= 31 {
        v
    } else {
        let mask = 1u32 << e.key;
        if e.pressed {
            MachineView {
                key_held: v.key_held | mask,
                key_down: if v.key_held & mask == 0 {
                    v.key_down | mask
                } else {
                    v.key_down
                },
                ..v
            }
        } else {
            MachineView { key_held: v.key_held & !mask, ..v }
        }
    }
}

/// The next key event applied to the guest key state, with the down edges
/// of the previous call cleared.
pub open spec fn spec_next_key(v: MachineView) -> (MachineView, Option<KeyEvent>) {
    let (v1, event) = spec_pop_key(MachineView { key_down: 0, ..v });
    match event {
        Some(e) => (spec_apply_key(v1, e), event),
        None => (v1, event),
    }
}

/// The bit of a key in the key-event word (none for keys beyond the word).
pub open spec fn spec_key_bit(key: u8) -> u32 {
    if key < 32 {
        1u32 << key
    } else {
        0
    }
}

/// Whether a timer is running.
pub open spec fn spec_any_timer_active(timers: Seq<GuestTimer>) -> bool {
    exists|i: int| 0 <= i < timers.len() && #[trigger] timers[i].active
}

/// Whether a resource name ends in ".mid" or ".midi", ignoring ASCII case.
pub open spec fn spec_is_midi(name: Seq<char>) -> bool {
    spec_ends_with(spec_lower(name), seq!['.', 'm', 'i', 'd']) || spec_ends_with(
        spec_lower(name),
        seq!['.', 'm', 'i', 'd', 'i'],
    )
}

/// The first packaged MIDI resource from `k` on.
pub open spec fn spec_first_midi(resources: Seq<(Seq<char>, Seq<u8>)>, k: int) -> Option<int>
    decreases resources.len() - k,
{
    if k < 0 || k >= resources.len() {
        None
    } else if spec_is_midi(resources[k].0) {
        Some(k)
    } else {
        spec_first_midi(resources, k + 1)
    }
}

/// The background-music layer: while enabled and not handed over to the
/// game, a machine whose audio is not playing queued audio plays the first
/// packaged MIDI resource on the engine (which refuses data it cannot
/// decode).
pub open spec fn spec_auto_bgm(v: MachineView) -> MachineView {
    if !v.auto_bgm || v.auto_bgm_gave_way {
        v
    } else if spec_state(v.audio) == 1 && v.audio.samples.len() / 2 != 0 {
        v
    } else {
        match spec_first_midi(v.resources, 0) {
            Some(i) => MachineView { audio: spec_play_bytes(v.audio, v.resources[i].1).1, ..v },
            None => v,
        }
    }
}

/// The frame after the screen's renderer returned.
#[verifier::opaque]
pub open spec fn spec_after_render(v: MachineView) -> (MachineView, Control) {
    let (finished, v1) = spec_finish_screen_callback(v);
    if finished {
        (v1, Control::Done(Ok(())))
    } else {
        (spec_end_frame(v1), Control::Done(Ok(())))
    }
}

/// The frame after the screen's logic returned: render the screen unless
/// another one is pending.
#[verifier::opaque]
pub open spec fn spec_after_logic(v: MachineView) -> (MachineView, Control) {
    let (finished, v1) = spec_finish_screen_callback(v);
    if finished {
        (v1, Control::Done(Ok(())))
    } else if v1.screens.pending == 0 || v1.screens.pending == v1.frame_screen {
        let (render, m) = spec_read(v1.memory, v1.frame_screen.wrapping_add(12), 4);
        let v2 = MachineView { memory: m, ..v1 };
        if render == 0 {
            (v2, Control::Done(Err(MachineError::NoRenderCallback(v1.frame_screen))))
        } else {
            (spec_call(v2, render, v2.frame_this, 0, 0, FramePhase::Render), Control::Call)
        }
    } else {
        (spec_end_frame(v1), Control::Done(Ok(())))
    }
}

/// The screen's logic for the frame (argument 6).
#[verifier::opaque]
pub open spec fn spec_logic_call(v: MachineView) -> (MachineView, Control) {
    if v.frame_logic == 0 {
        spec_after_logic(v)
    } else {
        (spec_call(v, v.frame_logic, v.frame_this, 6, 0, FramePhase::Logic), Control::Call)
    }
}

/// The frame after the screen's logic handled a key event.
#[verifier::opaque]
pub open spec fn spec_after_key_logic(v: MachineView) -> (MachineView, Control) {
    let (finished, v1) = spec_finish_screen_callback(v);
    if finished {
        (v1, Control::Done(Ok(())))
    } else {
        let v2 = MachineView { key_down: 0, ..v1 };
        if v2.screens.pending != 0 && v2.screens.pending != v2.frame_screen {
            (spec_end_frame(v2), Control::Done(Ok(())))
        } else {
            spec_logic_call(v2)
        }
    }
}

/// The key stage: unless another screen is pending, take the next key
/// event, fetch the screen's logic and hand it the event (argument 0 for a
/// press, 1 for a release, and the key-event word).
#[verifier::opaque]
pub open spec fn spec_key_stage(v: MachineView) -> (MachineView, Control) {
    let screen = v.frame_screen;
    if v.screens.pending != 0 && v.screens.pending != screen {
        (spec_end_frame(v), Control::Done(Ok(())))
    } else {
        let (v3, event) = spec_next_key(v);
        let (logic, m) = spec_read(v3.memory, screen.wrapping_add(8), 4);
        let v4 = MachineView { memory: m, frame_logic: logic, ..v3 };
        match event {
            Some(e) => {
                let v5 = MachineView { memory: spec_write(v4.memory, KEY_EVENT_ARG, spec_key_bit(e.key), 4), ..v4 };
                if logic == 0 {
                    spec_after_key_logic(v5)
                } else {
                    (
                        spec_call(
                            v5,
                            logic,
                            v5.frame_this,
                            if e.pressed {
                                0
                            } else {
                                1
                            },
                            KEY_EVENT_ARG,
                            FramePhase::KeyLogic,
                        ),
                        Control::Call,
                    )
                }
            },
            None => spec_logic_call(v4),
        }
    }
}

/// The frame after the screen's resource loader returned.
#[verifier::opaque]
pub open spec fn spec_after_load(v: MachineView) -> (MachineView, Control) {
    let (finished, v1) = spec_finish_screen_callback(v);
    if finished {
        (v1, Control::Done(Ok(())))
    } else {
        spec_key_stage(v1)
    }
}

/// The load stage: a resource load requested for this screen (or for any)
/// runs its loader.
#[verifier::opaque]
pub open spec fn spec_load_stage(v: MachineView) -> (MachineView, Control) {
    let screen = v.frame_screen;
    if v.screens.load_pending && (v.screens.load_screen == 0 || v.screens.load_screen == screen) {
        let v1 = MachineView { screens: ScreenView { load_pending: false, load_screen: 0, ..v.screens }, ..v };
        let (load, m) = spec_read(v1.memory, screen.wrapping_add(24), 4);
        let v2 = MachineView { memory: m, ..v1 };
        if load == 0 {
            spec_after_load(v2)
        } else {
            (spec_call(v2, load, v2.frame_this, 0, 0, FramePhase::ScreenLoad), Control::Call)
        }
    } else {
        spec_key_stage(v)
    }
}

/// The frame after the screen's initializer returned: the screen is
/// initialized.
#[verifier::opaque]
pub open spec fn spec_after_init(v: MachineView) -> (MachineView, Control) {
    let (finished, v1) = spec_finish_screen_callback(v);
    if finished {
        (v1, Control::Done(Ok(())))
    } else {
        spec_load_stage(MachineView { screens: ScreenView { initialized: true, ..v1.screens }, ..v1 })
    }
}

/// The screen stage: a pending screen becomes active; with no active
/// screen the frame ends (an error unless a timer runs); an uninitialized
/// screen runs its initializer.
#[verifier::opaque]
pub open spec fn spec_enter_screen(v: MachineView) -> (MachineView, Control) {
    let s = v.screens;
    let v1 = if s.pending != 0 && s.pending != s.active {
        MachineView { screens: ScreenView { active: s.pending, initialized: false, ..s }, ..v }
    } else {
        v
    };
    if v1.screens.active == 0 {
        if spec_any_timer_active(v1.timers) {
            (spec_end_frame(v1), Control::Done(Ok(())))
        } else {
            (v1, Control::Done(Err(MachineError::NoActiveScreen)))
        }
    } else {
        let screen = v1.screens.active;
        let v2 = MachineView { frame_screen: screen, frame_this: spec_screen_param(v1, screen), ..v1 };
        if !v2.screens.initialized {
            let (init, m) = spec_read(v2.memory, screen, 4);
            let v3 = MachineView { memory: m, ..v2 };
            if init == 0 {
                spec_after_init(v3)
            } else {
                (spec_call(v3, init, v3.frame_this, 0, 0, FramePhase::ScreenInit), Control::Call)
            }
        } else {
            spec_load_stage(v2)
        }
    }
}

/// A native-interface frame: the next key event, then the parser.
#[verifier::opaque]
pub open spec fn spec_native_frame(v: MachineView) -> (MachineView, Control) {
    let (v3, event) = spec_next_key(v);
    if v3.native_app_parser == 0 {
        (MachineView { key_down: 0, ..v3 }, Control::Done(Ok(())))
    } else {
        (spec_call(v3, v3.native_app_parser, 0, 0, 0, FramePhase::NativeFrame), Control::Call)
    }
}

/// The frame after its timers fired: a halted machine, or one that lost
/// its last screen in a timer, ends the frame; then the native parser or
/// the screen stages.
#[verifier::opaque]
pub open spec fn spec_after_timers(v: MachineView) -> (MachineView, Control) {
    let (halted, v1) = spec_finish_halted(v);
    if halted {
        (v1, Control::Done(Ok(())))
    } else {
        let (finished, v2) = if v.frame_had_screen {
            spec_finish_screen_callback(v)
        } else {
            (false, v)
        };
        if finished {
            (v2, Control::Done(Ok(())))
        } else if spec_uses_native_dispatch_abi(v.executable) {
            spec_native_frame(v)
        } else {
            spec_enter_screen(v)
        }
    }
}

/// Fire the due timers from index `from` on, each with its context in r0.
#[verifier::opaque]
pub open spec fn spec_next_timer(v: MachineView, from: int) -> (MachineView, Control)
    decreases v.due_timers.len() - from,
{
    if from < 0 || from >= v.due_timers.len() {
        spec_after_timers(v)
    } else {
        let (callback, context) = v.due_timers[from];
        if callback == 0 {
            spec_next_timer(v, from + 1)
        } else {
            (spec_call(v, callback, context, 0, 0, FramePhase::Timers((from + 1) as u32)), Control::Call)
        }
    }
}

/// The start of a frame: a halted machine only clears its input edges; a
/// machine that is not ready refuses; otherwise the background-music layer
/// runs, the frame is counted, the timers tick and the due ones fire.
#[verifier::opaque]
pub open spec fn spec_start_frame(v: MachineView) -> (MachineView, Control) {
    let v0 = MachineView { phase: FramePhase::Idle, ..v };
    if v0.state == MachineState::Halted {
        (spec_end_frame(v0), Control::Done(Ok(())))
    } else if v0.state != MachineState::Ready {
        (v0, Control::Done(Err(MachineError::NotReady)))
    } else {
        let v1 = spec_auto_bgm(v0);
        let had = v1.screens.active != 0 || v1.screens.pending != 0 || v1.screens.stack.len() != 0;
        let (ticked, due) = spec_tick(v1.timers, v1.timers.len() as int);
        spec_next_timer(
            MachineView {
                frame_count: v1.frame_count.wrapping_add(1),
                frame_had_screen: had,
                timers: ticked,
                due_timers: due,
                ..v1
            },
            0,
        )
    }
}

/// The start of the boot: the executable's initializer is called with the
/// application interface in r0 (the native dispatcher or the manager
/// directory), the data address in r9, the stack at the top of its region,
/// Thumb state, returning to the exit address.
#[verifier::opaque]
pub open spec fn spec_start_boot(v: MachineView) -> (MachineView, Control) {
    let interface = if spec_uses_native_dispatch_abi(v.executable) {
        (NATIVE_DISPATCH_SERVICE + 1) as u32
    } else {
        MANAGER_BASE
    };
    let gpr = v.cpu.gpr.update(0, interface).update(9, spec_data_address(v.executable)).update(
        SP as int,
        (STACK_BASE + STACK_SIZE) as u32,
    ).update(LR as int, (EXIT_ADDRESS + 1) as u32).update(PC as int, crate::machine::executable::spec_code_address(v.executable));
    (
        MachineView {
            state: MachineState::Initializing,
            cpu: CpuView { gpr, cpsr: 0x30 },
            phase: FramePhase::BootInitializer,
            ..v
        },
        Control::Call,
    )
}

/// The boot after the initializer returned: the native interface needs a
/// registered parser, which is called; otherwise the application entry is
/// read from the manager directory and called.
#[verifier::opaque]
pub open spec fn spec_after_initializer(v: MachineView) -> (MachineView, Control) {
    if v.state == MachineState::Halted {
        (v, Control::Done(Ok(())))
    } else if spec_uses_native_dispatch_abi(v.executable) {
        if v.native_app_parser == 0 {
            (MachineView { state: MachineState::Faulted, ..v }, Control::Done(Err(MachineError::NoNativeApplicationEntry)))
        } else {
            let v1 = MachineView { app_main: v.native_app_parser, ..v };
            (spec_call(v1, v1.native_app_parser, 0, 0, 0, FramePhase::BootNativeParser), Control::Call)
        }
    } else {
        let (main, m1) = spec_read(v.memory, MANAGER_BASE, 4);
        let (exit, m2) = spec_read(m1, (MANAGER_BASE + 4) as u32, 4);
        let v1 = MachineView { memory: m2, app_main: main, app_exit: exit, ..v };
        if main == 0 {
            (MachineView { state: MachineState::Faulted, ..v1 }, Control::Done(Err(MachineError::NoApplicationEntry)))
        } else {
            (
                MachineView {
                    cpu: spec_jump(spec_set_reg(v1.cpu, LR as int, (EXIT_ADDRESS + 1) as u32), main),
                    phase: FramePhase::BootMain,
                    ..v1
                },
                Control::Call,
            )
        }
    }
}

/// The boot after the native parser returned: the native initializer runs,
/// unless there is none.
#[verifier::opaque]
pub open spec fn spec_after_native_parser(v: MachineView) -> (MachineView, Control) {
    if v.state == MachineState::Halted {
        (v, Control::Done(Ok(())))
    } else if v.native_app_init == 0 {
        (MachineView { state: MachineState::Ready, ..v }, Control::Done(Ok(())))
    } else {
        (spec_call(v, v.native_app_init, 0, 0, 0, FramePhase::BootNativeInit), Control::Call)
    }
}

/// The end of the boot: ready unless the guest halted.
pub open spec fn spec_boot_done(v: MachineView) -> (MachineView, Control) {
    if v.state == MachineState::Halted {
        (v, Control::Done(Ok(())))
    } else {
        (MachineView { state: MachineState::Ready, ..v }, Control::Done(Ok(())))
    }
}

/// The boot or the frame after a guest call returned with `outcome`: an
/// error ends it; otherwise it goes on where it left off.
#[verifier::opaque]
pub open spec fn spec_resume(v: MachineView, outcome: Result<(), MachineError>) -> (MachineView, Control) {
    let phase = v.phase;
    let v0 = MachineView { phase: FramePhase::Idle, ..v };
    match outcome {
        Err(e) => (
            if phase == FramePhase::NativeFrame {
                MachineView { key_down: 0, ..v0 }
            } else {
                v0
            },
            Control::Done(Err(e)),
        ),
        Ok(()) => match phase {
            FramePhase::Idle => (v0, Control::Done(Ok(()))),
            FramePhase::BootInitializer => spec_after_initializer(v0),
            FramePhase::BootNativeParser => spec_after_native_parser(v0),
            FramePhase::BootNativeInit => spec_boot_done(v0),
            FramePhase::BootMain => spec_boot_done(v0),
            FramePhase::Timers(i) => spec_next_timer(v0, i as int),
            FramePhase::ScreenInit => spec_after_init(v0),
            FramePhase::ScreenLoad => spec_after_load(v0),
            FramePhase::KeyLogic => spec_after_key_logic(v0),
            FramePhase::Logic => spec_after_logic(v0),
            FramePhase::Render => spec_after_render(v0),
            FramePhase::NativeFrame => (MachineView { key_down: 0, ..v0 }, Control::Done(Ok(()))),
        },
    }
}

impl NicaiMachine {
    /// Clear the per-frame input edges.
    fn end_frame(&mut self)
        ensures
            final(self)@ == spec_end_frame(old(self)@),
    {
        self.key_down = 0;
        self.pointer.end_frame();
    }

    /// End the frame of a halted machine.
    fn finish_halted(&mut self) -> (res: bool)
        ensures
            (res, final(self)@) == spec_finish_halted(old(self)@),
    {
        if self.state != MachineState::Halted {
            return false;
        }
        self.end_frame();
        true
    }

    /// Halt a machine left without screens, then end the frame if halted.
    fn finish_screen_callback(&mut self) -> (res: bool)
        ensures
            (res, final(self)@) == spec_finish_screen_callback(old(self)@),
    {
        if self.state != MachineState::Halted && self.screens.active() == 0 && self.screens.pending() == 0
            && self.screens.stack_is_empty() {
            self.state = MachineState::Halted;
        }
        self.finish_halted()
    }

    /// Set up a guest call to `entry`, resuming at `phase`.
    fn call(&mut self, entry: u32, r0: u32, r1: u32, r2: u32, phase: FramePhase)
        ensures
            final(self)@ == spec_call(old(self)@, entry, r0, r1, r2, phase),
    {
        self.cpu.enter_callback(entry, r0, r1, r2);
        self.phase = phase;
    }

    /// The `this` argument of a screen's callbacks.
    fn screen_param(&self, screen: u32) -> (res: u32)
        ensures
            res == spec_screen_param(self@, screen),
    {
        if screen >= self.executable.data_address() {
            screen.saturating_sub(0x18)
        } else {
            screen
        }
    }

    /// Take the next key event and apply it to the guest key state.
    fn next_key(&mut self) -> (res: Option<KeyEvent>)
        ensures
            (final(self)@, res) == spec_next_key(old(self)@),
    {
        self.key_down = 0;
        if self.pending_keys.len() == 0 {
            return None;
        }
        let ghost keys = self.pending_keys@;
        let event = self.pending_keys.remove(0);
        assert(self.pending_keys@ =~= keys.drop_first());
        update_key_bits(&mut self.key_down, &mut self.key_held, event.key, event.pressed);
        Some(event)
    }

    /// Whether a timer is running.
    fn any_timer_active(&self) -> (res: bool)
        ensures
            res == spec_any_timer_active(self@.timers),
    {
        let slots = self.timers.slots();
        let mut i: usize = 0;
        while i < slots.len()
            invariant
                i <= slots@.len(),
                slots@ == self@.timers,
                forall|k: int| 0 <= k < i ==> !(#[trigger] slots@[k]).active,
            decreases slots@.len() - i,
        {
            if slots[i].active {
                assert(self@.timers[i as int].active);
                return true;
            }
            i = i + 1;
        }
        false
    }

    /// Run the background-music layer.
    fn auto_bgm_step(&mut self)
        requires
            old(self).wf(),
        ensures
            final(self).wf(),
            final(self)@ == spec_auto_bgm(old(self)@),
    {
        if !self.auto_bgm || self.auto_bgm_gave_way {
            return;
        }
        if self.audio.state() == 1 && self.audio.buffered_frames() != 0 {
            return;
        }
        let ghost rv = self@.resources;
        let ghost v0 = self@;
        let mp = vec!['.', 'm', 'i', 'd'];
        let mpi = vec!['.', 'm', 'i', 'd', 'i'];
        assert(mp@ =~= seq!['.', 'm', 'i', 'd']);
        assert(mpi@ =~= seq!['.', 'm', 'i', 'd', 'i']);
        assert(spec_lower(mp@) =~= mp@);
        assert(spec_lower(mpi@) =~= mpi@);
        let mut k: usize = 0;
        while k < self.resources.len()
            invariant
                k <= self.resources@.len(),
                self@ == v0,
                v0 == old(self)@,
                spec_machine_wf(v0),
                rv == v0.resources,
                v0.auto_bgm && !v0.auto_bgm_gave_way,
                !(spec_state(v0.audio) == 1 && v0.audio.samples.len() / 2 != 0),
                mp@ == seq!['.', 'm', 'i', 'd'],
                mpi@ == seq!['.', 'm', 'i', 'd', 'i'],
                spec_lower(mp@) == mp@,
                spec_lower(mpi@) == mpi@,
                spec_first_midi(rv, 0) == spec_first_midi(rv, k as int),
            decreases self.resources@.len() - k,
        {
            let name = chars_of(self.resources[k].name.as_str());
            assert(rv[k as int] == self.resources@[k as int]@);
            assert(name@ == rv[k as int].0);
            if ends_with_ignore_ascii_case(name.as_slice(), mp.as_slice()) || ends_with_ignore_ascii_case(
                name.as_slice(),
                mpi.as_slice(),
            ) {
                assert(spec_first_midi(rv, k as int) == Some(k as int));
                let _ = self.audio.play_bytes(self.resources[k].data.as_slice());
                return;
            }
            k = k + 1;
        }
    }
}

/// Ticking keeps one slot per timer.
proof fn lemma_tick_len(slots: Seq<GuestTimer>, count: int)
    requires
        0 <= count <= slots.len(),
    ensures
        spec_tick(slots, count).0.len() == count,
    decreases count,
{
    if count > 0 {
        lemma_tick_len(slots, count - 1);
    }
}

impl NicaiMachine {
    /// The frame after the renderer returned.
    fn after_render(&mut self) -> (res: Control)
        requires
            old(self).wf(),
        ensures
            final(self).wf(),
            (final(self)@, res) == spec_after_render(old(self)@),
    {
        reveal(spec_after_render);
        if self.finish_screen_callback() {
            return Control::Done(Ok(()));
        }
        self.end_frame();
        Control::Done(Ok(()))
    }

    /// The frame after the logic returned.
    fn after_logic(&mut self) -> (res: Control)
        requires
            old(self).wf(),
        ensures
            final(self).wf(),
            (final(self)@, res) == spec_after_logic(old(self)@),
    {
        reveal(spec_after_logic);
        if self.finish_screen_callback() {
            return Control::Done(Ok(()));
        }
        let screen = self.frame_screen;
        let pending = self.screens.pending();
        if pending == 0 || pending == screen {
            let render = self.memory.r32(screen.wrapping_add(12));
            if render == 0 {
                return Control::Done(Err(MachineError::NoRenderCallback(screen)));
            }
            let this = self.frame_this;
            self.call(render, this, 0, 0, FramePhase::Render);
            return Control::Call;
        }
        self.end_frame();
        Control::Done(Ok(()))
    }

    /// The screen's logic for the frame.
    fn logic_call(&mut self) -> (res: Control)
        requires
            old(self).wf(),
        ensures
            final(self).wf(),
            (final(self)@, res) == spec_logic_call(old(self)@),
    {
        reveal(spec_logic_call);
        let logic = self.frame_logic;
        if logic == 0 {
            return self.after_logic();
        }
        let this = self.frame_this;
        self.call(logic, this, 6, 0, FramePhase::Logic);
        Control::Call
    }

    /// The frame after the logic handled a key event.
    fn after_key_logic(&mut self) -> (res: Control)
        requires
            old(self).wf(),
        ensures
            final(self).wf(),
            (final(self)@, res) == spec_after_key_logic(old(self)@),
    {
        reveal(spec_after_key_logic);
        if self.finish_screen_callback() {
            return Control::Done(Ok(()));
        }
        self.key_down = 0;
        let pending = self.screens.pending();
        if pending != 0 && pending != self.frame_screen {
            self.end_frame();
            return Control::Done(Ok(()));
        }
        self.logic_call()
    }

    /// The key stage.
    fn key_stage(&mut self) -> (res: Control)
        requires
            old(self).wf(),
        ensures
            final(self).wf(),
            (final(self)@, res) == spec_key_stage(old(self)@),
    {
        reveal(spec_key_stage);
        let screen = self.frame_screen;
        let pending = self.screens.pending();
        if pending != 0 && pending != screen {
            self.end_frame();
            return Control::Done(Ok(()));
        }
        let event = self.next_key();
        let logic = self.memory.r32(screen.wrapping_add(8));
        self.frame_logic = logic;
        match event {
            Some(e) => {
                let bit: u32 = if e.key < 32 {
                    1u32 << e.key
                } else {
                    0
                };
                self.memory.w32(KEY_EVENT_ARG, bit);
                if logic == 0 {
                    return self.after_key_logic();
                }
                let this = self.frame_this;
                let released: u32 = if e.pressed {
                    0
                } else {
                    1
                };
                self.call(logic, this, released, KEY_EVENT_ARG, FramePhase::KeyLogic);
                Control::Call
            },
            None => self.logic_call(),
        }
    }

    /// The frame after the resource loader returned.
    fn after_load(&mut self) -> (res: Control)
        requires
            old(self).wf(),
        ensures
            final(self).wf(),
            (final(self)@, res) == spec_after_load(old(self)@),
    {
        reveal(spec_after_load);
        if self.finish_screen_callback() {
            return Control::Done(Ok(()));
        }
        self.key_stage()
    }

    /// The load stage.
    fn load_stage(&mut self) -> (res: Control)
        requires
            old(self).wf(),
        ensures
            final(self).wf(),
            (final(self)@, res) == spec_load_stage(old(self)@),
    {
        reveal(spec_load_stage);
        let screen = self.frame_screen;
        let load_screen = self.screens.load_screen();
        if self.screens.load_pending() && (load_screen == 0 || load_screen == screen) {
            self.screens.clear_load_request();
            let load = self.memory.r32(screen.wrapping_add(24));
            if load == 0 {
                return self.after_load();
            }
            let this = self.frame_this;
            self.call(load, this, 0, 0, FramePhase::ScreenLoad);
            return Control::Call;
        }
        self.key_stage()
    }

    /// The frame after the initializer returned.
    fn after_init(&mut self) -> (res: Control)
        requires
            old(self).wf(),
        ensures
            final(self).wf(),
            (final(self)@, res) == spec_after_init(old(self)@),
    {
        reveal(spec_after_init);
        if self.finish_screen_callback() {
            return Control::Done(Ok(()));
        }
        self.screens.mark_initialized();
        self.load_stage()
    }

    /// The screen stage.
    fn enter_screen(&mut self) -> (res: Control)
        requires
            old(self).wf(),
        ensures
            final(self).wf(),
            (final(self)@, res) == spec_enter_screen(old(self)@),
    {
        reveal(spec_enter_screen);
        let pending = self.screens.pending();
        if pending != 0 && pending != self.screens.active() {
            self.screens.activate(pending);
        }
        let screen = self.screens.active();
        if screen == 0 {
            if self.any_timer_active() {
                self.end_frame();
                return Control::Done(Ok(()));
            }
            return Control::Done(Err(MachineError::NoActiveScreen));
        }
        self.frame_screen = screen;
        self.frame_this = self.screen_param(screen);
        if !self.screens.initialized() {
            let init = self.memory.r32(screen);
            if init == 0 {
                return self.after_init();
            }
            let this = self.frame_this;
            self.call(init, this, 0, 0, FramePhase::ScreenInit);
            return Control::Call;
        }
        self.load_stage()
    }

    /// A native-interface frame.
    fn native_frame(&mut self) -> (res: Control)
        requires
            old(self).wf(),
        ensures
            final(self).wf(),
            (final(self)@, res) == spec_native_frame(old(self)@),
    {
        reveal(spec_native_frame);
        let _event = self.next_key();
        let parser = self.native_app_parser;
        if parser == 0 {
            self.key_down = 0;
            return Control::Done(Ok(()));
        }
        self.call(parser, 0, 0, 0, FramePhase::NativeFrame);
        Control::Call
    }

    /// The frame after its timers fired.
    fn after_timers(&mut self) -> (res: Control)
        requires
            old(self).wf(),
        ensures
            final(self).wf(),
            (final(self)@, res) == spec_after_timers(old(self)@),
    {
        reveal(spec_after_timers);
        if self.finish_halted() {
            return Control::Done(Ok(()));
        }
        if self.frame_had_screen && self.finish_screen_callback() {
            return Control::Done(Ok(()));
        }
        if self.uses_native_dispatch_abi() {
            return self.native_frame();
        }
        self.enter_screen()
    }

    /// Fire the due timers from index `from` on.
    fn next_timer(&mut self, from: usize) -> (res: Control)
        requires
            old(self).wf(),
            from <= old(self)@.due_timers.len(),
        ensures
            final(self).wf(),
            (final(self)@, res) == spec_next_timer(old(self)@, from as int),
    {
        let mut i = from;
        while i < self.due_timers.len()
            invariant
                from <= i <= self.due_timers@.len(),
                self@ == old(self)@,
                spec_machine_wf(self@),
                spec_next_timer(old(self)@, from as int) == spec_next_timer(old(self)@, i as int),
            decreases self.due_timers@.len() - i,
        {
            reveal(spec_next_timer);
            let (callback, context) = self.due_timers[i];
            if callback != 0 {
                self.call(callback, context, 0, 0, FramePhase::Timers((i + 1) as u32));
                return Control::Call;
            }
            i = i + 1;
        }
        proof {
            reveal(spec_next_timer);
        }
        self.after_timers()
    }
}

impl NicaiMachine {
    /// Start a frame (see `spec_start_frame`).
    pub fn start_frame(&mut self) -> (res: Control)
        requires
            old(self).wf(),
        ensures
            final(self).wf(),
            (final(self)@, res) == spec_start_frame(old(self)@),
    {
        reveal(spec_start_frame);
        self.phase = FramePhase::Idle;
        if self.state == MachineState::Halted {
            self.end_frame();
            return Control::Done(Ok(()));
        }
        if self.state != MachineState::Ready {
            return Control::Done(Err(MachineError::NotReady));
        }
        self.auto_bgm_step();
        let had = self.screens.active() != 0 || self.screens.pending() != 0 || !self.screens.stack_is_empty();
        let ghost before = self.timers@;
        let due = self.timers.tick();
        proof {
            lemma_tick_len(before, before.len() as int);
            lemma_due_len(before, before.len() as int);
        }
        self.frame_count = self.frame_count.wrapping_add(1);
        self.frame_had_screen = had;
        self.due_timers = due;
        self.next_timer(0)
    }

    /// Start the boot (see `spec_start_boot`).
    pub fn start_boot(&mut self) -> (res: Control)
        requires
            old(self).wf(),
        ensures
            final(self).wf(),
            (final(self)@, res) == spec_start_boot(old(self)@),
    {
        reveal(spec_start_boot);
        self.state = MachineState::Initializing;
        let interface = if self.uses_native_dispatch_abi() {
            NATIVE_DISPATCH_SERVICE + 1
        } else {
            MANAGER_BASE
        };
        let data_address = self.executable.data_address();
        let code_address = self.executable.code_address();
        self.cpu.gpr.set(0, interface);
        self.cpu.gpr.set(9, data_address);
        self.cpu.gpr.set(SP, STACK_BASE + STACK_SIZE);
        self.cpu.gpr.set(LR, EXIT_ADDRESS + 1);
        self.cpu.gpr.set(PC, code_address);
        self.cpu.cpsr = 0x30;
        self.phase = FramePhase::BootInitializer;
        Control::Call
    }

    /// The boot after the initializer returned.
    fn after_initializer(&mut self) -> (res: Control)
        requires
            old(self).wf(),
        ensures
            final(self).wf(),
            (final(self)@, res) == spec_after_initializer(old(self)@),
    {
        reveal(spec_after_initializer);
        if self.state == MachineState::Halted {
            return Control::Done(Ok(()));
        }
        if self.uses_native_dispatch_abi() {
            let parser = self.native_app_parser;
            if parser == 0 {
                self.state = MachineState::Faulted;
                return Control::Done(Err(MachineError::NoNativeApplicationEntry));
            }
            self.app_main = parser;
            self.call(parser, 0, 0, 0, FramePhase::BootNativeParser);
            return Control::Call;
        }
        let main = self.memory.r32(MANAGER_BASE);
        let exit = self.memory.r32(MANAGER_BASE + 4);
        self.app_main = main;
        self.app_exit = exit;
        if main == 0 {
            self.state = MachineState::Faulted;
            return Control::Done(Err(MachineError::NoApplicationEntry));
        }
        self.cpu.gpr.set(LR, EXIT_ADDRESS + 1);
        self.cpu.jump(main);
        self.phase = FramePhase::BootMain;
        Control::Call
    }

    /// The boot after the native parser returned.
    fn after_native_parser(&mut self) -> (res: Control)
        requires
            old(self).wf(),
        ensures
            final(self).wf(),
            (final(self)@, res) == spec_after_native_parser(old(self)@),
    {
        reveal(spec_after_native_parser);
        if self.state == MachineState::Halted {
            return Control::Done(Ok(()));
        }
        let init = self.native_app_init;
        if init == 0 {
            self.state = MachineState::Ready;
            return Control::Done(Ok(()));
        }
        self.call(init, 0, 0, 0, FramePhase::BootNativeInit);
        Control::Call
    }

    /// The end of the boot.
    fn boot_done(&mut self) -> (res: Control)
        ensures
            (final(self)@, res) == spec_boot_done(old(self)@),
    {
        if self.state != MachineState::Halted {
            self.state = MachineState::Ready;
        }
        Control::Done(Ok(()))
    }

    /// Go on after the guest call set up by the last `Control::Call`
    /// returned with `outcome` (see `spec_resume`).
    pub fn resume(&mut self, outcome: Result<(), MachineError>) -> (res: Control)
        requires
            old(self).wf(),
        ensures
            final(self).wf(),
            (final(self)@, res) == spec_resume(old(self)@, outcome),
    {
        reveal(spec_resume);
        let phase = self.phase;
        self.phase = FramePhase::Idle;
        match outcome {
            Err(e) => {
                if phase == FramePhase::NativeFrame {
                    self.key_down = 0;
                }
                Control::Done(Err(e))
            },
            Ok(()) => match phase {
                FramePhase::Idle => Control::Done(Ok(())),
                FramePhase::BootInitializer => self.after_initializer(),
                FramePhase::BootNativeParser => self.after_native_parser(),
                FramePhase::BootNativeInit => self.boot_done(),
                FramePhase::BootMain => self.boot_done(),
                FramePhase::Timers(i) => self.next_timer(i as usize),
                FramePhase::ScreenInit => self.after_init(),
                FramePhase::ScreenLoad => self.after_load(),
                FramePhase::KeyLogic => self.after_key_logic(),
                FramePhase::Logic => self.after_logic(),
                FramePhase::Render => self.after_render(),
                FramePhase::NativeFrame => {
                    self.key_down = 0;
                    Control::Done(Ok(()))
                },
            },
        }
    }
}

/// At most one timer per slot is due.
proof fn lemma_due_len(slots: Seq<GuestTimer>, count: int)
    requires
        0 <= count <= slots.len(),
    ensures
        spec_tick(slots, count).1.len() <= count,
    decreases count,
{
    if count > 0 {
        lemma_due_len(slots, count - 1);
    }
}

} // verus!
