//! The screen stack of the guest (service group 14): the screens the game
//! has opened, the one about to become active, and requests to load a
//! screen's resources.
use vstd::prelude::*;

use crate::machine::memory::{spec_write, MachineMemory, MemoryView};

verus! {

/// Guest address of the "screen is quitting" flag, cleared when a screen
/// is entered.
pub const SCREEN_IS_IN_QUIT: u32 = 0x0a00_7fe0;

/// The screen state as plain values.
pub struct ScreenView {
    pub stack: Seq<u32>,
    pub pending: u32,
    pub active: u32,
    pub initialized: bool,
    pub load_screen: u32,
    pub load_pending: bool,
}

/// The guest's screen stack and screen switching state.
#[derive(Debug)]
pub struct ScreenState {
    stack: Vec<u32>,
    /// The screen that becomes active at the next frame.
    pub pending: u32,
    /// The active screen.
    pub active: u32,
    /// Whether the active screen has been initialized.
    pub initialized: bool,
    /// The screen whose resources are to be loaded.
    pub load_screen: u32,
    /// Whether a resource load is requested.
    pub load_pending: bool,
}

impl View for ScreenState {
    type V = ScreenView;

    closed spec fn view(&self) -> ScreenView {
        ScreenView {
            stack: self.stack@,
            pending: self.pending,
            active: self.active,
            initialized: self.initialized,
            load_screen: self.load_screen,
            load_pending: self.load_pending,
        }
    }
}

/// The last position of `screen` in the first `count` entries.
pub open spec fn spec_last_index(stack: Seq<u32>, screen: u32, count: int) -> Option<int>
    decreases count,
{
    if count <= 0 || count > stack.len() {
        None
    } else if stack[count - 1] == screen {
        Some(count - 1)
    } else {
        spec_last_index(stack, screen, count - 1)
    }
}

/// The screen services by index, with the screen in `r0`: enter a screen
/// in place of the top one (0, 2, 3), request a resource load (1, 7, 8),
/// push a screen (4, 5), remove the topmost entry of a screen (6; when it
/// was active or pending, the new top becomes active and uninitialized),
/// and ask whether a screen is the top (9) or the bottom (10) entry.
/// Entering or pushing a non-null screen makes it pending and clears the
/// quit flag in guest memory.
pub open spec fn spec_screen_service(s: ScreenView, m: MemoryView, index: u32, r0: u32) -> (
    u32,
    ScreenView,
    MemoryView,
) {
    if index == 0 || index == 2 || index == 3 {
        if r0 != 0 {
            let stack = if s.stack.len() > 0 {
                s.stack.update(s.stack.len() - 1, r0)
            } else {
                seq![r0]
            };
            (SCREEN_IS_IN_QUIT, ScreenView { stack, pending: r0, ..s }, spec_write(m, SCREEN_IS_IN_QUIT, 0, 4))
        } else {
            (SCREEN_IS_IN_QUIT, s, m)
        }
    } else if index == 1 || index == 7 || index == 8 {
        (0, ScreenView { load_screen: if r0 != 0 { r0 } else { s.pending }, load_pending: true, ..s }, m)
    } else if index == 4 || index == 5 {
        if r0 != 0 {
            (0, ScreenView { stack: s.stack.push(r0), pending: r0, ..s }, spec_write(m, SCREEN_IS_IN_QUIT, 0, 4))
        } else {
            (0, s, m)
        }
    } else if index == 6 {
        match spec_last_index(s.stack, r0, s.stack.len() as int) {
            Some(i) => {
                let stack = s.stack.remove(i);
                if s.active == r0 || s.pending == r0 {
                    let top = if stack.len() > 0 {
                        stack.last()
                    } else {
                        0
                    };
                    (1, ScreenView { stack, pending: top, active: top, initialized: false, ..s }, m)
                } else {
                    (1, ScreenView { stack, ..s }, m)
                }
            },
            None => (0, s, m),
        }
    } else if index == 9 {
        (if s.stack.len() > 0 && s.stack.last() == r0 { 1 } else { 0 }, s, m)
    } else if index == 10 {
        (if s.stack.len() > 0 && s.stack[0] == r0 { 1 } else { 0 }, s, m)
    } else {
        (0, s, m)
    }
}

impl ScreenState {
    /// No screens.
    pub fn new() -> (res: Self)
        ensures
            res@ == (ScreenView {
                stack: Seq::empty(),
                pending: 0,
                active: 0,
                initialized: false,
                load_screen: 0,
                load_pending: false,
            }),
    {
        ScreenState {
            stack: Vec::new(),
            pending: 0,
            active: 0,
            initialized: false,
            load_screen: 0,
            load_pending: false,
        }
    }

    /// The screen that becomes active at the next frame.
    pub fn pending(&self) -> (res: u32)
        ensures
            res == self@.pending,
    {
        self.pending
    }

    /// The active screen.
    pub fn active(&self) -> (res: u32)
        ensures
            res == self@.active,
    {
        self.active
    }

    /// Whether the active screen has been initialized.
    pub fn initialized(&self) -> (res: bool)
        ensures
            res == self@.initialized,
    {
        self.initialized
    }

    /// The screen whose resources are to be loaded.
    pub fn load_screen(&self) -> (res: u32)
        ensures
            res == self@.load_screen,
    {
        self.load_screen
    }

    /// Whether a resource load is requested.
    pub fn load_pending(&self) -> (res: bool)
        ensures
            res == self@.load_pending,
    {
        self.load_pending
    }

    /// Whether no screen has been opened.
    pub fn stack_is_empty(&self) -> (res: bool)
        ensures
            res == (self@.stack.len() == 0),
    {
        self.stack.len() == 0
    }

    /// Make `screen` active, not yet initialized.
    pub fn activate(&mut self, screen: u32)
        ensures
            final(self)@ == (ScreenView { active: screen, initialized: false, ..old(self)@ }),
    {
        self.active = screen;
        self.initialized = false;
    }

    /// Mark the active screen initialized.
    pub fn mark_initialized(&mut self)
        ensures
            final(self)@ == (ScreenView { initialized: true, ..old(self)@ }),
    {
        self.initialized = true;
    }

    /// Consume the resource-load request.
    pub fn clear_load_request(&mut self)
        ensures
            final(self)@ == (ScreenView { load_pending: false, load_screen: 0, ..old(self)@ }),
    {
        self.load_pending = false;
        self.load_screen = 0;
    }

    /// Make `screen` pending.
    pub fn set_pending(&mut self, screen: u32)
        ensures
            final(self)@ == (ScreenView { pending: screen, ..old(self)@ }),
    {
        self.pending = screen;
    }

    /// Request a resource load for `screen`.
    pub fn request_load(&mut self, screen: u32)
        ensures
            final(self)@ == (ScreenView { load_screen: screen, load_pending: true, ..old(self)@ }),
    {
        self.load_screen = screen;
        self.load_pending = true;
    }

    /// The screen stack, bottom first.
    pub fn stack(&self) -> (res: &[u32])
        ensures
            res@ == self@.stack,
    {
        self.stack.as_slice()
    }

    /// Run screen service `index` (group 14).
    pub fn handle_screen_service(&mut self, memory: &mut MachineMemory, index: u32, r0: u32) -> (res: u32)
        ensures
            (res, final(self)@, final(memory)@) == spec_screen_service(old(self)@, old(memory)@, index, r0),
    {
        match index {
            0 | 2 | 3 => {
                if r0 != 0 {
                    let n = self.stack.len();
                    if n > 0 {
                        self.stack.set(n - 1, r0);
                    } else {
                        self.stack.push(r0);
                        assert(self.stack@ =~= seq![r0]);
                    }
                    self.pending = r0;
                    memory.w32(SCREEN_IS_IN_QUIT, 0);
                }
                SCREEN_IS_IN_QUIT
            },
            1 | 7 | 8 => {
                self.load_screen = if r0 != 0 {
                    r0
                } else {
                    self.pending
                };
                self.load_pending = true;
                0
            },
            4 | 5 => {
                if r0 != 0 {
                    self.stack.push(r0);
                    self.pending = r0;
                    memory.w32(SCREEN_IS_IN_QUIT, 0);
                }
                0
            },
            6 => {
                let mut count = self.stack.len();
                while count > 0 && self.stack[count - 1] != r0
                    invariant
                        count <= self.stack@.len(),
                        self@ == old(self)@,
                        spec_last_index(self.stack@, r0, self.stack@.len() as int) == spec_last_index(
                            self.stack@,
                            r0,
                            count as int,
                        ),
                    decreases count,
                {
                    count = count - 1;
                }
                if count == 0 {
                    return 0;
                }
                self.stack.remove(count - 1);
                if self.active == r0 || self.pending == r0 {
                    let n = self.stack.len();
                    let top = if n > 0 {
                        self.stack[n - 1]
                    } else {
                        0
                    };
                    self.pending = top;
                    self.active = top;
                    self.initialized = false;
                }
                1
            },
            9 => {
                let n = self.stack.len();
                if n > 0 && self.stack[n - 1] == r0 {
                    1
                } else {
                    0
                }
            },
            10 => {
                if self.stack.len() > 0 && self.stack[0] == r0 {
                    1
                } else {
                    0
                }
            },
            _ => 0,
        }
    }
}

/// Pushing a screen and then removing it restores the stack, and while it
/// is on top it is reported as the top entry.
pub proof fn lemma_push_then_remove_restores(s: ScreenView, m: MemoryView, screen: u32)
    requires
        screen != 0,
    ensures
        ({
            let (_, pushed, m1) = spec_screen_service(s, m, 4, screen);
            let (top, _, _) = spec_screen_service(pushed, m1, 9, screen);
            let (removed, popped, _) = spec_screen_service(pushed, m1, 6, screen);
            &&& top == 1
            &&& removed == 1
            &&& popped.stack == s.stack
        }),
{
    let pushed = spec_screen_service(s, m, 4, screen).1;
    assert(spec_last_index(pushed.stack, screen, pushed.stack.len() as int) == Some(s.stack.len() as int));
    assert(pushed.stack.remove(s.stack.len() as int) =~= s.stack);
}

} // verus!
