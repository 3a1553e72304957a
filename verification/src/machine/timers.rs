//! Guest timers (service group 7): a fixed set of slots counting down in
//! frames of 100 ms. Firing a due callback runs guest code, which the
//! caller does; this module decides which callbacks are due.
use vstd::prelude::*;

verus! {

/// Number of timer slots.
pub const MAX_TIMERS: usize = 20;
/// The handle of the first timer slot.
pub const TIMER_BASE_ID: u32 = 100;
/// Length of one frame in milliseconds.
pub const TIMER_FRAME_MS: u32 = 100;
/// The clock value (seconds) at the first frame.
pub const EPOCH_SECONDS: u32 = 1_786_080_000;

/// One timer slot.
#[derive(Debug, Clone, Copy, PartialEq, Eq, Structural)]
pub struct GuestTimer {
    pub active: bool,
    pub callback: u32,
    pub context: u32,
    pub remaining_frames: u32,
}

/// An unused slot.
pub open spec fn spec_idle_timer() -> GuestTimer {
    GuestTimer { active: false, callback: 0, context: 0, remaining_frames: 0 }
}

/// The timer slots.
#[derive(Debug)]
pub struct GuestTimers {
    slots: Vec<GuestTimer>,
}

impl View for GuestTimers {
    type V = Seq<GuestTimer>;

    closed spec fn view(&self) -> Seq<GuestTimer> {
        self.slots@
    }
}

/// The first inactive slot.
pub open spec fn spec_free_slot(slots: Seq<GuestTimer>) -> Option<int> {
    if exists|i: int| 0 <= i < slots.len() && !slots[i].active {
        Some(
            choose|i: int|
                0 <= i < slots.len() && !slots[i].active && forall|j: int|
                    0 <= j < i ==> slots[j].active,
        )
    } else {
        None
    }
}

/// Frames until a timer of `delay_ms` fires: the delay rounded up to whole
/// frames, at least one.
pub open spec fn spec_delay_frames(delay_ms: u32) -> u32 {
    let frames = delay_ms.saturating_add((TIMER_FRAME_MS - 1) as u32) / TIMER_FRAME_MS;
    if frames > 1 {
        frames
    } else {
        1
    }
}

/// The timer services by index, with arguments `r0` to `r2` and the
/// number of frames run so far: start a timer (0; the handle, or 0 without
/// a callback or a free slot), stop one (1), the tick count in
/// milliseconds (2), the clock in seconds (3, 4), sleep (5).
pub open spec fn spec_timer_service(
    slots: Seq<GuestTimer>,
    index: u32,
    r0: u32,
    r1: u32,
    r2: u32,
    frame_count: u64,
) -> (u32, Seq<GuestTimer>) {
    if index == 0 {
        if r1 == 0 {
            (0, slots)
        } else {
            match spec_free_slot(slots) {
                Some(slot) => (
                    (TIMER_BASE_ID + slot) as u32,
                    slots.update(
                        slot,
                        GuestTimer {
                            active: true,
                            callback: r1,
                            context: r2,
                            remaining_frames: spec_delay_frames(r0),
                        },
                    ),
                ),
                None => (0, slots),
            }
        }
    } else if index == 1 {
        if TIMER_BASE_ID <= r0 && r0 - TIMER_BASE_ID < MAX_TIMERS {
            let slot = r0 - TIMER_BASE_ID;
            (0, slots.update(slot, GuestTimer { active: false, ..slots[slot] }))
        } else {
            (0, slots)
        }
    } else if index == 2 {
        ((((frame_count * TIMER_FRAME_MS) % 0x1_0000_0000_0000_0000) % 0x1_0000_0000) as u32, slots)
    } else if index == 3 || index == 4 {
        (EPOCH_SECONDS.wrapping_add(
            ((((frame_count * TIMER_FRAME_MS) % 0x1_0000_0000_0000_0000) / 1000) % 0x1_0000_0000) as u32,
        ), slots)
    } else {
        (0, slots)
    }
}

/// One frame passes: every active timer counts down; those that reach zero
/// stop and their (callback, context) pairs are due, in slot order.
pub open spec fn spec_tick(slots: Seq<GuestTimer>, count: int) -> (Seq<GuestTimer>, Seq<(u32, u32)>)
    decreases count,
{
    if count <= 0 {
        (Seq::empty(), Seq::empty())
    } else {
        let (ticked, due) = spec_tick(slots, count - 1);
        let t = slots[count - 1];
        if !t.active {
            (ticked.push(t), due)
        } else {
            let remaining = if t.remaining_frames > 0 {
                (t.remaining_frames - 1) as u32
            } else {
                0
            };
            if remaining == 0 {
                (
                    ticked.push(GuestTimer { active: false, remaining_frames: 0, ..t }),
                    due.push((t.callback, t.context)),
                )
            } else {
                (ticked.push(GuestTimer { remaining_frames: remaining, ..t }), due)
            }
        }
    }
}

impl GuestTimers {
    /// All slots idle.
    pub fn new() -> (res: Self)
        ensures
            res@ == Seq::new(MAX_TIMERS as nat, |i: int| spec_idle_timer()),
    {
        let mut slots: Vec<GuestTimer> = Vec::new();
        let mut i: usize = 0;
        while i < MAX_TIMERS
            invariant
                i <= MAX_TIMERS,
                slots@ == Seq::new(i as nat, |k: int| spec_idle_timer()),
            decreases MAX_TIMERS - i,
        {
            slots.push(GuestTimer { active: false, callback: 0, context: 0, remaining_frames: 0 });
            i = i + 1;
            assert(slots@ =~= Seq::new(i as nat, |k: int| spec_idle_timer()));
        }
        GuestTimers { slots }
    }

    /// The slots.
    pub fn slots(&self) -> (res: &[GuestTimer])
        ensures
            res@ == self@,
    {
        self.slots.as_slice()
    }

    /// Run timer service `index` (group 7).
    pub fn handle_timer_service(&mut self, index: u32, r0: u32, r1: u32, r2: u32, frame_count: u64) -> (res: u32)
        requires
            old(self)@.len() == MAX_TIMERS,
        ensures
            (res, final(self)@) == spec_timer_service(old(self)@, index, r0, r1, r2, frame_count),
            final(self)@.len() == MAX_TIMERS,
    {
        match index {
            0 => {
                if r1 == 0 {
                    return 0;
                }
                let frames = r0.saturating_add(TIMER_FRAME_MS - 1) / TIMER_FRAME_MS;
                let mut slot: usize = 0;
                while slot < self.slots.len() && self.slots[slot].active
                    invariant
                        slot <= self.slots@.len(),
                        self@ == old(self)@,
                        forall|j: int| 0 <= j < slot ==> self.slots@[j].active,
                    decreases self.slots@.len() - slot,
                {
                    slot = slot + 1;
                }
                if slot < self.slots.len() {
                    proof {
                        let s = self@;
                        assert(exists|i: int| 0 <= i < s.len() && !s[i].active);
                        let c = choose|i: int|
                            0 <= i < s.len() && !s[i].active && forall|j: int| 0 <= j < i ==> s[j].active;
                        assert(c == slot) by {
                            if c < slot {
                                assert(s[c].active);
                            } else if c > slot {
                                assert(s[slot as int].active);
                            }
                        }
                    }
                    self.slots.set(
                        slot,
                        GuestTimer {
                            active: true,
                            callback: r1,
                            context: r2,
                            remaining_frames: if frames > 1 {
                                frames
                            } else {
                                1
                            },
                        },
                    );
                    TIMER_BASE_ID + slot as u32
                } else {
                    0
                }
            },
            1 => {
                if r0 >= TIMER_BASE_ID && r0 - TIMER_BASE_ID < MAX_TIMERS as u32 {
                    let slot = (r0 - TIMER_BASE_ID) as usize;
                    let timer = self.slots[slot];
                    self.slots.set(slot, GuestTimer { active: false, ..timer });
                }
                0
            },
            2 => (frame_count.wrapping_mul(TIMER_FRAME_MS as u64) % 0x1_0000_0000) as u32,
            3 | 4 => EPOCH_SECONDS.wrapping_add(
                ((frame_count.wrapping_mul(TIMER_FRAME_MS as u64) / 1000) % 0x1_0000_0000) as u32,
            ),
            _ => 0,
        }
    }

    /// Let one frame pass; returns the (callback, context) pairs of the
    /// timers that fired, in slot order.
    pub fn tick(&mut self) -> (res: Vec<(u32, u32)>)
        ensures
            (final(self)@, res@) == spec_tick(old(self)@, old(self)@.len() as int),
    {
        let ghost before = self@;
        let mut due: Vec<(u32, u32)> = Vec::new();
        let mut i: usize = 0;
        while i < self.slots.len()
            invariant
                i <= self.slots@.len() == before.len(),
                forall|k: int| i <= k < before.len() ==> self@[k] == before[k],
                (self@.subrange(0, i as int), due@) == spec_tick(before, i as int),
            decreases self.slots@.len() - i,
        {
            let timer = self.slots[i];
            if timer.active {
                let remaining = if timer.remaining_frames > 0 {
                    timer.remaining_frames - 1
                } else {
                    0
                };
                if remaining == 0 {
                    self.slots.set(i, GuestTimer { active: false, remaining_frames: 0, ..timer });
                    due.push((timer.callback, timer.context));
                } else {
                    self.slots.set(i, GuestTimer { remaining_frames: remaining, ..timer });
                }
            }
            assert(self@.subrange(0, i + 1) =~= spec_tick(before, i + 1).0);
            i = i + 1;
        }
        assert(self@.subrange(0, before.len() as int) =~= self@);
        due
    }
}

} // verus!
