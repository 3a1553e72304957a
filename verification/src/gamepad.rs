//! Mapping of a physical gamepad onto the phone keys of the guest.
//!
//! Face buttons follow the RetroPad convention of the libretro core: south,
//! east and start confirm, north is the left soft key, west the right soft
//! key. Both sticks also act as a digital direction pad once past the dead
//! zone, and the shoulder buttons duplicate the soft keys. Reading the pad
//! and comparing stick positions with the dead zone is done by the
//! frontend, which hands over the held buttons and the stick tilts.
use vstd::prelude::*;

verus! {

/// Guest key code of the left soft key.
pub const GUEST_Q: u8 = 12;
/// Guest key code of the right soft key.
pub const GUEST_E: u8 = 13;
/// Guest key code of the confirm key.
pub const GUEST_OK: u8 = 14;
/// Guest key code of the left direction.
pub const GUEST_LEFT: u8 = 15;
/// Guest key code of the right direction.
pub const GUEST_RIGHT: u8 = 16;
/// Guest key code of the up direction.
pub const GUEST_UP: u8 = 17;
/// Guest key code of the down direction.
pub const GUEST_DOWN: u8 = 18;
/// Guest key code of the extra soft key.
pub const GUEST_N: u8 = 19;

/// A button of a physical pad, named by position.
#[derive(Debug, Clone, Copy, PartialEq, Eq, Structural)]
pub enum PadButton {
    South,
    East,
    North,
    West,
    LeftTrigger,
    LeftTrigger2,
    RightTrigger,
    RightTrigger2,
    Select,
    Start,
    DPadUp,
    DPadDown,
    DPadLeft,
    DPadRight,
    /// Any button the mapping ignores.
    Other,
}

/// Where a stick axis points once compared with the dead zone: past it
/// toward the negative end, inside it, or past it toward the positive end.
#[derive(Debug, Clone, Copy, PartialEq, Eq, Structural)]
pub enum StickTilt {
    Negative,
    Centered,
    Positive,
}

/// The tilts of both sticks of a pad; the vertical axes point up when
/// positive.
#[derive(Debug, Clone, Copy, PartialEq, Eq, Structural)]
pub struct StickTilts {
    pub left_x: StickTilt,
    pub left_y: StickTilt,
    pub right_x: StickTilt,
    pub right_y: StickTilt,
}

/// `seq![key]` when `held`, else nothing.
pub open spec fn spec_key_if(held: bool, key: u8) -> Seq<u8> {
    if held {
        seq![key]
    } else {
        seq![]
    }
}

/// The guest keys held on a pad, in the order up, down, left, right,
/// confirm, left soft key, right soft key, extra key.
pub open spec fn spec_guest_keys(pressed: Seq<PadButton>, sticks: StickTilts) -> Seq<u8> {
    spec_key_if(
        pressed.contains(PadButton::DPadUp) || sticks.left_y == StickTilt::Positive
            || sticks.right_y == StickTilt::Positive,
        GUEST_UP,
    ) + spec_key_if(
        pressed.contains(PadButton::DPadDown) || sticks.left_y == StickTilt::Negative
            || sticks.right_y == StickTilt::Negative,
        GUEST_DOWN,
    ) + spec_key_if(
        pressed.contains(PadButton::DPadLeft) || sticks.left_x == StickTilt::Negative
            || sticks.right_x == StickTilt::Negative,
        GUEST_LEFT,
    ) + spec_key_if(
        pressed.contains(PadButton::DPadRight) || sticks.left_x == StickTilt::Positive
            || sticks.right_x == StickTilt::Positive,
        GUEST_RIGHT,
    ) + spec_key_if(
        pressed.contains(PadButton::South) || pressed.contains(PadButton::East) || pressed.contains(
            PadButton::Start,
        ),
        GUEST_OK,
    ) + spec_key_if(
        pressed.contains(PadButton::North) || pressed.contains(PadButton::LeftTrigger)
            || pressed.contains(PadButton::LeftTrigger2),
        GUEST_Q,
    ) + spec_key_if(
        pressed.contains(PadButton::West) || pressed.contains(PadButton::RightTrigger)
            || pressed.contains(PadButton::RightTrigger2),
        GUEST_E,
    ) + spec_key_if(pressed.contains(PadButton::Select), GUEST_N)
}

/// Whether `button` is among the held buttons.
fn is_pressed(pressed: &[PadButton], button: PadButton) -> (res: bool)
    ensures
        res == pressed@.contains(button),
{
    let mut i: usize = 0;
    while i < pressed.len()
        invariant
            i <= pressed@.len(),
            forall|j: int| 0 <= j < i ==> pressed@[j] != button,
        decreases pressed@.len() - i,
    {
        if pressed[i] == button {
            return true;
        }
        i = i + 1;
    }
    false
}

/// Append `key` when `held`.
fn push_if(keys: &mut Vec<u8>, held: bool, key: u8)
    ensures
        final(keys)@ == old(keys)@ + spec_key_if(held, key),
{
    if held {
        keys.push(key);
    }
    assert(final(keys)@ =~= old(keys)@ + spec_key_if(held, key));
}

/// The guest keys held on a pad with the given buttons held and sticks
/// tilted.
pub fn map_guest_keys(pressed: &[PadButton], sticks: StickTilts) -> (res: Vec<u8>)
    ensures
        res@ == spec_guest_keys(pressed@, sticks),
{
    let mut keys: Vec<u8> = Vec::new();
    assert(keys@ =~= Seq::<u8>::empty());
    push_if(
        &mut keys,
        is_pressed(pressed, PadButton::DPadUp) || sticks.left_y == StickTilt::Positive
            || sticks.right_y == StickTilt::Positive,
        GUEST_UP,
    );
    push_if(
        &mut keys,
        is_pressed(pressed, PadButton::DPadDown) || sticks.left_y == StickTilt::Negative
            || sticks.right_y == StickTilt::Negative,
        GUEST_DOWN,
    );
    push_if(
        &mut keys,
        is_pressed(pressed, PadButton::DPadLeft) || sticks.left_x == StickTilt::Negative
            || sticks.right_x == StickTilt::Negative,
        GUEST_LEFT,
    );
    push_if(
        &mut keys,
        is_pressed(pressed, PadButton::DPadRight) || sticks.left_x == StickTilt::Positive
            || sticks.right_x == StickTilt::Positive,
        GUEST_RIGHT,
    );
    // South, east and start all confirm, matching the libretro core.
    push_if(
        &mut keys,
        is_pressed(pressed, PadButton::South) || is_pressed(pressed, PadButton::East)
            || is_pressed(pressed, PadButton::Start),
        GUEST_OK,
    );
    // North and the left shoulders duplicate the left soft key.
    push_if(
        &mut keys,
        is_pressed(pressed, PadButton::North) || is_pressed(pressed, PadButton::LeftTrigger)
            || is_pressed(pressed, PadButton::LeftTrigger2),
        GUEST_Q,
    );
    // West and the right shoulders duplicate the right soft key.
    push_if(
        &mut keys,
        is_pressed(pressed, PadButton::West) || is_pressed(pressed, PadButton::RightTrigger)
            || is_pressed(pressed, PadButton::RightTrigger2),
        GUEST_E,
    );
    push_if(&mut keys, is_pressed(pressed, PadButton::Select), GUEST_N);
    assert(keys@ =~= spec_guest_keys(pressed@, sticks));
    keys
}

/// Rank of a guest key in the reporting order.
spec fn spec_rank(key: u8) -> int {
    if key == GUEST_UP {
        0
    } else if key == GUEST_DOWN {
        1
    } else if key == GUEST_LEFT {
        2
    } else if key == GUEST_RIGHT {
        3
    } else if key == GUEST_OK {
        4
    } else if key == GUEST_Q {
        5
    } else if key == GUEST_E {
        6
    } else {
        7
    }
}

/// The ranks of the keys strictly increase along the sequence.
spec fn spec_ranks_increase(keys: Seq<u8>) -> bool {
    forall|i: int, j: int| 0 <= i < j < keys.len() ==> spec_rank(keys[i]) < spec_rank(keys[j])
}

/// Appending a key of a rank above all others keeps the ranks increasing.
proof fn lemma_append_rank(keys: Seq<u8>, held: bool, key: u8)
    requires
        spec_ranks_increase(keys),
        forall|i: int| 0 <= i < keys.len() ==> spec_rank(keys[i]) < spec_rank(key),
    ensures
        spec_ranks_increase(keys + spec_key_if(held, key)),
        forall|i: int|
            0 <= i < (keys + spec_key_if(held, key)).len() ==> spec_rank(
                (keys + spec_key_if(held, key))[i],
            ) <= spec_rank(key),
{
    let all = keys + spec_key_if(held, key);
    assert forall|i: int, j: int| 0 <= i < j < all.len() implies spec_rank(all[i]) < spec_rank(
        all[j],
    ) by {
        if j < keys.len() {
            assert(all[i] == keys[i] && all[j] == keys[j]);
        } else {
            assert(all[i] == keys[i]);
            assert(all[j] == key);
        }
    }
    assert forall|i: int| 0 <= i < all.len() implies spec_rank(all[i]) <= spec_rank(key) by {
        if i < keys.len() {
            assert(all[i] == keys[i]);
        } else {
            assert(all[i] == key);
        }
    }
}

/// Two reported keys at different positions differ: their ranks differ.
proof fn lemma_key_order(pressed: Seq<PadButton>, sticks: StickTilts, i: int, j: int)
    requires
        0 <= i < j < spec_guest_keys(pressed, sticks).len(),
    ensures
        spec_guest_keys(pressed, sticks)[i] != spec_guest_keys(pressed, sticks)[j],
{
    let b = pressed;
    let s0 = spec_key_if(
        b.contains(PadButton::DPadUp) || sticks.left_y == StickTilt::Positive
            || sticks.right_y == StickTilt::Positive,
        GUEST_UP,
    );
    let s1 = s0 + spec_key_if(
        b.contains(PadButton::DPadDown) || sticks.left_y == StickTilt::Negative
            || sticks.right_y == StickTilt::Negative,
        GUEST_DOWN,
    );
    let s2 = s1 + spec_key_if(
        b.contains(PadButton::DPadLeft) || sticks.left_x == StickTilt::Negative
            || sticks.right_x == StickTilt::Negative,
        GUEST_LEFT,
    );
    let s3 = s2 + spec_key_if(
        b.contains(PadButton::DPadRight) || sticks.left_x == StickTilt::Positive
            || sticks.right_x == StickTilt::Positive,
        GUEST_RIGHT,
    );
    let s4 = s3 + spec_key_if(
        b.contains(PadButton::South) || b.contains(PadButton::East) || b.contains(PadButton::Start),
        GUEST_OK,
    );
    let s5 = s4 + spec_key_if(
        b.contains(PadButton::North) || b.contains(PadButton::LeftTrigger) || b.contains(
            PadButton::LeftTrigger2,
        ),
        GUEST_Q,
    );
    let s6 = s5 + spec_key_if(
        b.contains(PadButton::West) || b.contains(PadButton::RightTrigger) || b.contains(
            PadButton::RightTrigger2,
        ),
        GUEST_E,
    );
    lemma_append_rank(Seq::empty(), b.contains(PadButton::DPadUp) || sticks.left_y
        == StickTilt::Positive || sticks.right_y == StickTilt::Positive, GUEST_UP);
    assert(Seq::<u8>::empty() + s0 == s0);
    lemma_append_rank(s0, b.contains(PadButton::DPadDown) || sticks.left_y == StickTilt::Negative
        || sticks.right_y == StickTilt::Negative, GUEST_DOWN);
    lemma_append_rank(s1, b.contains(PadButton::DPadLeft) || sticks.left_x == StickTilt::Negative
        || sticks.right_x == StickTilt::Negative, GUEST_LEFT);
    lemma_append_rank(s2, b.contains(PadButton::DPadRight) || sticks.left_x == StickTilt::Positive
        || sticks.right_x == StickTilt::Positive, GUEST_RIGHT);
    lemma_append_rank(s3, b.contains(PadButton::South) || b.contains(PadButton::East)
        || b.contains(PadButton::Start), GUEST_OK);
    lemma_append_rank(s4, b.contains(PadButton::North) || b.contains(PadButton::LeftTrigger)
        || b.contains(PadButton::LeftTrigger2), GUEST_Q);
    lemma_append_rank(s5, b.contains(PadButton::West) || b.contains(PadButton::RightTrigger)
        || b.contains(PadButton::RightTrigger2), GUEST_E);
    lemma_append_rank(s6, b.contains(PadButton::Select), GUEST_N);
    assert(spec_guest_keys(pressed, sticks) == s6 + spec_key_if(b.contains(PadButton::Select), GUEST_N));
}

/// Every reported key is reported once, and an idle pad reports none.
pub proof fn lemma_guest_keys_are_distinct(pressed: Seq<PadButton>, sticks: StickTilts)
    ensures
        spec_guest_keys(pressed, sticks).no_duplicates(),
        spec_guest_keys(pressed, sticks).len() <= 8,
        pressed.len() == 0 && sticks == (StickTilts {
            left_x: StickTilt::Centered,
            left_y: StickTilt::Centered,
            right_x: StickTilt::Centered,
            right_y: StickTilt::Centered,
        }) ==> spec_guest_keys(pressed, sticks).len() == 0,
{
    let keys = spec_guest_keys(pressed, sticks);
    assert forall|i: int, j: int| 0 <= i < j < keys.len() implies keys[i] != keys[j] by {
        lemma_key_order(pressed, sticks, i, j);
    }
}

/// The dead zone of a stick axis, in thousandths of full tilt: an axis
/// counts as tilted only beyond it.
pub const STICK_DEADZONE: i32 = 500;

/// The tilt of a stick axis read in thousandths of full tilt (positive up
/// or right): past the dead zone either way, or centered.
pub open spec fn spec_stick_tilt(value: i32) -> StickTilt {
    if value > STICK_DEADZONE {
        StickTilt::Positive
    } else if value < -STICK_DEADZONE {
        StickTilt::Negative
    } else {
        StickTilt::Centered
    }
}

/// Classify a stick axis against the dead zone (see `spec_stick_tilt`).
pub fn stick_tilt(value: i32) -> (res: StickTilt)
    ensures
        res == spec_stick_tilt(value),
{
    if value > STICK_DEADZONE {
        StickTilt::Positive
    } else if value < -STICK_DEADZONE {
        StickTilt::Negative
    } else {
        StickTilt::Centered
    }
}

} // verus!
