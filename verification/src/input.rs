//! Keyboard mapping of the standalone frontend: guest key names, host key
//! names, remapping specifications ("GUEST_KEY:KEY") and the table from
//! guest keys to the host keys that press them.
use vstd::prelude::*;

use crate::text::{ascii_lower, chars_equal_str, chars_of, spec_trim, trim_chars};

verus! {

/// A host keyboard key the standalone frontend can map.
#[derive(Debug, Clone, Copy, PartialEq, Eq, Structural)]
pub enum HostKey {
    A,
    B,
    C,
    D,
    E,
    F,
    G,
    H,
    I,
    J,
    K,
    L,
    M,
    N,
    O,
    P,
    Q,
    R,
    S,
    T,
    U,
    V,
    W,
    X,
    Y,
    Z,
    Key0,
    Key1,
    Key2,
    Key3,
    Key4,
    Key5,
    Key6,
    Key7,
    Key8,
    Key9,
    F1,
    F2,
    F3,
    F4,
    F5,
    F6,
    F7,
    F8,
    F9,
    F10,
    F11,
    F12,
    Up,
    Down,
    Left,
    Right,
    Space,
    Enter,
    Backspace,
    Tab,
    Delete,
    Home,
    End,
    PageUp,
    PageDown,
    LeftShift,
    RightShift,
    LeftCtrl,
    RightCtrl,
    LeftAlt,
    RightAlt,
}

/// The key named by a lowercase name.
pub open spec fn spec_key_by_name(n: Seq<char>) -> Option<HostKey> {
    if n == "a"@ {
        Some(HostKey::A)
    } else if n == "b"@ {
        Some(HostKey::B)
    } else if n == "c"@ {
        Some(HostKey::C)
    } else if n == "d"@ {
        Some(HostKey::D)
    } else if n == "e"@ {
        Some(HostKey::E)
    } else if n == "f"@ {
        Some(HostKey::F)
    } else if n == "g"@ {
        Some(HostKey::G)
    } else if n == "h"@ {
        Some(HostKey::H)
    } else if n == "i"@ {
        Some(HostKey::I)
    } else if n == "j"@ {
        Some(HostKey::J)
    } else if n == "k"@ {
        Some(HostKey::K)
    } else if n == "l"@ {
        Some(HostKey::L)
    } else if n == "m"@ {
        Some(HostKey::M)
    } else if n == "n"@ {
        Some(HostKey::N)
    } else if n == "o"@ {
        Some(HostKey::O)
    } else if n == "p"@ {
        Some(HostKey::P)
    } else if n == "q"@ {
        Some(HostKey::Q)
    } else if n == "r"@ {
        Some(HostKey::R)
    } else if n == "s"@ {
        Some(HostKey::S)
    } else if n == "t"@ {
        Some(HostKey::T)
    } else if n == "u"@ {
        Some(HostKey::U)
    } else if n == "v"@ {
        Some(HostKey::V)
    } else if n == "w"@ {
        Some(HostKey::W)
    } else if n == "x"@ {
        Some(HostKey::X)
    } else if n == "y"@ {
        Some(HostKey::Y)
    } else if n == "z"@ {
        Some(HostKey::Z)
    } else if n == "0"@ {
        Some(HostKey::Key0)
    } else if n == "1"@ {
        Some(HostKey::Key1)
    } else if n == "2"@ {
        Some(HostKey::Key2)
    } else if n == "3"@ {
        Some(HostKey::Key3)
    } else if n == "4"@ {
        Some(HostKey::Key4)
    } else if n == "5"@ {
        Some(HostKey::Key5)
    } else if n == "6"@ {
        Some(HostKey::Key6)
    } else if n == "7"@ {
        Some(HostKey::Key7)
    } else if n == "8"@ {
        Some(HostKey::Key8)
    } else if n == "9"@ {
        Some(HostKey::Key9)
    } else if n == "f1"@ {
        Some(HostKey::F1)
    } else if n == "f2"@ {
        Some(HostKey::F2)
    } else if n == "f3"@ {
        Some(HostKey::F3)
    } else if n == "f4"@ {
        Some(HostKey::F4)
    } else if n == "f5"@ {
        Some(HostKey::F5)
    } else if n == "f6"@ {
        Some(HostKey::F6)
    } else if n == "f7"@ {
        Some(HostKey::F7)
    } else if n == "f8"@ {
        Some(HostKey::F8)
    } else if n == "f9"@ {
        Some(HostKey::F9)
    } else if n == "f10"@ {
        Some(HostKey::F10)
    } else if n == "f11"@ {
        Some(HostKey::F11)
    } else if n == "f12"@ {
        Some(HostKey::F12)
    } else if n == "up"@ {
        Some(HostKey::Up)
    } else if n == "down"@ {
        Some(HostKey::Down)
    } else if n == "left"@ {
        Some(HostKey::Left)
    } else if n == "right"@ {
        Some(HostKey::Right)
    } else if n == "space"@ {
        Some(HostKey::Space)
    } else if n == "enter"@ {
        Some(HostKey::Enter)
    } else if n == "return"@ {
        Some(HostKey::Enter)
    } else if n == "backspace"@ {
        Some(HostKey::Backspace)
    } else if n == "tab"@ {
        Some(HostKey::Tab)
    } else if n == "delete"@ {
        Some(HostKey::Delete)
    } else if n == "home"@ {
        Some(HostKey::Home)
    } else if n == "end"@ {
        Some(HostKey::End)
    } else if n == "pageup"@ {
        Some(HostKey::PageUp)
    } else if n == "pagedown"@ {
        Some(HostKey::PageDown)
    } else if n == "leftshift"@ {
        Some(HostKey::LeftShift)
    } else if n == "rightshift"@ {
        Some(HostKey::RightShift)
    } else if n == "leftctrl"@ {
        Some(HostKey::LeftCtrl)
    } else if n == "rightctrl"@ {
        Some(HostKey::RightCtrl)
    } else if n == "leftalt"@ {
        Some(HostKey::LeftAlt)
    } else if n == "rightalt"@ {
        Some(HostKey::RightAlt)
    } else {
        None
    }
}

fn key_by_name(n: &[char]) -> (res: Option<HostKey>)
    ensures
        res == spec_key_by_name(n@),
{
    if chars_equal_str(n, "a") {
        Some(HostKey::A)
    } else if chars_equal_str(n, "b") {
        Some(HostKey::B)
    } else if chars_equal_str(n, "c") {
        Some(HostKey::C)
    } else if chars_equal_str(n, "d") {
        Some(HostKey::D)
    } else if chars_equal_str(n, "e") {
        Some(HostKey::E)
    } else if chars_equal_str(n, "f") {
        Some(HostKey::F)
    } else if chars_equal_str(n, "g") {
        Some(HostKey::G)
    } else if chars_equal_str(n, "h") {
        Some(HostKey::H)
    } else if chars_equal_str(n, "i") {
        Some(HostKey::I)
    } else if chars_equal_str(n, "j") {
        Some(HostKey::J)
    } else if chars_equal_str(n, "k") {
        Some(HostKey::K)
    } else if chars_equal_str(n, "l") {
        Some(HostKey::L)
    } else if chars_equal_str(n, "m") {
        Some(HostKey::M)
    } else if chars_equal_str(n, "n") {
        Some(HostKey::N)
    } else if chars_equal_str(n, "o") {
        Some(HostKey::O)
    } else if chars_equal_str(n, "p") {
        Some(HostKey::P)
    } else if chars_equal_str(n, "q") {
        Some(HostKey::Q)
    } else if chars_equal_str(n, "r") {
        Some(HostKey::R)
    } else if chars_equal_str(n, "s") {
        Some(HostKey::S)
    } else if chars_equal_str(n, "t") {
        Some(HostKey::T)
    } else if chars_equal_str(n, "u") {
        Some(HostKey::U)
    } else if chars_equal_str(n, "v") {
        Some(HostKey::V)
    } else if chars_equal_str(n, "w") {
        Some(HostKey::W)
    } else if chars_equal_str(n, "x") {
        Some(HostKey::X)
    } else if chars_equal_str(n, "y") {
        Some(HostKey::Y)
    } else if chars_equal_str(n, "z") {
        Some(HostKey::Z)
    } else if chars_equal_str(n, "0") {
        Some(HostKey::Key0)
    } else if chars_equal_str(n, "1") {
        Some(HostKey::Key1)
    } else if chars_equal_str(n, "2") {
        Some(HostKey::Key2)
    } else if chars_equal_str(n, "3") {
        Some(HostKey::Key3)
    } else if chars_equal_str(n, "4") {
        Some(HostKey::Key4)
    } else if chars_equal_str(n, "5") {
        Some(HostKey::Key5)
    } else if chars_equal_str(n, "6") {
        Some(HostKey::Key6)
    } else if chars_equal_str(n, "7") {
        Some(HostKey::Key7)
    } else if chars_equal_str(n, "8") {
        Some(HostKey::Key8)
    } else if chars_equal_str(n, "9") {
        Some(HostKey::Key9)
    } else if chars_equal_str(n, "f1") {
        Some(HostKey::F1)
    } else if chars_equal_str(n, "f2") {
        Some(HostKey::F2)
    } else if chars_equal_str(n, "f3") {
        Some(HostKey::F3)
    } else if chars_equal_str(n, "f4") {
        Some(HostKey::F4)
    } else if chars_equal_str(n, "f5") {
        Some(HostKey::F5)
    } else if chars_equal_str(n, "f6") {
        Some(HostKey::F6)
    } else if chars_equal_str(n, "f7") {
        Some(HostKey::F7)
    } else if chars_equal_str(n, "f8") {
        Some(HostKey::F8)
    } else if chars_equal_str(n, "f9") {
        Some(HostKey::F9)
    } else if chars_equal_str(n, "f10") {
        Some(HostKey::F10)
    } else if chars_equal_str(n, "f11") {
        Some(HostKey::F11)
    } else if chars_equal_str(n, "f12") {
        Some(HostKey::F12)
    } else if chars_equal_str(n, "up") {
        Some(HostKey::Up)
    } else if chars_equal_str(n, "down") {
        Some(HostKey::Down)
    } else if chars_equal_str(n, "left") {
        Some(HostKey::Left)
    } else if chars_equal_str(n, "right") {
        Some(HostKey::Right)
    } else if chars_equal_str(n, "space") {
        Some(HostKey::Space)
    } else if chars_equal_str(n, "enter") {
        Some(HostKey::Enter)
    } else if chars_equal_str(n, "return") {
        Some(HostKey::Enter)
    } else if chars_equal_str(n, "backspace") {
        Some(HostKey::Backspace)
    } else if chars_equal_str(n, "tab") {
        Some(HostKey::Tab)
    } else if chars_equal_str(n, "delete") {
        Some(HostKey::Delete)
    } else if chars_equal_str(n, "home") {
        Some(HostKey::Home)
    } else if chars_equal_str(n, "end") {
        Some(HostKey::End)
    } else if chars_equal_str(n, "pageup") {
        Some(HostKey::PageUp)
    } else if chars_equal_str(n, "pagedown") {
        Some(HostKey::PageDown)
    } else if chars_equal_str(n, "leftshift") {
        Some(HostKey::LeftShift)
    } else if chars_equal_str(n, "rightshift") {
        Some(HostKey::RightShift)
    } else if chars_equal_str(n, "leftctrl") {
        Some(HostKey::LeftCtrl)
    } else if chars_equal_str(n, "rightctrl") {
        Some(HostKey::RightCtrl)
    } else if chars_equal_str(n, "leftalt") {
        Some(HostKey::LeftAlt)
    } else if chars_equal_str(n, "rightalt") {
        Some(HostKey::RightAlt)
    } else {
        None
    }
}

/// The name shown for a key ("?" for keys without one).
pub open spec fn spec_key_name(key: HostKey) -> Seq<char> {
    match key {
        HostKey::A => "a"@,
        HostKey::B => "b"@,
        HostKey::C => "c"@,
        HostKey::D => "d"@,
        HostKey::E => "e"@,
        HostKey::F => "f"@,
        HostKey::G => "g"@,
        HostKey::H => "h"@,
        HostKey::I => "i"@,
        HostKey::J => "j"@,
        HostKey::K => "k"@,
        HostKey::L => "l"@,
        HostKey::M => "m"@,
        HostKey::N => "n"@,
        HostKey::O => "o"@,
        HostKey::P => "p"@,
        HostKey::Q => "q"@,
        HostKey::R => "r"@,
        HostKey::S => "s"@,
        HostKey::T => "t"@,
        HostKey::U => "u"@,
        HostKey::V => "v"@,
        HostKey::W => "w"@,
        HostKey::X => "x"@,
        HostKey::Y => "y"@,
        HostKey::Z => "z"@,
        HostKey::Key0 => "0"@,
        HostKey::Key1 => "1"@,
        HostKey::Key2 => "2"@,
        HostKey::Key3 => "3"@,
        HostKey::Key4 => "4"@,
        HostKey::Key5 => "5"@,
        HostKey::Key6 => "6"@,
        HostKey::Key7 => "7"@,
        HostKey::Key8 => "8"@,
        HostKey::Key9 => "9"@,
        HostKey::F1 => "?"@,
        HostKey::F2 => "?"@,
        HostKey::F3 => "?"@,
        HostKey::F4 => "?"@,
        HostKey::F5 => "?"@,
        HostKey::F6 => "?"@,
        HostKey::F7 => "?"@,
        HostKey::F8 => "?"@,
        HostKey::F9 => "?"@,
        HostKey::F10 => "?"@,
        HostKey::F11 => "?"@,
        HostKey::F12 => "?"@,
        HostKey::Up => "up"@,
        HostKey::Down => "down"@,
        HostKey::Left => "left"@,
        HostKey::Right => "right"@,
        HostKey::Space => "space"@,
        HostKey::Enter => "enter"@,
        HostKey::Backspace => "backspace"@,
        HostKey::Tab => "tab"@,
        HostKey::Delete => "delete"@,
        HostKey::Home => "home"@,
        HostKey::End => "end"@,
        HostKey::PageUp => "pageup"@,
        HostKey::PageDown => "pagedown"@,
        HostKey::LeftShift => "leftshift"@,
        HostKey::RightShift => "rightshift"@,
        HostKey::LeftCtrl => "leftctrl"@,
        HostKey::RightCtrl => "rightctrl"@,
        HostKey::LeftAlt => "leftalt"@,
        HostKey::RightAlt => "rightalt"@,
    }
}

/// The name shown for a key ("?" for keys without one).
pub fn key_name(key: HostKey) -> (res: &'static str)
    ensures
        res@ == spec_key_name(key),
{
    match key {
        HostKey::A => "a",
        HostKey::B => "b",
        HostKey::C => "c",
        HostKey::D => "d",
        HostKey::E => "e",
        HostKey::F => "f",
        HostKey::G => "g",
        HostKey::H => "h",
        HostKey::I => "i",
        HostKey::J => "j",
        HostKey::K => "k",
        HostKey::L => "l",
        HostKey::M => "m",
        HostKey::N => "n",
        HostKey::O => "o",
        HostKey::P => "p",
        HostKey::Q => "q",
        HostKey::R => "r",
        HostKey::S => "s",
        HostKey::T => "t",
        HostKey::U => "u",
        HostKey::V => "v",
        HostKey::W => "w",
        HostKey::X => "x",
        HostKey::Y => "y",
        HostKey::Z => "z",
        HostKey::Key0 => "0",
        HostKey::Key1 => "1",
        HostKey::Key2 => "2",
        HostKey::Key3 => "3",
        HostKey::Key4 => "4",
        HostKey::Key5 => "5",
        HostKey::Key6 => "6",
        HostKey::Key7 => "7",
        HostKey::Key8 => "8",
        HostKey::Key9 => "9",
        HostKey::F1 => "?",
        HostKey::F2 => "?",
        HostKey::F3 => "?",
        HostKey::F4 => "?",
        HostKey::F5 => "?",
        HostKey::F6 => "?",
        HostKey::F7 => "?",
        HostKey::F8 => "?",
        HostKey::F9 => "?",
        HostKey::F10 => "?",
        HostKey::F11 => "?",
        HostKey::F12 => "?",
        HostKey::Up => "up",
        HostKey::Down => "down",
        HostKey::Left => "left",
        HostKey::Right => "right",
        HostKey::Space => "space",
        HostKey::Enter => "enter",
        HostKey::Backspace => "backspace",
        HostKey::Tab => "tab",
        HostKey::Delete => "delete",
        HostKey::Home => "home",
        HostKey::End => "end",
        HostKey::PageUp => "pageup",
        HostKey::PageDown => "pagedown",
        HostKey::LeftShift => "leftshift",
        HostKey::RightShift => "rightshift",
        HostKey::LeftCtrl => "leftctrl",
        HostKey::RightCtrl => "rightctrl",
        HostKey::LeftAlt => "leftalt",
        HostKey::RightAlt => "rightalt",
    }
}


/// Why a guest key name was refused.
#[derive(Debug, Clone, Copy, PartialEq, Eq, Structural)]
pub enum GuestKeyError {
    /// Not one of 0-9, q, e, enter, left, right, up, down, n, m.
    Unknown,
}

/// Why a host key name was refused.
#[derive(Debug, Clone, Copy, PartialEq, Eq, Structural)]
pub enum KeyError {
    /// Escape exits the standalone emulator and cannot be mapped.
    Reserved,
    /// No key has this name.
    Unknown,
}

/// Why a remapping specification was refused.
#[derive(Debug, Clone, Copy, PartialEq, Eq, Structural)]
pub enum RemapError {
    /// No ':' separates the guest key from the host key.
    MissingSeparator,
    /// The guest key name is unknown.
    GuestKey(GuestKeyError),
    /// The host key name is refused.
    Key(KeyError),
}

/// ASCII letters lowercased, other characters kept.
pub open spec fn spec_ascii_lowercase(s: Seq<char>) -> Seq<char> {
    s.map_values(|c: char| ascii_lower(c))
}

/// ASCII letters lowercased (`str::to_ascii_lowercase`).
pub fn ascii_lowercase(s: &[char]) -> (res: Vec<char>)
    ensures
        res@ == spec_ascii_lowercase(s@),
{
    let mut out: Vec<char> = Vec::new();
    let mut i: usize = 0;
    while i < s.len()
        invariant
            i <= s@.len(),
            out@ =~= spec_ascii_lowercase(s@.subrange(0, i as int)),
        decreases s@.len() - i,
    {
        let c = s[i];
        let lower = if 'A' <= c && c <= 'Z' {
            ((c as u8) + 32) as char
        } else {
            c
        };
        out.push(lower);
        i = i + 1;
    }
    assert(s@.subrange(0, s@.len() as int) =~= s@);
    out
}

/// The guest key code named by a lowercase name.
pub open spec fn spec_guest_key_by_name(n: Seq<char>) -> Option<u8> {
    if n == "0"@ {
        Some(0u8)
    } else if n == "1"@ {
        Some(1u8)
    } else if n == "2"@ {
        Some(2u8)
    } else if n == "3"@ {
        Some(3u8)
    } else if n == "4"@ {
        Some(4u8)
    } else if n == "5"@ {
        Some(5u8)
    } else if n == "6"@ {
        Some(6u8)
    } else if n == "7"@ {
        Some(7u8)
    } else if n == "8"@ {
        Some(8u8)
    } else if n == "9"@ {
        Some(9u8)
    } else if n == "q"@ {
        Some(12u8)
    } else if n == "e"@ {
        Some(13u8)
    } else if n == "enter"@ {
        Some(14u8)
    } else if n == "left"@ {
        Some(15u8)
    } else if n == "right"@ {
        Some(16u8)
    } else if n == "up"@ {
        Some(17u8)
    } else if n == "down"@ {
        Some(18u8)
    } else if n == "n"@ {
        Some(19u8)
    } else if n == "m"@ {
        Some(20u8)
    } else {
        None
    }
}

/// Parse a guest key name, ignoring ASCII case.
pub fn parse_guest_key(name: &str) -> (res: Result<u8, GuestKeyError>)
    ensures
        match spec_guest_key_by_name(spec_ascii_lowercase(name@)) {
            Some(k) => res == Ok::<u8, GuestKeyError>(k),
            None => res == Err::<u8, GuestKeyError>(GuestKeyError::Unknown),
        },
{
    let chars = chars_of(name);
    let n = ascii_lowercase(chars.as_slice());
    let n = n.as_slice();
    if chars_equal_str(n, "0") {
        Ok(0)
    } else if chars_equal_str(n, "1") {
        Ok(1)
    } else if chars_equal_str(n, "2") {
        Ok(2)
    } else if chars_equal_str(n, "3") {
        Ok(3)
    } else if chars_equal_str(n, "4") {
        Ok(4)
    } else if chars_equal_str(n, "5") {
        Ok(5)
    } else if chars_equal_str(n, "6") {
        Ok(6)
    } else if chars_equal_str(n, "7") {
        Ok(7)
    } else if chars_equal_str(n, "8") {
        Ok(8)
    } else if chars_equal_str(n, "9") {
        Ok(9)
    } else if chars_equal_str(n, "q") {
        Ok(12)
    } else if chars_equal_str(n, "e") {
        Ok(13)
    } else if chars_equal_str(n, "enter") {
        Ok(14)
    } else if chars_equal_str(n, "left") {
        Ok(15)
    } else if chars_equal_str(n, "right") {
        Ok(16)
    } else if chars_equal_str(n, "up") {
        Ok(17)
    } else if chars_equal_str(n, "down") {
        Ok(18)
    } else if chars_equal_str(n, "n") {
        Ok(19)
    } else if chars_equal_str(n, "m") {
        Ok(20)
    } else {
        Err(GuestKeyError::Unknown)
    }
}

/// The name of a guest key code ("?" for codes without one).
pub open spec fn spec_guest_key_name(guest_key: u8) -> Seq<char> {
    if guest_key == 0 {
        "0"@
    } else if guest_key == 1 {
        "1"@
    } else if guest_key == 2 {
        "2"@
    } else if guest_key == 3 {
        "3"@
    } else if guest_key == 4 {
        "4"@
    } else if guest_key == 5 {
        "5"@
    } else if guest_key == 6 {
        "6"@
    } else if guest_key == 7 {
        "7"@
    } else if guest_key == 8 {
        "8"@
    } else if guest_key == 9 {
        "9"@
    } else if guest_key == 12 {
        "q"@
    } else if guest_key == 13 {
        "e"@
    } else if guest_key == 14 {
        "enter"@
    } else if guest_key == 15 {
        "left"@
    } else if guest_key == 16 {
        "right"@
    } else if guest_key == 17 {
        "up"@
    } else if guest_key == 18 {
        "down"@
    } else if guest_key == 19 {
        "n"@
    } else if guest_key == 20 {
        "m"@
    } else {
        "?"@
    }
}

/// The name of a guest key code ("?" for codes without one).
pub fn guest_key_name(guest_key: u8) -> (res: &'static str)
    ensures
        res@ == spec_guest_key_name(guest_key),
{
    match guest_key {
        0 => "0",
        1 => "1",
        2 => "2",
        3 => "3",
        4 => "4",
        5 => "5",
        6 => "6",
        7 => "7",
        8 => "8",
        9 => "9",
        12 => "q",
        13 => "e",
        14 => "enter",
        15 => "left",
        16 => "right",
        17 => "up",
        18 => "down",
        19 => "n",
        20 => "m",
        _ => "?",
    }
}

/// A host key name read case-insensitively; escape (or esc) is reserved.
pub open spec fn spec_parse_key(name: Seq<char>) -> Result<HostKey, KeyError> {
    let n = spec_ascii_lowercase(name);
    if n == "escape"@ || n == "esc"@ {
        Err(KeyError::Reserved)
    } else {
        match spec_key_by_name(n) {
            Some(k) => Ok(k),
            None => Err(KeyError::Unknown),
        }
    }
}

/// Parse a host key name, ignoring ASCII case.
pub fn parse_key(name: &str) -> (res: Result<HostKey, KeyError>)
    ensures
        res == spec_parse_key(name@),
{
    let chars = chars_of(name);
    let n = ascii_lowercase(chars.as_slice());
    if chars_equal_str(n.as_slice(), "escape") || chars_equal_str(n.as_slice(), "esc") {
        return Err(KeyError::Reserved);
    }
    match key_by_name(n.as_slice()) {
        Some(k) => Ok(k),
        None => Err(KeyError::Unknown),
    }
}

/// A remapping of one guest key onto one host key.
#[derive(Debug, Clone, Copy, PartialEq, Eq, Structural)]
pub struct RemapSpec {
    pub guest_key: u8,
    pub key: HostKey,
}

/// Position of the first ':'.
pub open spec fn spec_first_colon(s: Seq<char>) -> Option<int> {
    if exists|i: int| 0 <= i < s.len() && s[i] == ':' {
        Some(choose|i: int| 0 <= i < s.len() && s[i] == ':' && forall|j: int| 0 <= j < i ==> s[j] != ':')
    } else {
        None
    }
}

/// A remapping read from "GUEST_KEY:KEY": the text is split at the first
/// ':' and both names are trimmed.
pub open spec fn spec_parse_remap(value: Seq<char>) -> Result<RemapSpec, RemapError> {
    match spec_first_colon(value) {
        None => Err(RemapError::MissingSeparator),
        Some(p) => match spec_guest_key_by_name(spec_ascii_lowercase(spec_trim(value.subrange(0, p)))) {
            None => Err(RemapError::GuestKey(GuestKeyError::Unknown)),
            Some(guest_key) => match spec_parse_key(spec_trim(value.subrange(p + 1, value.len() as int))) {
                Err(e) => Err(RemapError::Key(e)),
                Ok(key) => Ok(RemapSpec { guest_key, key }),
            },
        },
    }
}

/// The guest key for trimmed characters.
fn guest_key_of(chars: &[char]) -> (res: Result<u8, GuestKeyError>)
    ensures
        match spec_guest_key_by_name(spec_ascii_lowercase(chars@)) {
            Some(k) => res == Ok::<u8, GuestKeyError>(k),
            None => res == Err::<u8, GuestKeyError>(GuestKeyError::Unknown),
        },
{
    let text = crate::text::string_from_chars(chars);
    parse_guest_key(text.as_str())
}

impl RemapSpec {
    /// Parse "GUEST_KEY:KEY", for example "enter:space".
    pub fn parse(value: &str) -> (res: Result<RemapSpec, RemapError>)
        ensures
            res == spec_parse_remap(value@),
    {
        let chars = chars_of(value);
        let mut p: usize = 0;
        while p < chars.len() && chars[p] != ':'
            invariant
                p <= chars@.len(),
                chars@ == value@,
                forall|j: int| 0 <= j < p ==> chars@[j] != ':',
            decreases chars@.len() - p,
        {
            p = p + 1;
        }
        if p == chars.len() {
            assert(!(exists|i: int| 0 <= i < value@.len() && value@[i] == ':'));
            return Err(RemapError::MissingSeparator);
        }
        proof {
            let c = choose|i: int| 0 <= i < value@.len() && value@[i] == ':' && forall|j: int| 0 <= j < i ==> value@[j] != ':';
            assert(value@[p as int] == ':');
            if c < p {
                assert(chars@[c] != ':');
            }
            if p < c {
                assert(value@[p as int] != ':');
            }
        }
        let left = trim_chars(vstd::slice::slice_subrange(chars.as_slice(), 0, p));
        let right = trim_chars(vstd::slice::slice_subrange(chars.as_slice(), p + 1, chars.len()));
        let guest_key = match guest_key_of(left.as_slice()) {
            Ok(k) => k,
            Err(e) => {
                return Err(RemapError::GuestKey(e));
            },
        };
        let right_text = crate::text::string_from_chars(right.as_slice());
        match parse_key(right_text.as_str()) {
            Ok(key) => Ok(RemapSpec { guest_key, key }),
            Err(e) => Err(RemapError::Key(e)),
        }
    }
}

/// The default table from guest keys to the host keys that press them.
pub open spec fn spec_default_key_map() -> Seq<(u8, Seq<HostKey>)> {
    seq![
        (0u8, seq![HostKey::Key0]),
        (1u8, seq![HostKey::Key1]),
        (2u8, seq![HostKey::Key2]),
        (3u8, seq![HostKey::Key3]),
        (4u8, seq![HostKey::Key4]),
        (5u8, seq![HostKey::Key5]),
        (6u8, seq![HostKey::Key6]),
        (7u8, seq![HostKey::Key7]),
        (8u8, seq![HostKey::Key8]),
        (9u8, seq![HostKey::Key9]),
        (12u8, seq![HostKey::Q]),
        (13u8, seq![HostKey::E]),
        (14u8, seq![HostKey::Enter, HostKey::F]),
        (15u8, seq![HostKey::Left, HostKey::A]),
        (16u8, seq![HostKey::Right, HostKey::D]),
        (17u8, seq![HostKey::Up, HostKey::W]),
        (18u8, seq![HostKey::Down, HostKey::S]),
        (19u8, seq![HostKey::N]),
        (20u8, seq![HostKey::M]),
    ]
}

/// The table after one remapping: the entry of its guest key is pressed by
/// its host key alone.
pub open spec fn spec_remap(map: Seq<(u8, Seq<HostKey>)>, r: RemapSpec) -> Seq<(u8, Seq<HostKey>)> {
    map.map_values(|e: (u8, Seq<HostKey>)| if e.0 == r.guest_key { (e.0, seq![r.key]) } else { e })
}

/// The table after the remappings, applied in order.
pub open spec fn spec_remap_all(map: Seq<(u8, Seq<HostKey>)>, rs: Seq<RemapSpec>) -> Seq<(u8, Seq<HostKey>)>
    decreases rs.len(),
{
    if rs.len() == 0 {
        map
    } else {
        spec_remap(spec_remap_all(map, rs.drop_last()), rs.last())
    }
}

/// Maps host keyboard state onto guest keys.
#[derive(Debug)]
pub struct KeyboardMapper {
    mappings: Vec<(u8, Vec<HostKey>)>,
}

/// View of a key table.
pub open spec fn table_view(v: Seq<(u8, Vec<HostKey>)>) -> Seq<(u8, Seq<HostKey>)> {
    v.map_values(|e: (u8, Vec<HostKey>)| (e.0, e.1@))
}

fn entry(guest_key: u8, keys: &[HostKey]) -> (res: (u8, Vec<HostKey>))
    ensures
        res.0 == guest_key,
        res.1@ == keys@,
{
    (guest_key, vstd::slice::slice_to_vec(keys))
}

/// Whether `key` is among `down`.
fn is_down(down: &[HostKey], key: HostKey) -> (res: bool)
    ensures
        res == down@.contains(key),
{
    let mut i: usize = 0;
    while i < down.len()
        invariant
            i <= down@.len(),
            forall|j: int| 0 <= j < i ==> down@[j] != key,
        decreases down@.len() - i,
    {
        if down[i] == key {
            return true;
        }
        i = i + 1;
    }
    false
}

impl KeyboardMapper {
    /// The guest keys and the host keys that press each, in table order.
    pub closed spec fn table(&self) -> Seq<(u8, Seq<HostKey>)> {
        table_view(self.mappings@)
    }

    /// The default table with the remappings applied in order.
    pub fn new(remappings: &[RemapSpec]) -> (res: Self)
        ensures
            res.table() == spec_remap_all(spec_default_key_map(), remappings@),
    {
        let mut mappings: Vec<(u8, Vec<HostKey>)> = Vec::new();
        mappings.push(entry(0, &[HostKey::Key0]));
        mappings.push(entry(1, &[HostKey::Key1]));
        mappings.push(entry(2, &[HostKey::Key2]));
        mappings.push(entry(3, &[HostKey::Key3]));
        mappings.push(entry(4, &[HostKey::Key4]));
        mappings.push(entry(5, &[HostKey::Key5]));
        mappings.push(entry(6, &[HostKey::Key6]));
        mappings.push(entry(7, &[HostKey::Key7]));
        mappings.push(entry(8, &[HostKey::Key8]));
        mappings.push(entry(9, &[HostKey::Key9]));
        mappings.push(entry(12, &[HostKey::Q]));
        mappings.push(entry(13, &[HostKey::E]));
        mappings.push(entry(14, &[HostKey::Enter, HostKey::F]));
        mappings.push(entry(15, &[HostKey::Left, HostKey::A]));
        mappings.push(entry(16, &[HostKey::Right, HostKey::D]));
        mappings.push(entry(17, &[HostKey::Up, HostKey::W]));
        mappings.push(entry(18, &[HostKey::Down, HostKey::S]));
        mappings.push(entry(19, &[HostKey::N]));
        mappings.push(entry(20, &[HostKey::M]));
        assert(table_view(mappings@) =~~= spec_default_key_map());
        let mut r: usize = 0;
        assert(remappings@.subrange(0, 0) =~= Seq::<RemapSpec>::empty());
        while r < remappings.len()
            invariant
                r <= remappings@.len(),
                table_view(mappings@) == spec_remap_all(spec_default_key_map(), remappings@.subrange(0, r as int)),
            decreases remappings@.len() - r,
        {
            let remap = remappings[r];
            let ghost before = table_view(mappings@);
            let mut i: usize = 0;
            while i < mappings.len()
                invariant
                    i <= mappings@.len(),
                    mappings@.len() == before.len(),
                    forall|j: int| 0 <= j < i ==> #[trigger] table_view(mappings@)[j] == spec_remap(before, remap)[j],
                    forall|j: int| i <= j < mappings@.len() ==> #[trigger] table_view(mappings@)[j] == before[j],
                decreases mappings@.len() - i,
            {
                if mappings[i].0 == remap.guest_key {
                    let ghost prior = mappings@;
                    let mut keys: Vec<HostKey> = Vec::new();
                    keys.push(remap.key);
                    assert(keys@ =~= seq![remap.key]);
                    assert(table_view(mappings@)[i as int] == before[i as int]);
                    mappings.set(i, (remap.guest_key, keys));
                    assert(table_view(mappings@)[i as int] == spec_remap(before, remap)[i as int]);
                    assert forall|j: int| 0 <= j < mappings@.len() && j != i implies #[trigger] table_view(mappings@)[j]
                        == table_view(prior)[j] by {
                        assert(mappings@[j] == prior[j]);
                    }
                }
                i = i + 1;
            }
            assert(table_view(mappings@) =~= spec_remap(before, remap));
            assert(remappings@.subrange(0, r + 1).drop_last() =~= remappings@.subrange(0, r as int));
            r = r + 1;
        }
        assert(remappings@.subrange(0, remappings@.len() as int) =~= remappings@);
        KeyboardMapper { mappings }
    }

    /// Each guest key of the table, in order, with whether any of its host
    /// keys is among the keys held down.
    pub fn guest_key_states(&self, down: &[HostKey]) -> (res: Vec<(u8, bool)>)
        ensures
            res@.len() == self.table().len(),
            forall|i: int| 0 <= i < res@.len() ==> #[trigger] res@[i] == (self.table()[i].0, exists|k: int|
                0 <= k < self.table()[i].1.len() && down@.contains(self.table()[i].1[k])),
    {
        let mut out: Vec<(u8, bool)> = Vec::new();
        let mut i: usize = 0;
        while i < self.mappings.len()
            invariant
                i <= self.mappings@.len(),
                out@.len() == i,
                forall|j: int| 0 <= j < i ==> #[trigger] out@[j] == (self.table()[j].0, exists|k: int|
                    0 <= k < self.table()[j].1.len() && down@.contains(self.table()[j].1[k])),
            decreases self.mappings@.len() - i,
        {
            let keys = &self.mappings[i].1;
            let mut any = false;
            let mut k: usize = 0;
            while k < keys.len()
                invariant
                    k <= keys@.len(),
                    any == exists|m: int| 0 <= m < k && down@.contains(keys@[m]),
                decreases keys@.len() - k,
            {
                if is_down(down, keys[k]) {
                    any = true;
                }
                k = k + 1;
            }
            assert(self.table()[i as int].1 == keys@);
            out.push((self.mappings[i].0, any));
            i = i + 1;
        }
        out
    }
}

impl core::str::FromStr for RemapSpec {
    type Err = RemapError;

    fn from_str(value: &str) -> Result<RemapSpec, RemapError> {
        RemapSpec::parse(value)
    }
}

} // verus!
