//! Canonical, platform-independent identities for keyboard keys.
//!
//! Each key has a dense ordinal in `[0, KEYCODE_COUNT)`, used to index the
//! bit-assignment lookup table; platform backends translate their native
//! key representation into these identities before handing them on.

use vstd::prelude::*;

use crate::platform::KeycodeType;

verus! {

/// Number of distinct key identities; every ordinal is below this bound.
pub const KEYCODE_COUNT: usize = 111;

/// A key on the keyboard, named independently of any platform backend.
#[derive(Clone, Copy, Debug, PartialEq, Eq, Hash, Structural)]
pub enum Keycode {
    Key0,
    Key1,
    Key2,
    Key3,
    Key4,
    Key5,
    Key6,
    Key7,
    Key8,
    Key9,
    A,
    B,
    C,
    D,
    E,
    F,
    G,
    H,
    I,
    J,
    K,
    L,
    M,
    N,
    O,
    P,
    Q,
    R,
    S,
    T,
    U,
    V,
    W,
    X,
    Y,
    Z,
    F1,
    F2,
    F3,
    F4,
    F5,
    F6,
    F7,
    F8,
    F9,
    F10,
    F11,
    F12,
    Escape,
    Space,
    LControl,
    RControl,
    LShift,
    RShift,
    LAlt,
    RAlt,
    LMeta,
    RMeta,
    Enter,
    Up,
    Down,
    Left,
    Right,
    Backspace,
    CapsLock,
    Tab,
    Home,
    End,
    PageUp,
    PageDown,
    Insert,
    Delete,
    Numpad0,
    Numpad1,
    Numpad2,
    Numpad3,
    Numpad4,
    Numpad5,
    Numpad6,
    Numpad7,
    Numpad8,
    Numpad9,
    NumpadSubtract,
    NumpadAdd,
    NumpadDivide,
    NumpadMultiply,
    Grave,
    Minus,
    Equal,
    LeftBracket,
    RightBracket,
    BackSlash,
    Semicolon,
    Apostrophe,
    Comma,
    Dot,
    Slash,
    F13,
    F14,
    F15,
    F16,
    F17,
    F18,
    F19,
    F20,
    Command,
    LOption,
    ROption,
    NumpadEquals,
    NumpadEnter,
    NumpadDecimal,
}

impl Keycode {
    /// Dense ordinal of this key, as a mathematical value.
    pub open spec fn ordinal(self) -> int {
        match self {
            Keycode::Key0 => 0,
            Keycode::Key1 => 1,
            Keycode::Key2 => 2,
            Keycode::Key3 => 3,
            Keycode::Key4 => 4,
            Keycode::Key5 => 5,
            Keycode::Key6 => 6,
            Keycode::Key7 => 7,
            Keycode::Key8 => 8,
            Keycode::Key9 => 9,
            Keycode::A => 10,
            Keycode::B => 11,
            Keycode::C => 12,
            Keycode::D => 13,
            Keycode::E => 14,
            Keycode::F => 15,
            Keycode::G => 16,
            Keycode::H => 17,
            Keycode::I => 18,
            Keycode::J => 19,
            Keycode::K => 20,
            Keycode::L => 21,
            Keycode::M => 22,
            Keycode::N => 23,
            Keycode::O => 24,
            Keycode::P => 25,
            Keycode::Q => 26,
            Keycode::R => 27,
            Keycode::S => 28,
            Keycode::T => 29,
            Keycode::U => 30,
            Keycode::V => 31,
            Keycode::W => 32,
            Keycode::X => 33,
            Keycode::Y => 34,
            Keycode::Z => 35,
            Keycode::F1 => 36,
            Keycode::F2 => 37,
            Keycode::F3 => 38,
            Keycode::F4 => 39,
            Keycode::F5 => 40,
            Keycode::F6 => 41,
            Keycode::F7 => 42,
            Keycode::F8 => 43,
            Keycode::F9 => 44,
            Keycode::F10 => 45,
            Keycode::F11 => 46,
            Keycode::F12 => 47,
            Keycode::Escape => 48,
            Keycode::Space => 49,
            Keycode::LControl => 50,
            Keycode::RControl => 51,
            Keycode::LShift => 52,
            Keycode::RShift => 53,
            Keycode::LAlt => 54,
            Keycode::RAlt => 55,
            Keycode::LMeta => 56,
            Keycode::RMeta => 57,
            Keycode::Enter => 58,
            Keycode::Up => 59,
            Keycode::Down => 60,
            Keycode::Left => 61,
            Keycode::Right => 62,
            Keycode::Backspace => 63,
            Keycode::CapsLock => 64,
            Keycode::Tab => 65,
            Keycode::Home => 66,
            Keycode::End => 67,
            Keycode::PageUp => 68,
            Keycode::PageDown => 69,
            Keycode::Insert => 70,
            Keycode::Delete => 71,
            Keycode::Numpad0 => 72,
            Keycode::Numpad1 => 73,
            Keycode::Numpad2 => 74,
            Keycode::Numpad3 => 75,
            Keycode::Numpad4 => 76,
            Keycode::Numpad5 => 77,
            Keycode::Numpad6 => 78,
            Keycode::Numpad7 => 79,
            Keycode::Numpad8 => 80,
            Keycode::Numpad9 => 81,
            Keycode::NumpadSubtract => 82,
            Keycode::NumpadAdd => 83,
            Keycode::NumpadDivide => 84,
            Keycode::NumpadMultiply => 85,
            Keycode::Grave => 86,
            Keycode::Minus => 87,
            Keycode::Equal => 88,
            Keycode::LeftBracket => 89,
            Keycode::RightBracket => 90,
            Keycode::BackSlash => 91,
            Keycode::Semicolon => 92,
            Keycode::Apostrophe => 93,
            Keycode::Comma => 94,
            Keycode::Dot => 95,
            Keycode::Slash => 96,
            Keycode::F13 => 97,
            Keycode::F14 => 98,
            Keycode::F15 => 99,
            Keycode::F16 => 100,
            Keycode::F17 => 101,
            Keycode::F18 => 102,
            Keycode::F19 => 103,
            Keycode::F20 => 104,
            Keycode::Command => 105,
            Keycode::LOption => 106,
            Keycode::ROption => 107,
            Keycode::NumpadEquals => 108,
            Keycode::NumpadEnter => 109,
            Keycode::NumpadDecimal => 110,
        }
    }
}

impl KeycodeType for Keycode {
    open spec fn spec_index(&self) -> int {
        self.ordinal()
    }

    open spec fn spec_num_variants() -> int {
        KEYCODE_COUNT as int
    }

    fn num_variants() -> (n: usize) {
        KEYCODE_COUNT
    }

    fn index(&self) -> (i: usize) {
        match self {
            Keycode::Key0 => 0,
            Keycode::Key1 => 1,
            Keycode::Key2 => 2,
            Keycode::Key3 => 3,
            Keycode::Key4 => 4,
            Keycode::Key5 => 5,
            Keycode::Key6 => 6,
            Keycode::Key7 => 7,
            Keycode::Key8 => 8,
            Keycode::Key9 => 9,
            Keycode::A => 10,
            Keycode::B => 11,
            Keycode::C => 12,
            Keycode::D => 13,
            Keycode::E => 14,
            Keycode::F => 15,
            Keycode::G => 16,
            Keycode::H => 17,
            Keycode::I => 18,
            Keycode::J => 19,
            Keycode::K => 20,
            Keycode::L => 21,
            Keycode::M => 22,
            Keycode::N => 23,
            Keycode::O => 24,
            Keycode::P => 25,
            Keycode::Q => 26,
            Keycode::R => 27,
            Keycode::S => 28,
            Keycode::T => 29,
            Keycode::U => 30,
            Keycode::V => 31,
            Keycode::W => 32,
            Keycode::X => 33,
            Keycode::Y => 34,
            Keycode::Z => 35,
            Keycode::F1 => 36,
            Keycode::F2 => 37,
            Keycode::F3 => 38,
            Keycode::F4 => 39,
            Keycode::F5 => 40,
            Keycode::F6 => 41,
            Keycode::F7 => 42,
            Keycode::F8 => 43,
            Keycode::F9 => 44,
            Keycode::F10 => 45,
            Keycode::F11 => 46,
            Keycode::F12 => 47,
            Keycode::Escape => 48,
            Keycode::Space => 49,
            Keycode::LControl => 50,
            Keycode::RControl => 51,
            Keycode::LShift => 52,
            Keycode::RShift => 53,
            Keycode::LAlt => 54,
            Keycode::RAlt => 55,
            Keycode::LMeta => 56,
            Keycode::RMeta => 57,
            Keycode::Enter => 58,
            Keycode::Up => 59,
            Keycode::Down => 60,
            Keycode::Left => 61,
            Keycode::Right => 62,
            Keycode::Backspace => 63,
            Keycode::CapsLock => 64,
            Keycode::Tab => 65,
            Keycode::Home => 66,
            Keycode::End => 67,
            Keycode::PageUp => 68,
            Keycode::PageDown => 69,
            Keycode::Insert => 70,
            Keycode::Delete => 71,
            Keycode::Numpad0 => 72,
            Keycode::Numpad1 => 73,
            Keycode::Numpad2 => 74,
            Keycode::Numpad3 => 75,
            Keycode::Numpad4 => 76,
            Keycode::Numpad5 => 77,
            Keycode::Numpad6 => 78,
            Keycode::Numpad7 => 79,
            Keycode::Numpad8 => 80,
            Keycode::Numpad9 => 81,
            Keycode::NumpadSubtract => 82,
            Keycode::NumpadAdd => 83,
            Keycode::NumpadDivide => 84,
            Keycode::NumpadMultiply => 85,
            Keycode::Grave => 86,
            Keycode::Minus => 87,
            Keycode::Equal => 88,
            Keycode::LeftBracket => 89,
            Keycode::RightBracket => 90,
            Keycode::BackSlash => 91,
            Keycode::Semicolon => 92,
            Keycode::Apostrophe => 93,
            Keycode::Comma => 94,
            Keycode::Dot => 95,
            Keycode::Slash => 96,
            Keycode::F13 => 97,
            Keycode::F14 => 98,
            Keycode::F15 => 99,
            Keycode::F16 => 100,
            Keycode::F17 => 101,
            Keycode::F18 => 102,
            Keycode::F19 => 103,
            Keycode::F20 => 104,
            Keycode::Command => 105,
            Keycode::LOption => 106,
            Keycode::ROption => 107,
            Keycode::NumpadEquals => 108,
            Keycode::NumpadEnter => 109,
            Keycode::NumpadDecimal => 110,
        }
    }
}

/// The key whose ordinal is `i` (meaningful only for `0 <= i < KEYCODE_COUNT`).
pub open spec fn keycode_with_ordinal(i: int) -> Keycode {
    if i == 0 {
        Keycode::Key0
    } else
    if i == 1 {
        Keycode::Key1
    } else
    if i == 2 {
        Keycode::Key2
    } else
    if i == 3 {
        Keycode::Key3
    } else
    if i == 4 {
        Keycode::Key4
    } else
    if i == 5 {
        Keycode::Key5
    } else
    if i == 6 {
        Keycode::Key6
    } else
    if i == 7 {
        Keycode::Key7
    } else
    if i == 8 {
        Keycode::Key8
    } else
    if i == 9 {
        Keycode::Key9
    } else
    if i == 10 {
        Keycode::A
    } else
    if i == 11 {
        Keycode::B
    } else
    if i == 12 {
        Keycode::C
    } else
    if i == 13 {
        Keycode::D
    } else
    if i == 14 {
        Keycode::E
    } else
    if i == 15 {
        Keycode::F
    } else
    if i == 16 {
        Keycode::G
    } else
    if i == 17 {
        Keycode::H
    } else
    if i == 18 {
        Keycode::I
    } else
    if i == 19 {
        Keycode::J
    } else
    if i == 20 {
        Keycode::K
    } else
    if i == 21 {
        Keycode::L
    } else
    if i == 22 {
        Keycode::M
    } else
    if i == 23 {
        Keycode::N
    } else
    if i == 24 {
        Keycode::O
    } else
    if i == 25 {
        Keycode::P
    } else
    if i == 26 {
        Keycode::Q
    } else
    if i == 27 {
        Keycode::R
    } else
    if i == 28 {
        Keycode::S
    } else
    if i == 29 {
        Keycode::T
    } else
    if i == 30 {
        Keycode::U
    } else
    if i == 31 {
        Keycode::V
    } else
    if i == 32 {
        Keycode::W
    } else
    if i == 33 {
        Keycode::X
    } else
    if i == 34 {
        Keycode::Y
    } else
    if i == 35 {
        Keycode::Z
    } else
    if i == 36 {
        Keycode::F1
    } else
    if i == 37 {
        Keycode::F2
    } else
    if i == 38 {
        Keycode::F3
    } else
    if i == 39 {
        Keycode::F4
    } else
    if i == 40 {
        Keycode::F5
    } else
    if i == 41 {
        Keycode::F6
    } else
    if i == 42 {
        Keycode::F7
    } else
    if i == 43 {
        Keycode::F8
    } else
    if i == 44 {
        Keycode::F9
    } else
    if i == 45 {
        Keycode::F10
    } else
    if i == 46 {
        Keycode::F11
    } else
    if i == 47 {
        Keycode::F12
    } else
    if i == 48 {
        Keycode::Escape
    } else
    if i == 49 {
        Keycode::Space
    } else
    if i == 50 {
        Keycode::LControl
    } else
    if i == 51 {
        Keycode::RControl
    } else
    if i == 52 {
        Keycode::LShift
    } else
    if i == 53 {
        Keycode::RShift
    } else
    if i == 54 {
        Keycode::LAlt
    } else
    if i == 55 {
        Keycode::RAlt
    } else
    if i == 56 {
        Keycode::LMeta
    } else
    if i == 57 {
        Keycode::RMeta
    } else
    if i == 58 {
        Keycode::Enter
    } else
    if i == 59 {
        Keycode::Up
    } else
    if i == 60 {
        Keycode::Down
    } else
    if i == 61 {
        Keycode::Left
    } else
    if i == 62 {
        Keycode::Right
    } else
    if i == 63 {
        Keycode::Backspace
    } else
    if i == 64 {
        Keycode::CapsLock
    } else
    if i == 65 {
        Keycode::Tab
    } else
    if i == 66 {
        Keycode::Home
    } else
    if i == 67 {
        Keycode::End
    } else
    if i == 68 {
        Keycode::PageUp
    } else
    if i == 69 {
        Keycode::PageDown
    } else
    if i == 70 {
        Keycode::Insert
    } else
    if i == 71 {
        Keycode::Delete
    } else
    if i == 72 {
        Keycode::Numpad0
    } else
    if i == 73 {
        Keycode::Numpad1
    } else
    if i == 74 {
        Keycode::Numpad2
    } else
    if i == 75 {
        Keycode::Numpad3
    } else
    if i == 76 {
        Keycode::Numpad4
    } else
    if i == 77 {
        Keycode::Numpad5
    } else
    if i == 78 {
        Keycode::Numpad6
    } else
    if i == 79 {
        Keycode::Numpad7
    } else
    if i == 80 {
        Keycode::Numpad8
    } else
    if i == 81 {
        Keycode::Numpad9
    } else
    if i == 82 {
        Keycode::NumpadSubtract
    } else
    if i == 83 {
        Keycode::NumpadAdd
    } else
    if i == 84 {
        Keycode::NumpadDivide
    } else
    if i == 85 {
        Keycode::NumpadMultiply
    } else
    if i == 86 {
        Keycode::Grave
    } else
    if i == 87 {
        Keycode::Minus
    } else
    if i == 88 {
        Keycode::Equal
    } else
    if i == 89 {
        Keycode::LeftBracket
    } else
    if i == 90 {
        Keycode::RightBracket
    } else
    if i == 91 {
        Keycode::BackSlash
    } else
    if i == 92 {
        Keycode::Semicolon
    } else
    if i == 93 {
        Keycode::Apostrophe
    } else
    if i == 94 {
        Keycode::Comma
    } else
    if i == 95 {
        Keycode::Dot
    } else
    if i == 96 {
        Keycode::Slash
    } else
    if i == 97 {
        Keycode::F13
    } else
    if i == 98 {
        Keycode::F14
    } else
    if i == 99 {
        Keycode::F15
    } else
    if i == 100 {
        Keycode::F16
    } else
    if i == 101 {
        Keycode::F17
    } else
    if i == 102 {
        Keycode::F18
    } else
    if i == 103 {
        Keycode::F19
    } else
    if i == 104 {
        Keycode::F20
    } else
    if i == 105 {
        Keycode::Command
    } else
    if i == 106 {
        Keycode::LOption
    } else
    if i == 107 {
        Keycode::ROption
    } else
    if i == 108 {
        Keycode::NumpadEquals
    } else
    if i == 109 {
        Keycode::NumpadEnter
    } else {
        Keycode::NumpadDecimal
    }
}

/// Ordinals are dense: every key's ordinal lies in `[0, KEYCODE_COUNT)`.
pub proof fn lemma_ordinal_bounds(k: Keycode)
    ensures
        0 <= k.ordinal() < KEYCODE_COUNT,
{
}

/// Every key is recovered from its ordinal, so the ordinal map is invertible.
pub proof fn lemma_ordinal_roundtrip(k: Keycode)
    ensures
        keycode_with_ordinal(k.ordinal()) == k,
{
    match k {
        Keycode::Key0 => {},
        Keycode::Key1 => {},
        Keycode::Key2 => {},
        Keycode::Key3 => {},
        Keycode::Key4 => {},
        Keycode::Key5 => {},
        Keycode::Key6 => {},
        Keycode::Key7 => {},
        Keycode::Key8 => {},
        Keycode::Key9 => {},
        Keycode::A => {},
        Keycode::B => {},
        Keycode::C => {},
        Keycode::D => {},
        Keycode::E => {},
        Keycode::F => {},
        Keycode::G => {},
        Keycode::H => {},
        Keycode::I => {},
        Keycode::J => {},
        Keycode::K => {},
        Keycode::L => {},
        Keycode::M => {},
        Keycode::N => {},
        Keycode::O => {},
        Keycode::P => {},
        Keycode::Q => {},
        Keycode::R => {},
        Keycode::S => {},
        Keycode::T => {},
        Keycode::U => {},
        Keycode::V => {},
        Keycode::W => {},
        Keycode::X => {},
        Keycode::Y => {},
        Keycode::Z => {},
        Keycode::F1 => {},
        Keycode::F2 => {},
        Keycode::F3 => {},
        Keycode::F4 => {},
        Keycode::F5 => {},
        Keycode::F6 => {},
        Keycode::F7 => {},
        Keycode::F8 => {},
        Keycode::F9 => {},
        Keycode::F10 => {},
        Keycode::F11 => {},
        Keycode::F12 => {},
        Keycode::Escape => {},
        Keycode::Space => {},
        Keycode::LControl => {},
        Keycode::RControl => {},
        Keycode::LShift => {},
        Keycode::RShift => {},
        Keycode::LAlt => {},
        Keycode::RAlt => {},
        Keycode::LMeta => {},
        Keycode::RMeta => {},
        Keycode::Enter => {},
        Keycode::Up => {},
        Keycode::Down => {},
        Keycode::Left => {},
        Keycode::Right => {},
        Keycode::Backspace => {},
        Keycode::CapsLock => {},
        Keycode::Tab => {},
        Keycode::Home => {},
        Keycode::End => {},
        Keycode::PageUp => {},
        Keycode::PageDown => {},
        Keycode::Insert => {},
        Keycode::Delete => {},
        Keycode::Numpad0 => {},
        Keycode::Numpad1 => {},
        Keycode::Numpad2 => {},
        Keycode::Numpad3 => {},
        Keycode::Numpad4 => {},
        Keycode::Numpad5 => {},
        Keycode::Numpad6 => {},
        Keycode::Numpad7 => {},
        Keycode::Numpad8 => {},
        Keycode::Numpad9 => {},
        Keycode::NumpadSubtract => {},
        Keycode::NumpadAdd => {},
        Keycode::NumpadDivide => {},
        Keycode::NumpadMultiply => {},
        Keycode::Grave => {},
        Keycode::Minus => {},
        Keycode::Equal => {},
        Keycode::LeftBracket => {},
        Keycode::RightBracket => {},
        Keycode::BackSlash => {},
        Keycode::Semicolon => {},
        Keycode::Apostrophe => {},
        Keycode::Comma => {},
        Keycode::Dot => {},
        Keycode::Slash => {},
        Keycode::F13 => {},
        Keycode::F14 => {},
        Keycode::F15 => {},
        Keycode::F16 => {},
        Keycode::F17 => {},
        Keycode::F18 => {},
        Keycode::F19 => {},
        Keycode::F20 => {},
        Keycode::Command => {},
        Keycode::LOption => {},
        Keycode::ROption => {},
        Keycode::NumpadEquals => {},
        Keycode::NumpadEnter => {},
        Keycode::NumpadDecimal => {},
    }
}

/// Distinct keys have distinct ordinals.
pub proof fn lemma_ordinal_injective(a: Keycode, b: Keycode)
    requires
        a.ordinal() == b.ordinal(),
    ensures
        a == b,
{
    lemma_ordinal_roundtrip(a);
    lemma_ordinal_roundtrip(b);
}

} // verus!
