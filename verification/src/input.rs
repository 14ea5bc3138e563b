//! Keyboard input as the application reads it.

use vstd::prelude::*;

verus! {

/// Modifier bit of the Shift key
pub const SHIFT: u8 = 0b0000_0001;
/// Modifier bit of the Control key
pub const CONTROL: u8 = 0b0000_0010;
/// Modifier bit of the Alt key
pub const ALT: u8 = 0b0000_0100;
/// Modifier bit of the Super key
pub const SUPER: u8 = 0b0000_1000;
/// Modifier bit of the Hyper key
pub const HYPER: u8 = 0b0001_0000;
/// Modifier bit of the Meta key
pub const META: u8 = 0b0010_0000;

/// The modifier keys held with a key press, as a set of bits.
#[derive(Debug, Clone, Copy, PartialEq, Eq, Structural)]
pub struct KeyModifiers {
    pub bits: u8,
}

impl KeyModifiers {
    /// The modifiers whose bits are set in `bits`.
    pub fn from_bits(bits: u8) -> (r: KeyModifiers)
        ensures
            r.bits == bits,
    {
        KeyModifiers { bits }
    }
}

/// A key of the keyboard.
#[derive(Debug, Clone, Copy, PartialEq, Eq, Structural)]
pub enum KeyCode {
    Backspace,
    Enter,
    Left,
    Right,
    Up,
    Down,
    Home,
    End,
    PageUp,
    PageDown,
    Tab,
    BackTab,
    Delete,
    Insert,
    F(u8),
    Char(char),
    Null,
    Esc,
    CapsLock,
    ScrollLock,
    NumLock,
    PrintScreen,
    Pause,
    Menu,
    KeypadBegin,
    /// A media or modifier key
    Other,
}

} // verus!
