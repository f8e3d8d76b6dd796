//! Keyboard input as the UI components see it: a key code and modifiers.

use vstd::prelude::*;

verus! {

/// A key on the keyboard.
#[derive(Clone, Copy, PartialEq, Eq, Debug, Structural)]
pub enum KeyCode {
    Backspace,
    Enter,
    Left,
    Right,
    Up,
    Down,
    Home,
    End,
    PageUp,
    PageDown,
    Tab,
    BackTab,
    Delete,
    Insert,
    /// A function key, `F(1)` for F1.
    F(u8),
    /// A character key.
    Char(char),
    Null,
    Esc,
    /// Any other key (media keys, modifiers pressed alone, ...).
    Other,
}

/// The modifier keys held down with a key.
#[derive(Clone, Copy, PartialEq, Eq, Debug, Structural)]
pub struct KeyModifiers {
    pub shift: bool,
    pub control: bool,
    pub alt: bool,
}

impl KeyModifiers {
    /// No modifier held.
    pub fn none() -> (m: KeyModifiers)
        ensures
            !m.shift && !m.control && !m.alt,
    {
        KeyModifiers { shift: false, control: false, alt: false }
    }

    /// Shift alone.
    pub fn shift() -> (m: KeyModifiers)
        ensures
            m.shift && !m.control && !m.alt,
    {
        KeyModifiers { shift: true, control: false, alt: false }
    }

    /// Control alone.
    pub fn control() -> (m: KeyModifiers)
        ensures
            !m.shift && m.control && !m.alt,
    {
        KeyModifiers { shift: false, control: true, alt: false }
    }
}

/// A key press: the key and the modifiers held with it.
#[derive(Clone, Copy, PartialEq, Eq, Debug, Structural)]
pub struct KeyEvent {
    pub code: KeyCode,
    pub modifiers: KeyModifiers,
}

impl KeyEvent {
    /// A key press with the given modifiers.
    pub fn new(code: KeyCode, modifiers: KeyModifiers) -> (k: KeyEvent)
        ensures
            k.code == code,
            k.modifiers == modifiers,
    {
        KeyEvent { code, modifiers }
    }

    /// A key press with no modifier.
    pub fn plain(code: KeyCode) -> (k: KeyEvent)
        ensures
            k.code == code,
            !k.modifiers.shift && !k.modifiers.control && !k.modifiers.alt,
    {
        KeyEvent { code, modifiers: KeyModifiers::none() }
    }
}

/// A rectangle of terminal cells: its top-left corner and its size.
#[derive(Clone, Copy, PartialEq, Eq, Debug, Structural)]
pub struct Rect {
    pub x: u16,
    pub y: u16,
    pub width: u16,
    pub height: u16,
}

impl Rect {
    /// The rectangle at `(x, y)` of size `width` × `height`.
    pub fn new(x: u16, y: u16, width: u16, height: u16) -> (r: Rect)
        ensures
            r.x == x && r.y == y && r.width == width && r.height == height,
    {
        Rect { x, y, width, height }
    }
}

} // verus!
