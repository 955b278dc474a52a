//! Keyboard input as the interface reads it: key codes, modifier sets and
//! terminal events, held as plain values.

use vstd::prelude::*;

verus! {

/// A media key.
#[derive(Debug, Clone, Copy, PartialEq, Eq, Structural)]
pub enum MediaKeyCode {
    Play,
    Pause,
    PlayPause,
    Reverse,
    Stop,
    FastForward,
    Rewind,
    TrackNext,
    TrackPrevious,
    Record,
    LowerVolume,
    RaiseVolume,
    MuteVolume,
}

/// A modifier key pressed on its own.
#[derive(Debug, Clone, Copy, PartialEq, Eq, Structural)]
pub enum ModifierKeyCode {
    LeftShift,
    LeftControl,
    LeftAlt,
    LeftSuper,
    LeftHyper,
    LeftMeta,
    RightShift,
    RightControl,
    RightAlt,
    RightSuper,
    RightHyper,
    RightMeta,
    IsoLevel3Shift,
    IsoLevel5Shift,
}

/// A key.
#[derive(Debug, Clone, Copy, PartialEq, Eq, Structural)]
pub enum KeyCode {
    Backspace,
    Enter,
    Left,
    Right,
    Up,
    Down,
    Home,
    End,
    PageUp,
    PageDown,
    Tab,
    BackTab,
    Delete,
    Insert,
    F(u8),
    Char(char),
    Null,
    Esc,
    CapsLock,
    ScrollLock,
    NumLock,
    PrintScreen,
    Pause,
    Menu,
    KeypadBegin,
    Media(MediaKeyCode),
    Modifier(ModifierKeyCode),
}

/// A set of modifier keys, one bit each: shift 1, control 2, alt 4, super 8,
/// hyper 16, meta 32.
#[derive(Debug, Clone, Copy, PartialEq, Eq, Structural)]
pub struct KeyModifiers {
    pub bits: u8,
}

impl KeyModifiers {
    /// No modifier.
    pub fn empty() -> (m: KeyModifiers)
        ensures
            m.bits == 0,
    {
        KeyModifiers { bits: 0 }
    }

    /// The shift key.
    pub fn shift() -> (m: KeyModifiers)
        ensures
            m.bits == 1,
    {
        KeyModifiers { bits: 1 }
    }

    /// The control key.
    pub fn control() -> (m: KeyModifiers)
        ensures
            m.bits == 2,
    {
        KeyModifiers { bits: 2 }
    }

    /// The alt key.
    pub fn alt() -> (m: KeyModifiers)
        ensures
            m.bits == 4,
    {
        KeyModifiers { bits: 4 }
    }

    /// Whether every modifier of `other` is in this set.
    pub fn contains(&self, other: KeyModifiers) -> (r: bool)
        ensures
            r == (self.bits & other.bits == other.bits),
    {
        modifiers_contain(self.bits, other.bits)
    }
}

/// Whether the modifier set `held` holds every modifier of `required`
/// (`crossterm::event::KeyModifiers::contains`).
///
/// Trusted: the contract claims what the `bitflags` implementation behind the
/// call computes, `held & required == required`.
#[verifier::external_body]
fn modifiers_contain(held: u8, required: u8) -> (r: bool)
    ensures
        r == (held & required == required),
{
    crossterm::event::KeyModifiers::from_bits_retain(held).contains(
        crossterm::event::KeyModifiers::from_bits_retain(required),
    )
}

/// A key press: the key and the modifiers held with it.
#[derive(Debug, Clone, Copy, PartialEq, Eq, Structural)]
pub struct KeyEvent {
    pub code: KeyCode,
    pub modifiers: KeyModifiers,
}

/// A terminal event, as far as the interface reads it.
#[derive(Debug, Clone, Copy, PartialEq, Eq, Structural)]
pub enum Event {
    /// A key press.
    Key(KeyEvent),
    /// Any other event (focus, mouse, paste, resize).
    Other,
}

} // verus!
