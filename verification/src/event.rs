//! Events, the replies of a terminal, and the reader that hands them out.

use vstd::prelude::*;

pub mod filter;
pub mod osc;
pub mod parser;
pub mod read;
pub mod read_laws;
pub mod source;
pub mod timeout;

verus! {

/// The modifier keys held during an event, one bit each.
#[derive(Clone, Copy, Debug, PartialEq, Eq, Structural)]
pub struct KeyModifiers {
    pub bits: u8,
}

impl KeyModifiers {
    /// The shift key.
    pub fn shift() -> (modifiers: KeyModifiers)
        ensures
            modifiers.bits == 1,
    {
        KeyModifiers { bits: 1 }
    }
}

/// The keyboard enhancements that a terminal reports as active, one bit each.
#[derive(Clone, Copy, Debug, PartialEq, Eq, Structural)]
pub struct KeyboardEnhancementFlags {
    pub bits: u8,
}

impl KeyboardEnhancementFlags {
    /// Escape and modified keys are reported unambiguously.
    pub fn disambiguate_escape_codes() -> (flags: KeyboardEnhancementFlags)
        ensures
            flags.bits == 1,
    {
        KeyboardEnhancementFlags { bits: 1 }
    }
}

/// A key.
#[derive(Clone, Copy, Debug, PartialEq, Eq, Structural)]
pub enum KeyCode {
    Backspace,
    Enter,
    Left,
    Right,
    Up,
    Down,
    Home,
    End,
    PageUp,
    PageDown,
    Tab,
    BackTab,
    Delete,
    Insert,
    /// A function key, by its number.
    F(u8),
    /// A key that types a character.
    Char(char),
    Null,
    Esc,
}

/// Whether a key went down, is held, or came up.
#[derive(Clone, Copy, Debug, PartialEq, Eq, Structural)]
pub enum KeyEventKind {
    Press,
    Repeat,
    Release,
}

/// A key event.
#[derive(Clone, Copy, Debug, PartialEq, Eq, Structural)]
pub struct KeyEvent {
    pub code: KeyCode,
    pub modifiers: KeyModifiers,
    pub kind: KeyEventKind,
}

/// A key alone stands for its press with no modifier held.
impl From<KeyCode> for KeyEvent {
    fn from(code: KeyCode) -> (event: KeyEvent) {
        KeyEvent { code, modifiers: KeyModifiers { bits: 0 }, kind: KeyEventKind::Press }
    }
}

impl vstd::std_specs::convert::FromSpecImpl<KeyCode> for KeyEvent {
    open spec fn obeys_from_spec() -> bool {
        true
    }

    open spec fn from_spec(code: KeyCode) -> KeyEvent {
        KeyEvent { code, modifiers: KeyModifiers { bits: 0 }, kind: KeyEventKind::Press }
    }
}

/// A mouse button.
#[derive(Clone, Copy, Debug, PartialEq, Eq, Structural)]
pub enum MouseButton {
    Left,
    Right,
    Middle,
}

/// What a mouse did.
#[derive(Clone, Copy, Debug, PartialEq, Eq, Structural)]
pub enum MouseEventKind {
    Down(MouseButton),
    Up(MouseButton),
    Drag(MouseButton),
    Moved,
    ScrollDown,
    ScrollUp,
    ScrollLeft,
    ScrollRight,
}

/// A mouse event.
#[derive(Clone, Copy, Debug, PartialEq, Eq, Structural)]
pub struct MouseEvent {
    pub kind: MouseEventKind,
    pub column: u16,
    pub row: u16,
    pub modifiers: KeyModifiers,
}

/// An event for the user of the terminal.
#[derive(Clone, Debug, PartialEq, Eq)]
pub enum Event {
    FocusGained,
    FocusLost,
    Key(KeyEvent),
    Mouse(MouseEvent),
    /// Text pasted as a whole.
    Paste(String),
    /// A new terminal size in columns and rows.
    Resize(u16, u16),
}

/// What a terminal answered to a question about one of its colors.
#[derive(Clone, Debug, PartialEq, Eq)]
pub enum OscColorPayload {
    Rgb { r: u8, g: u8, b: u8 },
    /// An answer that names no color by its parts.
    Unrecognized(String),
}

/// An event as it is read from a source: one for the user, or a reply of the
/// terminal to a query.
#[derive(Clone, Debug, PartialEq, Eq)]
pub enum InternalEvent {
    /// An event for the user.
    Event(Event),
    /// A cursor position report (`column`, `row`).
    CursorPosition(u16, u16),
    /// A reply to the extended cursor position request (`column`, `row`).
    ExtendedCursorPosition(u16, u16),
    /// A cursor position report on the first row that could as well be the F3 key
    /// pressed with these modifiers.
    CursorPositionOrF3(u16, u16, KeyModifiers),
    /// A reply to the color query of a slot.
    OscColor { slot: u8, payload: OscColorPayload },
    /// The active keyboard enhancements.
    KeyboardEnhancementFlags(KeyboardEnhancementFlags),
    /// Attributes and architectural class of the terminal.
    PrimaryDeviceAttributes,
}

/// A key alone is a press of that key, whichever it is, with no modifier held.
pub proof fn law_key_alone_is_its_press(code: KeyCode)
    ensures
        <KeyEvent as vstd::std_specs::convert::FromSpec<KeyCode>>::obeys_from_spec(),
        <KeyEvent as vstd::std_specs::convert::FromSpec<KeyCode>>::from_spec(code).code == code,
        <KeyEvent as vstd::std_specs::convert::FromSpec<KeyCode>>::from_spec(code).modifiers.bits
            == 0,
        <KeyEvent as vstd::std_specs::convert::FromSpec<KeyCode>>::from_spec(code).kind
            == KeyEventKind::Press,
{
}

} // verus!
