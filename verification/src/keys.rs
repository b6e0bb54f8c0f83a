//! Key events, as plain values.

use vstd::prelude::*;

verus! {

/// A key.
#[derive(Clone, Copy, Debug, PartialEq, Eq, Structural)]
pub enum KeyCode {
    Backspace,
    Enter,
    Left,
    Right,
    Up,
    Down,
    Home,
    End,
    PageUp,
    PageDown,
    Tab,
    BackTab,
    Delete,
    Insert,
    /// A function key, by its number.
    F(u8),
    /// A character key.
    Char(char),
    Null,
    Esc,
}

/// The modifier keys held down with a key.
#[derive(Clone, Copy, Debug, PartialEq, Eq, Structural)]
pub struct KeyModifiers {
    pub shift: bool,
    pub control: bool,
    pub alt: bool,
}

/// A key together with its modifiers.
#[derive(Clone, Copy, Debug, PartialEq, Eq, Structural)]
pub struct KeyEvent {
    pub code: KeyCode,
    pub modifiers: KeyModifiers,
}

/// An event of the terminal.
#[derive(Clone, Copy, Debug, PartialEq, Eq, Structural)]
pub enum Event {
    /// A key was pressed.
    Key(KeyEvent),
    /// The mouse was used.
    Mouse,
    /// The terminal was resized to the given columns and rows.
    Resize(u16, u16),
}

/// The keys that a component reacts to.
#[derive(Clone, Copy, Debug, PartialEq, Eq, Structural)]
pub struct KeyConfig {
    /// Closes a popup.
    pub exit_popup: KeyEvent,
}

impl KeyModifiers {
    /// No modifier.
    pub open spec fn spec_none() -> KeyModifiers {
        KeyModifiers { shift: false, control: false, alt: false }
    }

    /// No modifier.
    #[verifier::when_used_as_spec(spec_none)]
    pub fn none() -> (res: KeyModifiers)
        ensures
            res == Self::spec_none(),
    {
        KeyModifiers { shift: false, control: false, alt: false }
    }
}

impl KeyEvent {
    /// `code` with no modifier held.
    pub fn plain(code: KeyCode) -> (res: KeyEvent)
        ensures
            res == (KeyEvent { code, modifiers: KeyModifiers::spec_none() }),
    {
        KeyEvent { code, modifiers: KeyModifiers::none() }
    }
}

impl Default for KeyConfig {
    /// Escape closes a popup.
    fn default() -> (res: Self)
        ensures
            res.exit_popup == (KeyEvent {
                code: KeyCode::Esc,
                modifiers: KeyModifiers::spec_none(),
            }),
    {
        KeyConfig { exit_popup: KeyEvent::plain(KeyCode::Esc) }
    }
}

} // verus!
