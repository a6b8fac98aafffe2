//! Key presses as plain values.

use vstd::prelude::*;

verus! {

/// Which key was pressed.
#[derive(Debug, Clone, Copy, PartialEq, Eq, Hash, Structural)]
pub enum KeyCode {
    /// A character key.
    Char(char),
    /// A function key, by its number.
    F(u8),
    Backspace,
    Enter,
    Left,
    Right,
    Up,
    Down,
    Tab,
    Delete,
    Home,
    End,
    PageUp,
    PageDown,
    Esc,
    /// A key that means nothing to the agent.
    Null,
}

/// Which modifier keys were held.
#[derive(Debug, Clone, Copy, PartialEq, Eq, Hash, Structural)]
pub struct KeyModifiers {
    pub ctrl: bool,
    pub alt: bool,
    pub shift: bool,
}

/// One key press.
#[derive(Debug, Clone, Copy, PartialEq, Eq, Hash, Structural)]
pub struct KeyEvent {
    pub code: KeyCode,
    pub modifiers: KeyModifiers,
}

impl KeyModifiers {
    /// No modifier held.
    pub fn none() -> (m: Self)
        ensures
            m == (KeyModifiers { ctrl: false, alt: false, shift: false }),
    {
        KeyModifiers { ctrl: false, alt: false, shift: false }
    }

    /// Only the control key held.
    pub fn control() -> (m: Self)
        ensures
            m == (KeyModifiers { ctrl: true, alt: false, shift: false }),
    {
        KeyModifiers { ctrl: true, alt: false, shift: false }
    }
}

impl KeyEvent {
    /// The press of `code` with `modifiers` held.
    pub fn new(code: KeyCode, modifiers: KeyModifiers) -> (key: Self)
        ensures
            key == (KeyEvent { code, modifiers }),
    {
        KeyEvent { code, modifiers }
    }

    /// Whether this is control-C, which quits from every state.
    pub open spec fn is_interrupt(&self) -> bool {
        self.modifiers.ctrl && self.code == KeyCode::Char('c')
    }

    /// Whether this is the escape key, which cancels or quits.
    pub open spec fn is_escape(&self) -> bool {
        self.code == KeyCode::Esc
    }
}

impl KeyCode {
    /// Whether the key is one that changes text: a character, Enter, Tab,
    /// Backspace or Delete.
    pub open spec fn edits_text(&self) -> bool {
        match self {
            KeyCode::Char(_) | KeyCode::Enter | KeyCode::Tab | KeyCode::Backspace
            | KeyCode::Delete => true,
            _ => false,
        }
    }

    /// Whether the key moves the cursor.
    pub open spec fn moves_cursor(&self) -> bool {
        match self {
            KeyCode::Left | KeyCode::Right | KeyCode::Up | KeyCode::Down | KeyCode::Home
            | KeyCode::End | KeyCode::PageUp | KeyCode::PageDown => true,
            _ => false,
        }
    }

    /// Whether the key moves the cursor.
    pub fn is_movement(&self) -> (b: bool)
        ensures
            b == self.moves_cursor(),
    {
        match self {
            KeyCode::Left | KeyCode::Right | KeyCode::Up | KeyCode::Down | KeyCode::Home
            | KeyCode::End | KeyCode::PageUp | KeyCode::PageDown => true,
            _ => false,
        }
    }
}

} // verus!
