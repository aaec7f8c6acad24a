//! The keys the picker reacts to, and what each of them asks for.
use vstd::prelude::*;

use crate::goto::GotoCategory;

verus! {

/// A key, as far as the picker tells keys apart.
#[derive(PartialEq, Eq, Structural, Clone, Copy, Debug)]
pub enum KeyCode {
    Backspace,
    Enter,
    Up,
    Down,
    Home,
    End,
    PageUp,
    PageDown,
    Esc,
    Char(char),
    /// Any other key.
    Other,
}

/// No modifier held. The modifier bits are those of the terminal's key
/// events: shift 1, control 2, alt 4, super 8, hyper 16, meta 32.
pub const NO_MODIFIERS: u8 = 0;

pub const SHIFT: u8 = 1;

pub const CONTROL: u8 = 2;

pub const ALT: u8 = 4;

/// A key with the set of modifiers held, as bits.
#[derive(PartialEq, Eq, Structural, Clone, Copy, Debug)]
pub struct KeyPress {
    pub code: KeyCode,
    pub modifiers: u8,
}

impl KeyPress {
    pub fn new(code: KeyCode, modifiers: u8) -> (k: KeyPress)
        ensures
            k.code == code,
            k.modifiers == modifiers,
    {
        KeyPress { code, modifiers }
    }
}

/// What a key asks the picker to do.
#[derive(PartialEq, Eq, Structural, Clone, Copy, Debug)]
pub enum GotoAction {
    /// Close the picker without going anywhere.
    Leave,
    /// Go to the row under the cursor and close the picker.
    Apply,
    CursorUp,
    CursorDown,
    PageUp,
    PageDown,
    Home,
    End,
    /// Remove the last character of the filter.
    Backspace,
    /// Narrow to a category, or lift it if it is the one in force.
    ToggleCategory(GotoCategory),
    /// Add a character to the filter.
    Type(char),
    Ignore,
}

/// The action of a key: the first matching rule wins. Esc leaves and Enter
/// applies whatever the modifiers; Up or Ctrl-P, Down or Ctrl-N move by one;
/// Alt with t, w, a or b toggles tabs, workspaces, agents or blocked agents;
/// any other character typed alone or with Shift goes into the filter.
pub open spec fn key_action(key: KeyPress) -> GotoAction {
    match key.code {
        KeyCode::Esc => GotoAction::Leave,
        KeyCode::Enter => GotoAction::Apply,
        KeyCode::Up => GotoAction::CursorUp,
        KeyCode::Down => GotoAction::CursorDown,
        KeyCode::PageUp => GotoAction::PageUp,
        KeyCode::PageDown => GotoAction::PageDown,
        KeyCode::Home => GotoAction::Home,
        KeyCode::End => GotoAction::End,
        KeyCode::Backspace => GotoAction::Backspace,
        KeyCode::Char(c) => {
            if c == 'p' && key.modifiers == CONTROL {
                GotoAction::CursorUp
            } else if c == 'n' && key.modifiers == CONTROL {
                GotoAction::CursorDown
            } else if c == 't' && key.modifiers == ALT {
                GotoAction::ToggleCategory(GotoCategory::Tabs)
            } else if c == 'w' && key.modifiers == ALT {
                GotoAction::ToggleCategory(GotoCategory::Workspaces)
            } else if c == 'a' && key.modifiers == ALT {
                GotoAction::ToggleCategory(GotoCategory::Agents)
            } else if c == 'b' && key.modifiers == ALT {
                GotoAction::ToggleCategory(GotoCategory::BlockedAgents)
            } else if key.modifiers == NO_MODIFIERS || key.modifiers == SHIFT {
                GotoAction::Type(c)
            } else {
                GotoAction::Ignore
            }
        },
        KeyCode::Other => GotoAction::Ignore,
    }
}

pub fn classify_key(key: KeyPress) -> (r: GotoAction)
    ensures
        r == key_action(key),
{
    match key.code {
        KeyCode::Esc => GotoAction::Leave,
        KeyCode::Enter => GotoAction::Apply,
        KeyCode::Up => GotoAction::CursorUp,
        KeyCode::Down => GotoAction::CursorDown,
        KeyCode::PageUp => GotoAction::PageUp,
        KeyCode::PageDown => GotoAction::PageDown,
        KeyCode::Home => GotoAction::Home,
        KeyCode::End => GotoAction::End,
        KeyCode::Backspace => GotoAction::Backspace,
        KeyCode::Char(c) => {
            let m = key.modifiers;
            if c == 'p' && m == CONTROL {
                GotoAction::CursorUp
            } else if c == 'n' && m == CONTROL {
                GotoAction::CursorDown
            } else if c == 't' && m == ALT {
                GotoAction::ToggleCategory(GotoCategory::Tabs)
            } else if c == 'w' && m == ALT {
                GotoAction::ToggleCategory(GotoCategory::Workspaces)
            } else if c == 'a' && m == ALT {
                GotoAction::ToggleCategory(GotoCategory::Agents)
            } else if c == 'b' && m == ALT {
                GotoAction::ToggleCategory(GotoCategory::BlockedAgents)
            } else if m == NO_MODIFIERS || m == SHIFT {
                GotoAction::Type(c)
            } else {
                GotoAction::Ignore
            }
        },
        KeyCode::Other => GotoAction::Ignore,
    }
}

} // verus!
