//! Terminal events as the UI loop sees them, and the translation of raw
//! terminal input into them.  Reading the terminal and the timer that asks
//! for redraws are the caller's part.

use vstd::prelude::*;
use crate::key::{KeyCode, KeyEvent};

verus! {

/// Events delivered to the UI loop.
#[derive(Debug, Clone, PartialEq, Eq)]
pub enum TuiEvent {
    /// A key press.
    Key(KeyEvent),
    /// Pasted text.
    Paste(String),
    /// The terminal was resized to (columns, rows).
    Resize(u16, u16),
    /// Time to redraw.
    Draw,
    /// The process was resumed after a suspension.
    Resume,
    /// The user asked to suspend the process (`Ctrl+Z`).
    Suspend,
    /// The terminal gained focus.
    FocusGained,
    /// The terminal lost focus.
    FocusLost,
}

/// Raw input read from the terminal.
#[derive(Debug, Clone, PartialEq, Eq)]
pub enum TermEvent {
    Key(KeyEvent),
    Paste(String),
    Resize(u16, u16),
    FocusGained,
    FocusLost,
    /// Mouse input and anything else the UI ignores.
    Other,
}

/// Whether a key is `Ctrl+Z`.
pub open spec fn is_suspend_key(k: KeyEvent) -> bool {
    k.code == KeyCode::Char('z') && k.modifiers.control
}

/// The event that raw input becomes: `Ctrl+Z` asks to suspend, other keys,
/// pastes, resizes and focus changes pass through, anything else is dropped.
pub open spec fn translated(e: TermEvent) -> Option<TuiEvent> {
    match e {
        TermEvent::Key(k) => if is_suspend_key(k) {
            Some(TuiEvent::Suspend)
        } else {
            Some(TuiEvent::Key(k))
        },
        TermEvent::Paste(t) => Some(TuiEvent::Paste(t)),
        TermEvent::Resize(w, h) => Some(TuiEvent::Resize(w, h)),
        TermEvent::FocusGained => Some(TuiEvent::FocusGained),
        TermEvent::FocusLost => Some(TuiEvent::FocusLost),
        TermEvent::Other => None,
    }
}

/// Translates raw terminal input into a UI event (see [`translated`]).
pub fn translate_event(e: TermEvent) -> (r: Option<TuiEvent>)
    ensures
        r == translated(e),
{
    match e {
        TermEvent::Key(k) => {
            let is_z = match k.code {
                KeyCode::Char(c) => c == 'z',
                _ => false,
            };
            if is_z && k.modifiers.control {
                Some(TuiEvent::Suspend)
            } else {
                Some(TuiEvent::Key(k))
            }
        },
        TermEvent::Paste(t) => Some(TuiEvent::Paste(t)),
        TermEvent::Resize(w, h) => Some(TuiEvent::Resize(w, h)),
        TermEvent::FocusGained => Some(TuiEvent::FocusGained),
        TermEvent::FocusLost => Some(TuiEvent::FocusLost),
        TermEvent::Other => None,
    }
}

} // verus!
