//! Desktop notifications of the terminal UI.
//!
//! Decides when a desktop notification is due — for events like reply
//! completion, approval requests, and errors — while the terminal is not
//! focused.  Delivering the notification (a platform command) is the
//! caller's I/O.

use vstd::prelude::*;
use std::sync::Arc;
use std::sync::atomic::AtomicBool;

verus! {

/// Types of desktop notifications that can be sent.
#[derive(Debug, Clone, Copy, PartialEq, Eq, Structural)]
pub enum NotificationType {
    /// AI reply has completed — user can now see the full response.
    ReplyComplete,
    /// User approval is required (e.g., a tool call needs confirmation).
    NeedApproval,
    /// An error occurred during processing.
    Error,
}

pub open spec fn title_of(t: NotificationType) -> Seq<char> {
    match t {
        NotificationType::ReplyComplete => "Loom TUI"@,
        NotificationType::NeedApproval => "Loom TUI"@,
        NotificationType::Error => "Loom TUI — Error"@,
    }
}

pub open spec fn body_of(t: NotificationType) -> Seq<char> {
    match t {
        NotificationType::ReplyComplete => "AI reply has completed"@,
        NotificationType::NeedApproval => "Approval required"@,
        NotificationType::Error => "An error occurred"@,
    }
}

impl NotificationType {
    /// Human-readable notification title.
    pub fn title(&self) -> (r: &'static str)
        ensures
            r@ == title_of(*self),
    {
        match self {
            NotificationType::ReplyComplete => "Loom TUI",
            NotificationType::NeedApproval => "Loom TUI",
            NotificationType::Error => "Loom TUI — Error",
        }
    }

    /// Human-readable notification body message.
    pub fn body(&self) -> (r: &'static str)
        ensures
            r@ == body_of(*self),
    {
        match self {
            NotificationType::ReplyComplete => "AI reply has completed",
            NotificationType::NeedApproval => "Approval required",
            NotificationType::Error => "An error occurred",
        }
    }
}

/// Whether a notification is due: notifications are enabled and the
/// terminal is not focused.
pub fn should_notify(enabled: bool, focused: bool) -> (b: bool)
    ensures
        b == (enabled && !focused),
{
    enabled && !focused
}

/// Desktop notification manager.
///
/// Tracks terminal focus state, shared through an `Arc<AtomicBool>` so the
/// focus event handler (on any thread) can update it without locking.
pub struct NotificationManager {
    /// Whether the terminal window is currently focused.
    terminal_focused: Arc<AtomicBool>,
    /// Whether desktop notifications are enabled globally.
    enabled: bool,
}

impl NotificationManager {
    pub closed spec fn spec_enabled(&self) -> bool {
        self.enabled
    }

    pub closed spec fn spec_flag(&self) -> Arc<AtomicBool> {
        self.terminal_focused
    }

    /// Create a new notification manager.
    ///
    /// `enabled` controls whether notifications are sent at all.  The initial
    /// focus state is `true` (the terminal is assumed focused at startup).
    pub fn new(enabled: bool) -> (m: Self)
        ensures
            m.spec_enabled() == enabled,
    {
        NotificationManager { terminal_focused: Arc::new(AtomicBool::new(true)), enabled }
    }

    /// Whether notifications are enabled.
    pub fn is_enabled(&self) -> (b: bool)
        ensures
            b == self.spec_enabled(),
    {
        self.enabled
    }

    /// Get the focus state handle for cross-thread sharing: store `false`
    /// when the terminal loses focus and `true` when it regains it.
    pub fn focus_state(&self) -> (r: Arc<AtomicBool>)
        ensures
            r == self.spec_flag(),
    {
        self.terminal_focused.clone()
    }

    /// The notification (title and body) to deliver for `notif_type`, or
    /// `None` when notifications are disabled or the terminal is focused.
    ///
    /// The focus flag is read once; when enabled, the answer is `Some` exactly
    /// when that read saw an unfocused terminal (see [`should_notify`]).
    pub fn pending_notification(&self, notif_type: NotificationType) -> (r: Option<
        (&'static str, &'static str),
    >)
        ensures
            !self.spec_enabled() ==> r is None,
            r matches Some(p) ==> p.0@ == title_of(notif_type) && p.1@ == body_of(notif_type),
    {
        if !self.enabled {
            return None;
        }
        let focused = self.terminal_focused.load(std::sync::atomic::Ordering::Relaxed);
        if should_notify(self.enabled, focused) {
            Some((notif_type.title(), notif_type.body()))
        } else {
            None
        }
    }
}

} // verus!
