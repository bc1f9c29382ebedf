//! The commands the external hotkey listener sends the daemon.

use vstd::prelude::*;

use crate::config::HotkeyBinding;

verus! {

/// A hotkey command from the input listener.
#[derive(Debug, Clone, PartialEq, Eq, Structural)]
pub enum CycleCommand {
    /// Cycle to the next identity in the group.
    Forward,
    /// Cycle to the previous identity in the group.
    Backward,
    /// Jump straight to the character this binding belongs to.
    CharacterHotkey(HotkeyBinding),
    /// Swap to the profile this binding belongs to.
    ProfileHotkey(HotkeyBinding),
    /// Toggle the skip flag of the current identity.
    ToggleSkip,
}

/// A command with the timestamp of the input event that produced it, so
/// the daemon can hand the provoking event's time to the window manager.
#[derive(Debug, Clone)]
pub struct TimestampedCommand {
    pub command: CycleCommand,
    /// Display-server compatible timestamp, in milliseconds.
    pub timestamp: u32,
}

} // verus!
