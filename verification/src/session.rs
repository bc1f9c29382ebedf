//! Session state: the identity last seen on each window (for position
//! inheritance on character swap), the cached saved positions, and the
//! focus-loss auto-hide deadline.

use vstd::prelude::*;

use crate::config::CharacterSettings;
use crate::geometry::Position;
use crate::store::{lookup_by_name, lookup_by_window, NamedStore, WindowNames};

verus! {

/// How long after an unanswered focus loss the thumbnails hide, in
/// milliseconds.
pub const FOCUS_LOSS_DELAY_MS: u64 = 100;

pub struct SessionState {
    /// The identity last observed on each source window.
    pub last_character_by_window: WindowNames,
    /// A cache of the last persisted position per identity.
    pub saved_positions: NamedStore<Position>,
    /// When set, the instant (in milliseconds) at which thumbnails
    /// auto-hide unless focus returns first.
    pub focus_loss_deadline: Option<u64>,
}

/// The position a newly observed identity starts at: its own persisted
/// position where one exists; failing that, and only when inheritance is
/// enabled, the persisted position of the identity previously observed
/// on the same window; else nothing, and the caller falls back to a
/// default placement.
pub open spec fn spec_starting_position(
    name: Seq<char>,
    window: u32,
    settings: Seq<(String, CharacterSettings)>,
    last_by_window: Seq<(u32, String)>,
    preserve_on_swap: bool,
) -> Option<Position> {
    match lookup_by_name(settings, name) {
        Some(s) => Some(s.spec_position()),
        None => {
            if preserve_on_swap {
                match lookup_by_window(last_by_window, window) {
                    Some(prev) => match lookup_by_name(settings, prev) {
                        Some(s) => Some(s.spec_position()),
                        None => None,
                    },
                    None => None,
                }
            } else {
                None
            }
        },
    }
}

impl SessionState {
    pub fn new() -> (r: SessionState)
        ensures
            forall|w: u32| r.last_character_by_window.spec_get(w) is None,
            forall|k: Seq<char>| r.saved_positions.spec_get(k) is None,
            r.focus_loss_deadline is None,
    {
        SessionState {
            last_character_by_window: WindowNames::new(),
            saved_positions: NamedStore::new(),
            focus_loss_deadline: None,
        }
    }

    /// Records which identity a window currently carries.
    pub fn update_last_character(&mut self, window: u32, name: &str)
        ensures
            final(self).last_character_by_window.spec_get(window) == Some(name@),
            forall|w2: u32|
                w2 != window ==> final(self).last_character_by_window.spec_get(w2) == old(
                    self,
                ).last_character_by_window.spec_get(w2),
            final(self).saved_positions == old(self).saved_positions,
            final(self).focus_loss_deadline == old(self).focus_loss_deadline,
    {
        self.last_character_by_window.insert(window, name.to_owned());
    }

    /// Caches the position last persisted for the identity carried by
    /// `window`, if any identity was recorded there.
    pub fn update_window_position(&mut self, window: u32, x: i16, y: i16)
        ensures
            match old(self).last_character_by_window.spec_get(window) {
                Some(name) => {
                    &&& final(self).saved_positions.spec_get(name) == Some(Position { x, y })
                    &&& forall|k2: Seq<char>|
                        k2 != name ==> final(self).saved_positions.spec_get(k2) == old(
                            self,
                        ).saved_positions.spec_get(k2)
                },
                None => final(self).saved_positions == old(self).saved_positions,
            },
            final(self).last_character_by_window == old(self).last_character_by_window,
            final(self).focus_loss_deadline == old(self).focus_loss_deadline,
    {
        let name = self.last_character_by_window.get(window);
        match name {
            Some(n) => {
                self.saved_positions.insert(n, Position { x, y });
            },
            None => {},
        }
    }

    /// Looks up where a thumbnail for `name` on `window` should start.
    pub fn get_position(
        &self,
        name: &str,
        window: u32,
        character_thumbnails: &NamedStore<CharacterSettings>,
        preserve_on_swap: bool,
    ) -> (r: Option<Position>)
        ensures
            r == spec_starting_position(
                name@,
                window,
                character_thumbnails.entries@,
                self.last_character_by_window.entries@,
                preserve_on_swap,
            ),
    {
        match character_thumbnails.get(name) {
            Some(s) => Some(s.position()),
            None => {
                if preserve_on_swap {
                    match self.last_character_by_window.get(window) {
                        Some(prev) => match character_thumbnails.get(prev.as_str()) {
                            Some(s) => Some(s.position()),
                            None => None,
                        },
                        None => None,
                    }
                } else {
                    None
                }
            },
        }
    }

    /// Schedules the auto-hide deadline after a focus loss.
    pub fn schedule_hide(&mut self, now: u64)
        requires
            now + FOCUS_LOSS_DELAY_MS <= u64::MAX,
        ensures
            final(self).focus_loss_deadline == Some((now + FOCUS_LOSS_DELAY_MS) as u64),
            final(self).last_character_by_window == old(self).last_character_by_window,
            final(self).saved_positions == old(self).saved_positions,
    {
        self.focus_loss_deadline = Some(now + FOCUS_LOSS_DELAY_MS);
    }

    /// Cancels a pending auto-hide.
    pub fn cancel_hide(&mut self)
        ensures
            final(self).focus_loss_deadline is None,
            final(self).last_character_by_window == old(self).last_character_by_window,
            final(self).saved_positions == old(self).saved_positions,
    {
        self.focus_loss_deadline = None;
    }

    pub open spec fn spec_hide_due(&self, now: u64) -> bool {
        match self.focus_loss_deadline {
            Some(d) => now >= d,
            None => false,
        }
    }

    /// Whether the auto-hide deadline has elapsed.
    pub fn hide_due(&self, now: u64) -> (r: bool)
        ensures
            r == self.spec_hide_due(now),
    {
        match self.focus_loss_deadline {
            Some(d) => now >= d,
            None => false,
        }
    }
}

/// Auto-hide hysteresis, first half: a focus return cancels the pending
/// hide, so the hide never fires afterwards, however late the clock runs.
pub proof fn lemma_hysteresis_cancelled(s: SessionState, now: u64)
    requires
        s.focus_loss_deadline is None,
    ensures
        !s.spec_hide_due(now),
{
}

/// Auto-hide hysteresis, second half: a hide scheduled at `t` is not due
/// before `t + 100` ms and is due from then on.
pub proof fn lemma_hysteresis_fires(s: SessionState, t: u64, now: u64)
    requires
        t + FOCUS_LOSS_DELAY_MS <= u64::MAX,
        s.focus_loss_deadline == Some((t + FOCUS_LOSS_DELAY_MS) as u64),
    ensures
        now < t + FOCUS_LOSS_DELAY_MS ==> !s.spec_hide_due(now),
        now >= t + FOCUS_LOSS_DELAY_MS ==> s.spec_hide_due(now),
{
}

/// Position inheritance: when identity `prev` was observed on a window
/// and a fresh identity without persisted settings appears there with
/// inheritance enabled, the fresh identity starts at `prev`'s persisted
/// position.
pub proof fn lemma_position_inherited(
    name: Seq<char>,
    window: u32,
    settings: Seq<(String, CharacterSettings)>,
    last_by_window: Seq<(u32, String)>,
    prev: Seq<char>,
    prev_settings: CharacterSettings,
)
    requires
        lookup_by_name(settings, name) is None,
        lookup_by_window(last_by_window, window) == Some(prev),
        lookup_by_name(settings, prev) == Some(prev_settings),
    ensures
        spec_starting_position(name, window, settings, last_by_window, true) == Some(
            prev_settings.spec_position(),
        ),
{
}

} // verus!
