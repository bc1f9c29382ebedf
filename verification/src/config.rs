//! Configuration snapshots the daemon consumes: per-identity settings,
//! the profile, and the daemon-wide display options.

use vstd::prelude::*;

use crate::classify::CustomWindowRule;
use crate::geometry::{Dimensions, Position};
use crate::store::NamedStore;

verus! {

/// Per-identity persisted geometry and flags.  Created on first
/// observation of an identity, mutated on drag-end and explicit saves.
#[derive(Clone, Copy, Debug)]
pub struct CharacterSettings {
    pub x: i16,
    pub y: i16,
    pub width: u16,
    pub height: u16,
    pub override_render_preview: Option<bool>,
    pub exempt_from_minimize: bool,
}

impl CharacterSettings {
    pub fn new(x: i16, y: i16, width: u16, height: u16) -> (r: CharacterSettings)
        ensures
            r.x == x,
            r.y == y,
            r.width == width,
            r.height == height,
            r.override_render_preview is None,
            !r.exempt_from_minimize,
    {
        CharacterSettings {
            x,
            y,
            width,
            height,
            override_render_preview: None,
            exempt_from_minimize: false,
        }
    }

    pub open spec fn spec_position(self) -> Position {
        Position { x: self.x, y: self.y }
    }

    pub fn position(&self) -> (r: Position)
        ensures
            r == self.spec_position(),
    {
        Position { x: self.x, y: self.y }
    }
}

/// A hotkey binding from the external input listener's configuration.
#[derive(Clone, Copy, Debug, PartialEq, Eq, Structural)]
pub struct HotkeyBinding {
    pub key_code: u16,
    pub ctrl: bool,
    pub shift: bool,
    pub alt: bool,
}

/// The persisted profile the external configuration layer hands over.
pub struct Profile {
    pub character_thumbnails: NamedStore<CharacterSettings>,
    pub custom_source_thumbnails: NamedStore<CharacterSettings>,
    pub custom_windows: Vec<CustomWindowRule>,
    pub hotkey_cycle_group: Vec<String>,
    pub character_hotkey_order: Vec<String>,
    pub character_hotkeys: NamedStore<HotkeyBinding>,
    pub client_minimize_on_switch: bool,
    pub client_minimize_show_overlay: bool,
    pub thumbnail_hide_not_focused: bool,
    pub thumbnail_auto_save_position: bool,
    pub thumbnail_preserve_position_on_swap: bool,
    pub thumbnail_snap_threshold: u16,
    pub default_thumbnail_width: u16,
    pub default_thumbnail_height: u16,
}

/// The configuration snapshot the daemon core works against.
pub struct DaemonConfig {
    pub profile: Profile,
    /// The window classes recognised as game clients.
    pub known_classes: Vec<String>,
    /// Whether thumbnails are rendered at all.
    pub enabled: bool,
    pub active_border_color: u32,
    pub skipped_border_color: u32,
    pub default_border_color: u32,
}

impl DaemonConfig {
    /// The border color of an overlay: the skipped color for a skipped
    /// identity, the active color for the focused one, the default
    /// otherwise.
    pub open spec fn spec_border_color(&self, focused: bool, skipped: bool) -> u32 {
        if skipped {
            self.skipped_border_color
        } else if focused {
            self.active_border_color
        } else {
            self.default_border_color
        }
    }

    pub fn border_color(&self, focused: bool, skipped: bool) -> (r: u32)
        ensures
            r == self.spec_border_color(focused, skipped),
    {
        if skipped {
            self.skipped_border_color
        } else if focused {
            self.active_border_color
        } else {
            self.default_border_color
        }
    }

    /// The fallback thumbnail size for an identity without saved
    /// dimensions: the profile default where one is configured, else an
    /// eighth of the screen.
    pub open spec fn spec_default_thumbnail_size(&self, screen_w: u16, screen_h: u16) -> (
        u16,
        u16,
    ) {
        (
            if self.profile.default_thumbnail_width > 0 {
                self.profile.default_thumbnail_width
            } else {
                (screen_w / 8) as u16
            },
            if self.profile.default_thumbnail_height > 0 {
                self.profile.default_thumbnail_height
            } else {
                (screen_h / 8) as u16
            },
        )
    }

    pub fn default_thumbnail_size(&self, screen_w: u16, screen_h: u16) -> (r: (u16, u16))
        ensures
            r == self.spec_default_thumbnail_size(screen_w, screen_h),
    {
        let w: u16 = if self.profile.default_thumbnail_width > 0 {
            self.profile.default_thumbnail_width
        } else {
            screen_w / 8
        };
        let h: u16 = if self.profile.default_thumbnail_height > 0 {
            self.profile.default_thumbnail_height
        } else {
            screen_h / 8
        };
        (w, h)
    }

    /// The dimensions a new thumbnail gets: the identity's saved
    /// dimensions where they are set, the scaled default where they are
    /// zero or absent.
    pub open spec fn spec_thumbnail_dimensions(
        &self,
        settings: Option<CharacterSettings>,
        screen_w: u16,
        screen_h: u16,
    ) -> Dimensions {
        let d = self.spec_default_thumbnail_size(screen_w, screen_h);
        match settings {
            Some(s) => {
                if s.width == 0 || s.height == 0 {
                    Dimensions { width: d.0, height: d.1 }
                } else {
                    Dimensions { width: s.width, height: s.height }
                }
            },
            None => Dimensions { width: d.0, height: d.1 },
        }
    }

    pub fn thumbnail_dimensions(
        &self,
        settings: &Option<CharacterSettings>,
        screen_w: u16,
        screen_h: u16,
    ) -> (r: Dimensions)
        ensures
            r == self.spec_thumbnail_dimensions(*settings, screen_w, screen_h),
    {
        match settings {
            Some(s) => {
                if s.width == 0 || s.height == 0 {
                    let d = self.default_thumbnail_size(screen_w, screen_h);
                    Dimensions { width: d.0, height: d.1 }
                } else {
                    Dimensions { width: s.width, height: s.height }
                }
            },
            None => {
                let d = self.default_thumbnail_size(screen_w, screen_h);
                Dimensions { width: d.0, height: d.1 }
            },
        }
    }
}

} // verus!
