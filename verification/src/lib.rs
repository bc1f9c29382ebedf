//! Core of a window preview manager for a multi-client game.
//!
//! The library holds the verified logic of the daemon: geometry and
//! fixed-point conversion, the snap solver used during drags, the window
//! classifier, the session state (position inheritance, auto-hide deadline,
//! cycle anchor), the thumbnail registry with its event handlers, the
//! pixel math of the text renderer, and the window-manager message plans.
//! The thin shell that talks to the display server lives outside and feeds
//! these functions plain values.

pub mod classify;
pub mod config;
pub mod cycle;
pub mod dispatch;
pub mod geometry;
pub mod guistate;
pub mod hotkeys;
pub mod render;
pub mod scan;
pub mod session;
pub mod snap;
pub mod sources;
pub mod store;
pub mod text;
pub mod thumbs;
pub mod wmmsg;

pub use geometry::{Dimensions, Position, Rect};
