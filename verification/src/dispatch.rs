//! The event dispatcher: each handler is a pure transition from the
//! daemon's model state and one event to the next model state and the
//! display-server commands to issue.  The thin shell around the library
//! performs the commands in order and feeds the next event back in.

use vstd::prelude::*;

use crate::config::{DaemonConfig, HotkeyBinding};
use crate::cycle::CycleState;
use crate::geometry::{Dimensions, Position, Rect};
use crate::snap;
use crate::thumbs::{
    spec_first_dragging, spec_first_hovered, spec_index_of_src, spec_snap_targets_of,
    spec_tracks_src, ClientRegistry, Thumbnail, ThumbnailState,
};

verus! {

/// The left pointer button: click to focus.
pub const BUTTON_LEFT: u8 = 1;

/// The right pointer button: hold to drag.
pub const BUTTON_RIGHT: u8 = 3;

/// A display-server command a handler asks the shell to issue.
#[derive(Debug, Clone, PartialEq, Eq)]
pub enum Action {
    /// Raise and focus a source window, with the event's timestamp.
    Activate { window: u32, time: u32 },
    /// Ask the window manager to iconify a source window.
    Minimize { window: u32 },
    /// Ask the window manager to restore a source window.
    Unminimize { window: u32 },
    /// Move an overlay window.
    Reposition { overlay: u32, x: i16, y: i16 },
    /// Repaint an overlay's border.
    PaintBorder { overlay: u32, focused: bool, skipped: bool },
    /// Repaint an overlay as minimized.
    PaintMinimized { overlay: u32 },
    /// Map or unmap an overlay.
    SetVisibility { overlay: u32, visible: bool },
    /// Recomposite an overlay from its source.
    Repaint { overlay: u32 },
    /// Flush the connection so earlier commands become visible.
    Flush,
    /// Tell the configuration layer that a thumbnail moved.
    PositionChanged { name: String, x: i16, y: i16, width: u16, height: u16, is_custom: bool },
    /// Ask the outer layer to swap the active profile.
    SwapProfile { binding: HotkeyBinding },
}

/// A pointer button event, in root coordinates.
#[derive(Clone, Copy, Debug)]
pub struct ButtonEvent {
    pub root_x: i16,
    pub root_y: i16,
    pub detail: u8,
    pub time: u32,
}

/// How a focus event was provoked.
#[derive(Clone, Copy, Debug, PartialEq, Eq, Structural)]
pub enum NotifyMode {
    Normal,
    Grab,
    Ungrab,
    WhileGrabbed,
}

/// A focus change event.
#[derive(Clone, Copy, Debug)]
pub struct FocusEvent {
    pub window: u32,
    pub mode: NotifyMode,
}

/// Finds the first visible thumbnail under the pointer.
fn first_hovered(reg: &ClientRegistry, x: i16, y: i16) -> (r: Option<usize>)
    ensures
        ({
            let s = spec_first_hovered(reg.thumbs@, x as int, y as int);
            match r {
                Some(i) => i < reg.thumbs@.len() && s == Some(i as int),
                None => s is None,
            }
        }),
{
    let ghost ts = reg.thumbs@;
    proof {
        assert(ts.skip(0) =~= ts);
    }
    let mut i: usize = 0;
    while i < reg.thumbs.len()
        invariant
            i <= ts.len(),
            ts == reg.thumbs@,
            ({
                let s = spec_first_hovered(ts, x as int, y as int);
                let t = spec_first_hovered(ts.skip(i as int), x as int, y as int);
                match t {
                    Some(j) => s == Some(j + i),
                    None => s is None,
                }
            }),
        decreases ts.len() - i,
    {
        proof {
            assert(ts.skip(i as int)[0] == ts[i as int]);
        }
        if self_hovered(&reg.thumbs[i], x, y) {
            return Some(i);
        }
        proof {
            assert(ts.skip(i as int).drop_first() =~= ts.skip(i + 1));
        }
        i = i + 1;
    }
    proof {
        assert(ts.skip(ts.len() as int).len() == 0);
    }
    None
}

fn self_hovered(t: &Thumbnail, x: i16, y: i16) -> (r: bool)
    ensures
        r == (t.visible && t.spec_rect().spec_contains_point(x as int, y as int)),
{
    t.is_visible() && t.is_hovered(x, y)
}

/// Finds the thumbnail currently being dragged.
fn first_dragging(reg: &ClientRegistry) -> (r: Option<usize>)
    ensures
        ({
            let s = spec_first_dragging(reg.thumbs@);
            match r {
                Some(i) => i < reg.thumbs@.len() && s == Some(i as int) && reg.thumbs@[
                    i as int
                ].input_state.dragging,
                None => s is None,
            }
        }),
{
    let ghost ts = reg.thumbs@;
    proof {
        assert(ts.skip(0) =~= ts);
    }
    let mut i: usize = 0;
    while i < reg.thumbs.len()
        invariant
            i <= ts.len(),
            ts == reg.thumbs@,
            ({
                let s = spec_first_dragging(ts);
                let t = spec_first_dragging(ts.skip(i as int));
                match t {
                    Some(j) => s == Some(j + i),
                    None => s is None,
                }
            }),
        decreases ts.len() - i,
    {
        proof {
            assert(ts.skip(i as int)[0] == ts[i as int]);
        }
        if reg.thumbs[i].input_state.dragging {
            return Some(i);
        }
        proof {
            assert(ts.skip(i as int).drop_first() =~= ts.skip(i + 1));
        }
        i = i + 1;
    }
    proof {
        assert(ts.skip(ts.len() as int).len() == 0);
    }
    None
}

/// Collects the geometries of every visible thumbnail other than the one
/// mirroring `skip_src`, in registry order: the snapshot a drag freezes.
fn collect_snap_targets(reg: &ClientRegistry, skip_src: u32) -> (r: Vec<Rect>)
    ensures
        r@ == spec_snap_targets_of(reg.thumbs@, skip_src),
{
    let ghost ts = reg.thumbs@;
    let mut out: Vec<Rect> = Vec::new();
    proof {
        assert(ts.subrange(0, 0) =~= Seq::<Thumbnail>::empty());
    }
    let mut i: usize = 0;
    while i < reg.thumbs.len()
        invariant
            i <= ts.len(),
            ts == reg.thumbs@,
            out@ == spec_snap_targets_of(ts.subrange(0, i as int), skip_src),
        decreases ts.len() - i,
    {
        let t = &reg.thumbs[i];
        if t.is_visible() && t.src != skip_src {
            let rect = Rect {
                x: t.position.x,
                y: t.position.y,
                width: t.dimensions.width,
                height: t.dimensions.height,
            };
            out.push(rect);
        }
        proof {
            let next = ts.subrange(0, i + 1);
            assert(next.drop_last() =~= ts.subrange(0, i as int));
            assert(next.last() == ts[i as int]);
        }
        i = i + 1;
    }
    proof {
        assert(ts.subrange(0, ts.len() as int) =~= ts);
    }
    out
}

/// What a ButtonPress leaves behind on the pressed thumbnail.
pub open spec fn spec_button_press_result(
    old_ts: Seq<Thumbnail>,
    new_ts: Seq<Thumbnail>,
    i: int,
    ev: ButtonEvent,
) -> bool {
    let t0 = old_ts[i];
    let t1 = new_ts[i];
    &&& new_ts.len() == old_ts.len()
    &&& forall|j: int| 0 <= j < old_ts.len() && j != i ==> new_ts[j] == old_ts[j]
    &&& t1.src == t0.src
    &&& t1.overlay == t0.overlay
    &&& t1.character_name == t0.character_name
    &&& t1.position == t0.position
    &&& t1.dimensions == t0.dimensions
    &&& t1.state == t0.state
    &&& t1.visible == t0.visible
    &&& t1.input_state.drag_start == (Position { x: ev.root_x, y: ev.root_y })
    &&& t1.input_state.win_start == t0.position
    &&& if ev.detail == BUTTON_RIGHT {
        t1.input_state.dragging && t1.input_state.snap_targets@ == spec_snap_targets_of(
            old_ts,
            t0.src,
        )
    } else {
        t1.input_state.dragging == t0.input_state.dragging
            && t1.input_state.snap_targets == t0.input_state.snap_targets
    }
}

/// ButtonPress: on a visible thumbnail under the pointer, record where
/// the drag would start; a right press freezes the snap targets and
/// begins the drag, a left press makes the identity the cycle anchor.
pub fn handle_button_press(reg: &mut ClientRegistry, cyc: &mut CycleState, ev: &ButtonEvent)
    requires
        old(reg).wf(),
    ensures
        final(reg).wf(),
        ({
            let old_ts = old(reg).thumbs@;
            match spec_first_hovered(old_ts, ev.root_x as int, ev.root_y as int) {
                None => final(reg).thumbs@ == old_ts && *final(cyc) == *old(cyc),
                Some(i) => {
                    &&& spec_button_press_result(old_ts, final(reg).thumbs@, i, *ev)
                    &&& if ev.detail == BUTTON_LEFT {
                        &&& final(cyc).current matches Some(c) && c@ == old_ts[
                            i
                        ].character_name@
                        &&& final(cyc).current_window == Some(old_ts[i].src)
                        &&& final(cyc).skipped == old(cyc).skipped
                    } else {
                        *final(cyc) == *old(cyc)
                    }
                },
            }
        }),
{
    let ghost old_ts = reg.thumbs@;
    let clicked = first_hovered(reg, ev.root_x, ev.root_y);
    let i = match clicked {
        Some(i) => i,
        None => {
            return ;
        },
    };
    let src = reg.thumbs[i].src;
    let pos = reg.thumbs[i].position;
    let snap_targets: Vec<Rect> = if ev.detail == BUTTON_RIGHT {
        collect_snap_targets(reg, src)
    } else {
        Vec::new()
    };
    reg.thumbs[i].input_state.drag_start = Position { x: ev.root_x, y: ev.root_y };
    reg.thumbs[i].input_state.win_start = pos;
    if ev.detail == BUTTON_RIGHT {
        reg.thumbs[i].input_state.snap_targets = snap_targets;
        reg.thumbs[i].input_state.dragging = true;
    }
    if ev.detail == BUTTON_LEFT {
        let name = reg.thumbs[i].character_name.clone();
        cyc.set_current(name.as_str(), src);
    }
    proof {
        assert forall|j: int| 0 <= j < old_ts.len() implies #[trigger] reg.thumbs@[j].src
            == old_ts[j].src && reg.thumbs@[j].character_name@ == old_ts[j].character_name@ by {}
        crate::thumbs::lemma_wf_same_ids(old_ts, reg.thumbs@);
    }
}

/// A motion event, in root coordinates.
#[derive(Clone, Copy, Debug)]
pub struct MotionEvent {
    pub root_x: i16,
    pub root_y: i16,
}

/// MotionNotify: while a drag is in flight, move the dragged overlay to
/// the raw dragged position corrected by the snap solver; ignored when
/// nothing is dragging or the raw position leaves the coordinate grid.
pub fn handle_motion_notify(reg: &mut ClientRegistry, threshold: u16, ev: &MotionEvent) -> (r:
    Option<Action>)
    requires
        old(reg).wf(),
    ensures
        final(reg).wf(),
        ({
            let old_ts = old(reg).thumbs@;
            let new_ts = final(reg).thumbs@;
            match spec_first_dragging(old_ts) {
                None => new_ts == old_ts && r is None,
                Some(i) => {
                    let t0 = old_ts[i];
                    let raw = snap::raw_drag(
                        t0.input_state.win_start,
                        t0.input_state.drag_start,
                        Position { x: ev.root_x, y: ev.root_y },
                    );
                    if i16::MIN <= raw.0 <= i16::MAX && i16::MIN <= raw.1 <= i16::MAX {
                        let target = snap::spec_drag_target(
                            t0.input_state.win_start,
                            t0.input_state.drag_start,
                            Position { x: ev.root_x, y: ev.root_y },
                            t0.dimensions,
                            t0.input_state.snap_targets@,
                            threshold as int,
                        );
                        &&& new_ts.len() == old_ts.len()
                        &&& forall|j: int| 0 <= j < old_ts.len() && j != i ==> new_ts[j] == old_ts[j]
                        &&& new_ts[i] == Thumbnail {
                            position: Position { x: target.0 as i16, y: target.1 as i16 },
                            ..t0
                        }
                        &&& r == Some(
                            Action::Reposition {
                                overlay: t0.overlay,
                                x: target.0 as i16,
                                y: target.1 as i16,
                            },
                        )
                    } else {
                        new_ts == old_ts && r is None
                    }
                },
            }
        }),
{
    let ghost old_ts = reg.thumbs@;
    let i = match first_dragging(reg) {
        Some(i) => i,
        None => {
            return None;
        },
    };
    let win_start = reg.thumbs[i].input_state.win_start;
    let drag_start = reg.thumbs[i].input_state.drag_start;
    let dims = reg.thumbs[i].dimensions;
    let overlay = reg.thumbs[i].overlay;
    let root = Position { x: ev.root_x, y: ev.root_y };
    let raw_x: i32 = win_start.x as i32 + (root.x as i32 - drag_start.x as i32);
    let raw_y: i32 = win_start.y as i32 + (root.y as i32 - drag_start.y as i32);
    if raw_x < i16::MIN as i32 || raw_x > i16::MAX as i32 || raw_y < i16::MIN as i32 || raw_y
        > i16::MAX as i32 {
        return None;
    }
    let target = snap::drag_target(
        win_start,
        drag_start,
        root,
        dims,
        &reg.thumbs[i].input_state.snap_targets,
        threshold,
    );
    reg.thumbs[i].position = target;
    proof {
        assert forall|j: int| 0 <= j < old_ts.len() implies #[trigger] reg.thumbs@[j].src
            == old_ts[j].src && reg.thumbs@[j].character_name@ == old_ts[j].character_name@ by {}
        crate::thumbs::lemma_wf_same_ids(old_ts, reg.thumbs@);
    }
    Some(Action::Reposition { overlay, x: target.x, y: target.y })
}

/// Focus coherence: the tracked window holding the focus (if any) shows
/// the focused border, and every other thumbnail is either minimized or
/// shows the unfocused border.
pub open spec fn spec_focus_coherent(ts: Seq<Thumbnail>, focus_src: Option<u32>) -> bool {
    forall|i: int|
        0 <= i < ts.len() ==> #[trigger] ts[i].state == if focus_src matches Some(w) && ts[i].src
            == w {
            ThumbnailState::Normal { focused: true }
        } else if ts[i].state is Minimized {
            ThumbnailState::Minimized
        } else {
            ThumbnailState::Normal { focused: false }
        }
}

/// Whether a thumbnail is rendered at all: the per-identity override
/// where one is set, the global switch otherwise.
pub open spec fn spec_should_render(config: &DaemonConfig, name: Seq<char>) -> bool {
    match crate::store::lookup_by_name(config.profile.character_thumbnails.entries@, name) {
        Some(s) => match s.override_render_preview {
            Some(b) => b,
            None => config.enabled,
        },
        None => config.enabled,
    }
}

fn should_render(config: &DaemonConfig, name: &str) -> (r: bool)
    ensures
        r == spec_should_render(config, name@),
{
    match config.profile.character_thumbnails.get(name) {
        Some(s) => match s.override_render_preview {
            Some(b) => b,
            None => config.enabled,
        },
        None => config.enabled,
    }
}

/// An identity whose override forces rendering is exempt from the
/// auto-hide.
pub open spec fn spec_force_visible(config: &DaemonConfig, name: Seq<char>) -> bool {
    match crate::store::lookup_by_name(config.profile.character_thumbnails.entries@, name) {
        Some(s) => s.override_render_preview == Some(true),
        None => false,
    }
}

fn force_visible(config: &DaemonConfig, name: &str) -> (r: bool)
    ensures
        r == spec_force_visible(config, name@),
{
    match config.profile.character_thumbnails.get(name) {
        Some(s) => match s.override_render_preview {
            Some(b) => b,
            None => false,
        },
        None => false,
    }
}

/// The state a thumbnail ends in after a focus change lands on `w`.
pub open spec fn spec_state_after_focus(t: Thumbnail, w: u32) -> ThumbnailState {
    if t.src == w {
        ThumbnailState::Normal { focused: true }
    } else if t.state is Minimized {
        ThumbnailState::Minimized
    } else {
        ThumbnailState::Normal { focused: false }
    }
}

/// FocusOut: when the window losing focus is the focused tracked window
/// and hiding on focus loss is configured, schedule the auto-hide
/// deadline; ignored entirely for grab-induced events.
pub fn handle_focus_out(
    reg: &ClientRegistry,
    session: &mut crate::session::SessionState,
    config: &DaemonConfig,
    ev: &FocusEvent,
    now: u64,
) -> (scheduled: bool)
    requires
        now + crate::session::FOCUS_LOSS_DELAY_MS <= u64::MAX,
    ensures
        ({
            let was_active = spec_index_of_src(reg.thumbs@, ev.window) matches Some(i)
                && reg.thumbs@[i].state == (ThumbnailState::Normal { focused: true });
            if ev.mode != NotifyMode::Grab && config.profile.thumbnail_hide_not_focused
                && was_active {
                &&& scheduled
                &&& final(session).focus_loss_deadline == Some(
                    (now + crate::session::FOCUS_LOSS_DELAY_MS) as u64,
                )
            } else {
                &&& !scheduled
                &&& *final(session) == *old(session)
            }
        }),
        final(session).last_character_by_window == old(session).last_character_by_window,
        final(session).saved_positions == old(session).saved_positions,
{
    if matches!(ev.mode, NotifyMode::Grab) {
        return false;
    }
    if !config.profile.thumbnail_hide_not_focused {
        return false;
    }
    match reg.index_of_src(ev.window) {
        Some(i) => {
            let focused = reg.thumbs[i].state.is_focused();
            if focused {
                session.schedule_hide(now);
                true
            } else {
                false
            }
        },
        None => false,
    }
}

fn contains_u32(xs: &Vec<u32>, x: u32) -> (r: bool)
    ensures
        r == xs@.contains(x),
{
    let mut i: usize = 0;
    while i < xs.len()
        invariant
            i <= xs@.len(),
            forall|j: int| 0 <= j < i ==> xs@[j] != x,
        decreases xs@.len() - i,
    {
        if xs[i] == x {
            assert(xs@[i as int] == x);
            return true;
        }
        i = i + 1;
    }
    false
}

/// A window-state property change: when the tracked window now carries
/// the hidden state atom, its thumbnail transitions to minimized and the
/// overlay is repainted as such.
pub fn handle_net_wm_state(
    reg: &mut ClientRegistry,
    window: u32,
    state_atoms: &Vec<u32>,
    hidden_atom: u32,
) -> (actions: Vec<Action>)
    requires
        old(reg).wf(),
    ensures
        final(reg).wf(),
        ({
            let old_ts = old(reg).thumbs@;
            let new_ts = final(reg).thumbs@;
            match spec_index_of_src(old_ts, window) {
                Some(i) => {
                    if state_atoms@.contains(hidden_atom) {
                        &&& new_ts.len() == old_ts.len()
                        &&& forall|j: int| 0 <= j < old_ts.len() && j != i ==> new_ts[j] == old_ts[j]
                        &&& new_ts[i] == Thumbnail { state: ThumbnailState::Minimized, ..old_ts[i] }
                        &&& actions@ == seq![
                            Action::PaintMinimized { overlay: old_ts[i].overlay },
                        ]
                    } else {
                        new_ts == old_ts && actions@.len() == 0
                    }
                },
                None => final(reg).thumbs@ == old(reg).thumbs@ && actions@.len() == 0,
            }
        }),
{
    let ghost old_ts = reg.thumbs@;
    let mut actions: Vec<Action> = Vec::new();
    let i = match reg.index_of_src(window) {
        Some(i) => i,
        None => {
            return actions;
        },
    };
    if !contains_u32(state_atoms, hidden_atom) {
        return actions;
    }
    let overlay = reg.thumbs[i].overlay;
    reg.thumbs[i].state = ThumbnailState::Minimized;
    actions.push(Action::PaintMinimized { overlay });
    proof {
        assert forall|j: int| 0 <= j < old_ts.len() implies #[trigger] reg.thumbs@[j].src
            == old_ts[j].src && reg.thumbs@[j].character_name@ == old_ts[j].character_name@ by {}
        crate::thumbs::lemma_wf_same_ids(old_ts, reg.thumbs@);
        assert(actions@ =~= seq![Action::PaintMinimized { overlay: old_ts[i as int].overlay }]);
    }
    actions
}

/// The commands the elapsed auto-hide issues, in registry order: one
/// unmap per thumbnail whose identity does not force rendering.
pub open spec fn spec_hide_actions(ts: Seq<Thumbnail>, config: &DaemonConfig) -> Seq<Action>
    decreases ts.len(),
{
    if ts.len() == 0 {
        Seq::empty()
    } else {
        spec_hide_actions(ts.drop_last(), config) + (if spec_force_visible(
            config,
            ts.last().character_name@,
        ) {
            Seq::empty()
        } else {
            seq![Action::SetVisibility { overlay: ts.last().overlay, visible: false }]
        })
    }
}

/// The elapsed auto-hide deadline: unmap every thumbnail whose identity
/// does not force rendering, and clear the deadline.  A minimized
/// thumbnail keeps its minimized state for the eventual reveal; a live
/// one transitions to hidden.
pub fn handle_hide_deadline(
    reg: &mut ClientRegistry,
    session: &mut crate::session::SessionState,
    config: &DaemonConfig,
    now: u64,
) -> (actions: Vec<Action>)
    requires
        old(reg).wf(),
    ensures
        final(reg).wf(),
        ({
            let old_ts = old(reg).thumbs@;
            let new_ts = final(reg).thumbs@;
            if old(session).spec_hide_due(now) {
                &&& final(session).focus_loss_deadline is None
                &&& new_ts.len() == old_ts.len()
                &&& forall|i: int|
                    0 <= i < old_ts.len() ==> #[trigger] new_ts[i] == if spec_force_visible(
                        config,
                        old_ts[i].character_name@,
                    ) {
                        old_ts[i]
                    } else {
                        Thumbnail {
                            visible: false,
                            state: if old_ts[i].state is Minimized {
                                ThumbnailState::Minimized
                            } else {
                                ThumbnailState::Hidden
                            },
                            ..old_ts[i]
                        }
                    }
                &&& actions@ == spec_hide_actions(old_ts, config)
            } else {
                new_ts == old_ts && *final(session) == *old(session) && actions@.len() == 0
            }
        }),
        final(session).last_character_by_window == old(session).last_character_by_window,
        final(session).saved_positions == old(session).saved_positions,
{
    let ghost old_ts = reg.thumbs@;
    let mut actions: Vec<Action> = Vec::new();
    if !session.hide_due(now) {
        return actions;
    }
    session.cancel_hide();
    let mut i: usize = 0;
    while i < reg.thumbs.len()
        invariant
            i <= old_ts.len(),
            reg.thumbs@.len() == old_ts.len(),
            forall|j: int| i <= j < old_ts.len() ==> reg.thumbs@[j] == old_ts[j],
            forall|j: int|
                0 <= j < i ==> #[trigger] reg.thumbs@[j] == (if spec_force_visible(
                    config,
                    old_ts[j].character_name@,
                ) {
                    old_ts[j]
                } else {
                    Thumbnail {
                        visible: false,
                        state: if old_ts[j].state is Minimized {
                            ThumbnailState::Minimized
                        } else {
                            ThumbnailState::Hidden
                        },
                        ..old_ts[j]
                    }
                }),
            actions@ == spec_hide_actions(old_ts.subrange(0, i as int), config),
        decreases old_ts.len() - i,
    {
        let name = reg.thumbs[i].character_name.clone();
        let ghost acts_pre = actions@;
        if !force_visible(config, name.as_str()) {
            let overlay = reg.thumbs[i].overlay;
            reg.thumbs[i].visible = false;
            if !reg.thumbs[i].state.is_minimized() {
                reg.thumbs[i].state = ThumbnailState::Hidden;
            }
            actions.push(Action::SetVisibility { overlay, visible: false });
        }
        proof {
            let next = old_ts.subrange(0, i + 1);
            assert(next.drop_last() =~= old_ts.subrange(0, i as int));
            assert(next.last() == old_ts[i as int]);
            if spec_force_visible(config, old_ts[i as int].character_name@) {
                assert(actions@ =~= acts_pre + Seq::<Action>::empty());
            } else {
                assert(actions@ =~= acts_pre + seq![
                    Action::SetVisibility { overlay: old_ts[i as int].overlay, visible: false },
                ]);
            }
        }
        i = i + 1;
    }
    proof {
        assert(old_ts.subrange(0, old_ts.len() as int) =~= old_ts);
    }
    proof {
        assert forall|j: int| 0 <= j < old_ts.len() implies #[trigger] reg.thumbs@[j].src
            == old_ts[j].src && reg.thumbs@[j].character_name@ == old_ts[j].character_name@ by {}
        crate::thumbs::lemma_wf_same_ids(old_ts, reg.thumbs@);
    }
    actions
}

fn any_invisible(reg: &ClientRegistry) -> (r: bool)
    ensures
        r == exists|j: int| 0 <= j < reg.thumbs@.len() && !reg.thumbs@[j].visible,
{
    let mut i: usize = 0;
    while i < reg.thumbs.len()
        invariant
            i <= reg.thumbs@.len(),
            forall|j: int| 0 <= j < i ==> reg.thumbs@[j].visible,
        decreases reg.thumbs@.len() - i,
    {
        if !reg.thumbs[i].is_visible() {
            assert(!reg.thumbs@[i as int].visible);
            return true;
        }
        i = i + 1;
    }
    false
}

/// The reveal commands of a focus return when hiding on focus loss is
/// configured and something is hidden: map and recomposite every
/// overlay whose identity renders, in registry order.
pub open spec fn spec_reveal_actions(ts: Seq<Thumbnail>, config: &DaemonConfig) -> Seq<Action>
    decreases ts.len(),
{
    if ts.len() == 0 {
        Seq::empty()
    } else {
        spec_reveal_actions(ts.drop_last(), config) + (if spec_should_render(
            config,
            ts.last().character_name@,
        ) {
            seq![
                Action::SetVisibility { overlay: ts.last().overlay, visible: true },
                Action::Repaint { overlay: ts.last().overlay },
            ]
        } else {
            Seq::empty()
        })
    }
}

/// The border repaints of a focus change, in registry order: the window
/// taking focus gets the focused border unless it already shows it; a
/// minimized thumbnail is repainted through the minimized path, never
/// through a border repaint; everything else gets the unfocused border.
pub open spec fn spec_focus_border_actions(
    ts: Seq<Thumbnail>,
    w: u32,
    skips: Seq<Seq<char>>,
) -> Seq<Action>
    decreases ts.len(),
{
    if ts.len() == 0 {
        Seq::empty()
    } else {
        let t = ts.last();
        spec_focus_border_actions(ts.drop_last(), w, skips) + (if t.src == w {
            if t.state == (ThumbnailState::Normal { focused: true }) {
                Seq::empty()
            } else {
                seq![
                    Action::PaintBorder {
                        overlay: t.overlay,
                        focused: true,
                        skipped: crate::cycle::spec_name_in(skips, t.character_name@),
                    },
                ]
            }
        } else if t.state is Minimized {
            seq![Action::PaintMinimized { overlay: t.overlay }]
        } else {
            seq![
                Action::PaintBorder {
                    overlay: t.overlay,
                    focused: false,
                    skipped: crate::cycle::spec_name_in(skips, t.character_name@),
                },
            ]
        })
    }
}

/// FocusIn: unless the event is grab-induced or filtered as an
/// intermediate focus on an untracked window, cancel any pending
/// auto-hide, reveal hidden thumbnails when hiding on focus loss is
/// configured, sync the cycle anchor, and repaint every border so that
/// exactly the focused tracked window shows the focused border.
pub fn handle_focus_in(
    reg: &mut ClientRegistry,
    session: &mut crate::session::SessionState,
    cyc: &mut CycleState,
    config: &DaemonConfig,
    ev: &FocusEvent,
) -> (actions: Vec<Action>)
    requires
        old(reg).wf(),
    ensures
        final(reg).wf(),
        ({
            let old_ts = old(reg).thumbs@;
            let new_ts = final(reg).thumbs@;
            let focus_tracked = spec_tracks_src(old_ts, ev.window);
            let filtered = ev.mode == NotifyMode::Ungrab || (old(
                cyc,
            ).current_window matches Some(exp) && ev.window != exp && !focus_tracked);
            if filtered {
                &&& new_ts == old_ts
                &&& *final(session) == *old(session)
                &&& *final(cyc) == *old(cyc)
                &&& actions@.len() == 0
            } else {
                let unhide = config.profile.thumbnail_hide_not_focused && exists|j: int|
                    0 <= j < old_ts.len() && !old_ts[j].visible;
                &&& final(session).focus_loss_deadline is None
                &&& final(session).last_character_by_window == old(
                    session,
                ).last_character_by_window
                &&& final(session).saved_positions == old(session).saved_positions
                &&& new_ts.len() == old_ts.len()
                &&& forall|i: int|
                    0 <= i < old_ts.len() ==> #[trigger] new_ts[i] == Thumbnail {
                        visible: if unhide && spec_should_render(
                            config,
                            old_ts[i].character_name@,
                        ) {
                            true
                        } else {
                            old_ts[i].visible
                        },
                        state: spec_state_after_focus(old_ts[i], ev.window),
                        ..old_ts[i]
                    }
                &&& spec_focus_coherent(
                    new_ts,
                    if focus_tracked {
                        Some(ev.window)
                    } else {
                        None
                    },
                )
                &&& match spec_index_of_src(old_ts, ev.window) {
                    Some(i) => {
                        &&& final(cyc).current matches Some(c) && c@ == old_ts[
                            i
                        ].character_name@
                        &&& final(cyc).current_window == Some(ev.window)
                        &&& final(cyc).skipped == old(cyc).skipped
                    },
                    None => *final(cyc) == *old(cyc),
                }
                &&& actions@ == (if unhide {
                    spec_reveal_actions(old_ts, config)
                } else {
                    Seq::<Action>::empty()
                }) + spec_focus_border_actions(
                    old_ts,
                    ev.window,
                    crate::classify::string_views(final(cyc).skipped@),
                )
            }
        }),
{
    let ghost old_ts = reg.thumbs@;
    let mut actions: Vec<Action> = Vec::new();
    if matches!(ev.mode, NotifyMode::Ungrab) {
        return actions;
    }
    let tracked_idx = reg.index_of_src(ev.window);
    match cyc.get_current_window() {
        Some(exp) => {
            if ev.window != exp && tracked_idx.is_none() {
                return actions;
            }
        },
        None => {},
    }
    match tracked_idx {
        Some(i) => {
            let name = reg.thumbs[i].character_name.clone();
            cyc.set_current(name.as_str(), ev.window);
        },
        None => {},
    }
    session.cancel_hide();
    let unhide = config.profile.thumbnail_hide_not_focused && any_invisible(reg);
    if unhide {
        proof {
            assert(actions@ =~= Seq::<Action>::empty());
            assert(old_ts.subrange(0, 0) =~= Seq::<Thumbnail>::empty());
        }
        let mut i: usize = 0;
        while i < reg.thumbs.len()
            invariant
                i <= old_ts.len(),
                reg.thumbs@.len() == old_ts.len(),
                forall|j: int| i <= j < old_ts.len() ==> reg.thumbs@[j] == old_ts[j],
                forall|j: int|
                    0 <= j < i ==> #[trigger] reg.thumbs@[j] == (Thumbnail {
                        visible: if spec_should_render(config, old_ts[j].character_name@) {
                            true
                        } else {
                            old_ts[j].visible
                        },
                        ..old_ts[j]
                    }),
                actions@ == spec_reveal_actions(old_ts.subrange(0, i as int), config),
            decreases old_ts.len() - i,
        {
            let name = reg.thumbs[i].character_name.clone();
            let ghost acts_pre = actions@;
            if should_render(config, name.as_str()) {
                let overlay = reg.thumbs[i].overlay;
                reg.thumbs[i].visible = true;
                actions.push(Action::SetVisibility { overlay, visible: true });
                actions.push(Action::Repaint { overlay });
            }
            proof {
                let next = old_ts.subrange(0, i + 1);
                assert(next.drop_last() =~= old_ts.subrange(0, i as int));
                assert(next.last() == old_ts[i as int]);
                if spec_should_render(config, old_ts[i as int].character_name@) {
                    assert(actions@ =~= acts_pre + seq![
                        Action::SetVisibility { overlay: old_ts[i as int].overlay, visible: true },
                        Action::Repaint { overlay: old_ts[i as int].overlay },
                    ]);
                } else {
                    assert(actions@ =~= acts_pre + Seq::<Action>::empty());
                }
            }
            i = i + 1;
        }
        proof {
            assert(old_ts.subrange(0, old_ts.len() as int) =~= old_ts);
        }
    }
    let ghost mid_ts = reg.thumbs@;
    let ghost acts_mid = actions@;
    let ghost skips_g = crate::classify::string_views(cyc.skipped@);
    proof {
        assert(mid_ts.len() == old_ts.len());
        if !unhide {
            assert(acts_mid =~= Seq::<Action>::empty());
        }
        assert(old_ts.subrange(0, 0) =~= Seq::<Thumbnail>::empty());
        assert(acts_mid + spec_focus_border_actions(
            old_ts.subrange(0, 0),
            ev.window,
            skips_g,
        ) =~= acts_mid);
    }
    let mut i: usize = 0;
    while i < reg.thumbs.len()
        invariant
            i <= mid_ts.len(),
            reg.thumbs@.len() == mid_ts.len(),
            mid_ts.len() == old_ts.len(),
            forall|j: int|
                0 <= j < old_ts.len() ==> #[trigger] mid_ts[j].state == old_ts[j].state
                    && mid_ts[j].src == old_ts[j].src && mid_ts[j].overlay == old_ts[j].overlay
                    && mid_ts[j].character_name == old_ts[j].character_name,
            forall|j: int| i <= j < mid_ts.len() ==> reg.thumbs@[j] == mid_ts[j],
            forall|j: int|
                0 <= j < i ==> #[trigger] reg.thumbs@[j] == (Thumbnail {
                    state: spec_state_after_focus(old_ts[j], ev.window),
                    ..mid_ts[j]
                }),
            skips_g == crate::classify::string_views(cyc.skipped@),
            actions@ == acts_mid + spec_focus_border_actions(
                old_ts.subrange(0, i as int),
                ev.window,
                skips_g,
            ),
        decreases mid_ts.len() - i,
    {
        let name = reg.thumbs[i].character_name.clone();
        let overlay = reg.thumbs[i].overlay;
        let ghost acts_pre = actions@;
        if reg.thumbs[i].src == ev.window {
            if !reg.thumbs[i].state.is_focused() {
                reg.thumbs[i].state = ThumbnailState::Normal { focused: true };
                actions.push(
                    Action::PaintBorder {
                        overlay,
                        focused: true,
                        skipped: cyc.is_skipped(name.as_str()),
                    },
                );
                proof {
                    assert(actions@ =~= acts_pre + seq![
                        Action::PaintBorder {
                            overlay: old_ts[i as int].overlay,
                            focused: true,
                            skipped: crate::cycle::spec_name_in(
                                skips_g,
                                old_ts[i as int].character_name@,
                            ),
                        },
                    ]);
                }
            } else {
                proof {
                    assert(reg.thumbs@[i as int] == Thumbnail {
                        state: spec_state_after_focus(old_ts[i as int], ev.window),
                        ..mid_ts[i as int]
                    });
                    assert(actions@ =~= acts_pre + Seq::<Action>::empty());
                }
            }
        } else if reg.thumbs[i].state.is_minimized() {
            actions.push(Action::PaintMinimized { overlay });
            proof {
                assert(reg.thumbs@[i as int] == Thumbnail {
                    state: spec_state_after_focus(old_ts[i as int], ev.window),
                    ..mid_ts[i as int]
                });
                assert(actions@ =~= acts_pre + seq![
                    Action::PaintMinimized { overlay: old_ts[i as int].overlay },
                ]);
            }
        } else {
            reg.thumbs[i].state = ThumbnailState::Normal { focused: false };
            actions.push(
                Action::PaintBorder {
                    overlay,
                    focused: false,
                    skipped: cyc.is_skipped(name.as_str()),
                },
            );
            proof {
                assert(actions@ =~= acts_pre + seq![
                    Action::PaintBorder {
                        overlay: old_ts[i as int].overlay,
                        focused: false,
                        skipped: crate::cycle::spec_name_in(
                            skips_g,
                            old_ts[i as int].character_name@,
                        ),
                    },
                ]);
            }
        }
        proof {
            let next = old_ts.subrange(0, i + 1);
            assert(next.drop_last() =~= old_ts.subrange(0, i as int));
            assert(next.last() == old_ts[i as int]);
        }
        i = i + 1;
    }
    proof {
        assert(old_ts.subrange(0, old_ts.len() as int) =~= old_ts);
        assert forall|j: int| 0 <= j < old_ts.len() implies #[trigger] reg.thumbs@[j].src
            == old_ts[j].src && reg.thumbs@[j].character_name@ == old_ts[j].character_name@ by {}
        crate::thumbs::lemma_wf_same_ids(old_ts, reg.thumbs@);
        let focus_tracked = spec_tracks_src(old_ts, ev.window);
        let fs: Option<u32> = if focus_tracked {
            Some(ev.window)
        } else {
            None
        };
        assert forall|j: int| 0 <= j < reg.thumbs@.len() implies #[trigger] reg.thumbs@[j].state
            == if fs matches Some(w) && reg.thumbs@[j].src == w {
            ThumbnailState::Normal { focused: true }
        } else if reg.thumbs@[j].state is Minimized {
            ThumbnailState::Minimized
        } else {
            ThumbnailState::Normal { focused: false }
        } by {
            assert(reg.thumbs@[j] == Thumbnail {
                state: spec_state_after_focus(old_ts[j], ev.window),
                ..mid_ts[j]
            });
            if old_ts[j].src == ev.window {
                assert(spec_tracks_src(old_ts, ev.window));
            }
        }
    }
    actions
}

/// The first thumbnail the pointer position falls on, mapped or not: a
/// release is honoured even on an overlay hidden mid-gesture.
pub open spec fn spec_first_under(ts: Seq<Thumbnail>, x: int, y: int) -> Option<int>
    decreases ts.len(),
{
    if ts.len() == 0 {
        None
    } else if ts[0].spec_rect().spec_contains_point(x, y) {
        Some(0)
    } else {
        match spec_first_under(ts.drop_first(), x, y) {
            Some(i) => Some(i + 1),
            None => None,
        }
    }
}

fn first_under(reg: &ClientRegistry, x: i16, y: i16) -> (r: Option<usize>)
    ensures
        ({
            let s = spec_first_under(reg.thumbs@, x as int, y as int);
            match r {
                Some(i) => i < reg.thumbs@.len() && s == Some(i as int),
                None => s is None,
            }
        }),
{
    let ghost ts = reg.thumbs@;
    proof {
        assert(ts.skip(0) =~= ts);
    }
    let mut i: usize = 0;
    while i < reg.thumbs.len()
        invariant
            i <= ts.len(),
            ts == reg.thumbs@,
            ({
                let s = spec_first_under(ts, x as int, y as int);
                let t = spec_first_under(ts.skip(i as int), x as int, y as int);
                match t {
                    Some(j) => s == Some(j + i),
                    None => s is None,
                }
            }),
        decreases ts.len() - i,
    {
        proof {
            assert(ts.skip(i as int)[0] == ts[i as int]);
        }
        if reg.thumbs[i].is_hovered(x, y) {
            return Some(i);
        }
        proof {
            assert(ts.skip(i as int).drop_first() =~= ts.skip(i + 1));
        }
        i = i + 1;
    }
    proof {
        assert(ts.skip(ts.len() as int).len() == 0);
    }
    None
}

/// Whether an identity is the alias of some custom source rule.
pub open spec fn spec_is_custom(rules: Seq<crate::classify::CustomWindowRule>, name: Seq<char>) -> bool {
    exists|i: int| 0 <= i < rules.len() && rules[i].alias@ == name
}

fn is_custom_alias(rules: &Vec<crate::classify::CustomWindowRule>, name: &str) -> (r: bool)
    ensures
        r == spec_is_custom(rules@, name@),
{
    let mut i: usize = 0;
    while i < rules.len()
        invariant
            i <= rules@.len(),
            forall|j: int| 0 <= j < i ==> rules@[j].alias@ != name@,
        decreases rules@.len() - i,
    {
        if crate::text::str_eq(rules[i].alias.as_str(), name) {
            assert(rules@[i as int].alias@ == name@);
            return true;
        }
        i = i + 1;
    }
    false
}

/// Whether this identity is exempt from minimize-on-switch: the custom
/// source settings take precedence over the character settings.
pub open spec fn spec_exempt(config: &DaemonConfig, name: Seq<char>) -> bool {
    match crate::store::lookup_by_name(config.profile.custom_source_thumbnails.entries@, name) {
        Some(s) => s.exempt_from_minimize,
        None => match crate::store::lookup_by_name(
            config.profile.character_thumbnails.entries@,
            name,
        ) {
            Some(s) => s.exempt_from_minimize,
            None => false,
        },
    }
}

fn is_exempt(config: &DaemonConfig, name: &str) -> (r: bool)
    ensures
        r == spec_exempt(config, name@),
{
    match config.profile.custom_source_thumbnails.get(name) {
        Some(s) => s.exempt_from_minimize,
        None => match config.profile.character_thumbnails.get(name) {
            Some(s) => s.exempt_from_minimize,
            None => false,
        },
    }
}

/// The border repaints of a left release, in registry order: the
/// released thumbnail gets the focused border, a minimized one is
/// repainted through the minimized path, everything else gets the
/// unfocused border.
pub open spec fn spec_release_border_actions(
    ts: Seq<Thumbnail>,
    focus_src: u32,
    skips: Seq<Seq<char>>,
) -> Seq<Action>
    decreases ts.len(),
{
    if ts.len() == 0 {
        Seq::empty()
    } else {
        let t = ts.last();
        spec_release_border_actions(ts.drop_last(), focus_src, skips) + (if t.src == focus_src {
            seq![
                Action::PaintBorder {
                    overlay: t.overlay,
                    focused: true,
                    skipped: crate::cycle::spec_name_in(skips, t.character_name@),
                },
            ]
        } else if t.state is Minimized {
            seq![Action::PaintMinimized { overlay: t.overlay }]
        } else {
            seq![
                Action::PaintBorder {
                    overlay: t.overlay,
                    focused: false,
                    skipped: crate::cycle::spec_name_in(skips, t.character_name@),
                },
            ]
        })
    }
}

/// The minimize-on-switch commands, in registry order: for every other
/// non-exempt tracked window, its border clear immediately followed by
/// its minimize request.
pub open spec fn spec_minimize_actions(
    ts: Seq<Thumbnail>,
    focus_src: u32,
    config: &DaemonConfig,
    skips: Seq<Seq<char>>,
) -> Seq<Action>
    decreases ts.len(),
{
    if ts.len() == 0 {
        Seq::empty()
    } else {
        let t = ts.last();
        spec_minimize_actions(ts.drop_last(), focus_src, config, skips) + (if t.src != focus_src
            && !spec_exempt(config, t.character_name@) {
            seq![
                Action::PaintBorder {
                    overlay: t.overlay,
                    focused: false,
                    skipped: crate::cycle::spec_name_in(skips, t.character_name@),
                },
                Action::Minimize { window: t.src },
            ]
        } else {
            Seq::empty()
        })
    }
}

/// ButtonRelease: a left release on a thumbnail activates its source
/// window, makes it the cycle anchor, and repaints every border; a
/// release ending a drag persists the final position and reports it.
/// With minimize-on-switch configured, a left release iconifies every
/// other non-exempt source window, clearing its border first.
#[verifier::rlimit(100)]
pub fn handle_button_release(
    reg: &mut ClientRegistry,
    session: &mut crate::session::SessionState,
    cyc: &mut CycleState,
    config: &mut DaemonConfig,
    ev: &ButtonEvent,
) -> (actions: Vec<Action>)
    requires
        old(reg).wf(),
    ensures
        final(reg).wf(),
        ({
            let old_ts = old(reg).thumbs@;
            let new_ts = final(reg).thumbs@;
            match spec_first_under(old_ts, ev.root_x as int, ev.root_y as int) {
                None => {
                    &&& new_ts == old_ts
                    &&& *final(session) == *old(session)
                    &&& *final(cyc) == *old(cyc)
                    &&& *final(config) == *old(config)
                    &&& actions@.len() == 0
                },
                Some(i) => {
                    let t0 = old_ts[i];
                    let is_left = ev.detail == BUTTON_LEFT;
                    let was_dragging = t0.input_state.dragging;
                    // The thumbnails afterwards: the released one has its
                    // drag cleared; a left release refocuses every border.
                    &&& new_ts.len() == old_ts.len()
                    &&& forall|j: int|
                        0 <= j < old_ts.len() ==> #[trigger] new_ts[j].src == old_ts[j].src
                            && new_ts[j].overlay == old_ts[j].overlay && new_ts[j].character_name
                            == old_ts[j].character_name && new_ts[j].position == old_ts[j].position
                            && new_ts[j].dimensions == old_ts[j].dimensions && new_ts[j].visible
                            == old_ts[j].visible
                    &&& forall|j: int|
                        0 <= j < old_ts.len() ==> #[trigger] new_ts[j].state == if is_left {
                            spec_state_after_focus(old_ts[j], t0.src)
                        } else {
                            old_ts[j].state
                        }
                    &&& !new_ts[i].input_state.dragging
                    &&& new_ts[i].input_state.snap_targets@.len() == 0
                    &&& forall|j: int|
                        0 <= j < old_ts.len() && j != i ==> #[trigger] new_ts[j].input_state
                            == old_ts[j].input_state
                    // Focus coherence after a left release.
                    &&& (is_left ==> spec_focus_coherent(new_ts, Some(t0.src)))
                    // The cycle anchor follows a left release.
                    &&& if is_left {
                        &&& final(cyc).current matches Some(c) && c@ == t0.character_name@
                        &&& final(cyc).current_window == Some(t0.src)
                        &&& final(cyc).skipped == old(cyc).skipped
                    } else {
                        *final(cyc) == *old(cyc)
                    }
                    // A left release activates the source first of all.
                    &&& (is_left ==> actions@.len() > 0 && actions@[0] == (Action::Activate {
                        window: t0.src,
                        time: ev.time,
                    }))
                    &&& (!is_left && !was_dragging ==> actions@.len() == 0)
                    // The session caches the dropped position under the
                    // identity last recorded on the released window.
                    &&& final(session).last_character_by_window == old(
                        session,
                    ).last_character_by_window
                    &&& final(session).focus_loss_deadline == old(session).focus_loss_deadline
                    &&& (!was_dragging ==> *final(session) == *old(session))
                    &&& (was_dragging ==> match old(session).last_character_by_window.spec_get(
                        t0.src,
                    ) {
                        Some(n) => {
                            &&& final(session).saved_positions.spec_get(n) == Some(t0.position)
                            &&& forall|k2: Seq<char>|
                                k2 != n ==> final(session).saved_positions.spec_get(k2) == old(
                                    session,
                                ).saved_positions.spec_get(k2)
                        },
                        None => final(session).saved_positions == old(session).saved_positions,
                    })
                    // A drag end on a named identity persists its
                    // geometry in the store the identity belongs to.
                    &&& (!(was_dragging && t0.character_name@.len() > 0) ==> *final(config)
                        == *old(config))
                    &&& (was_dragging && t0.character_name@.len() > 0 ==> ({
                        let s = crate::config::CharacterSettings {
                            x: t0.position.x,
                            y: t0.position.y,
                            width: t0.dimensions.width,
                            height: t0.dimensions.height,
                            override_render_preview: None,
                            exempt_from_minimize: false,
                        };
                        let is_custom = spec_is_custom(
                            old(config).profile.custom_windows@,
                            t0.character_name@,
                        );
                        &&& spec_config_same_but_stores(old(config), final(config))
                        &&& if is_custom {
                            &&& final(config).profile.character_thumbnails == old(
                                config,
                            ).profile.character_thumbnails
                            &&& final(config).profile.custom_source_thumbnails.spec_get(
                                t0.character_name@,
                            ) == Some(s)
                            &&& forall|k2: Seq<char>|
                                k2 != t0.character_name@
                                    ==> final(config).profile.custom_source_thumbnails.spec_get(
                                    k2,
                                ) == old(config).profile.custom_source_thumbnails.spec_get(k2)
                        } else {
                            &&& final(config).profile.custom_source_thumbnails == old(
                                config,
                            ).profile.custom_source_thumbnails
                            &&& final(config).profile.character_thumbnails.spec_get(
                                t0.character_name@,
                            ) == Some(s)
                            &&& forall|k2: Seq<char>|
                                k2 != t0.character_name@
                                    ==> final(config).profile.character_thumbnails.spec_get(
                                    k2,
                                ) == old(config).profile.character_thumbnails.spec_get(k2)
                        }
                    }))
                    // Minimize-on-switch never touches the activated
                    // window nor an exempt identity, and clears the
                    // border of each target before iconifying it.
                    &&& forall|k: int|
                        0 <= k < actions@.len() ==> (#[trigger] actions@[k] is Minimize
                            ==> is_left && final(config).profile.client_minimize_on_switch
                            && exists|j: int|
                            0 <= j < old_ts.len() && old_ts[j].src != t0.src && !spec_exempt(
                                final(config),
                                old_ts[j].character_name@,
                            ) && actions@[k] == (Action::Minimize { window: old_ts[j].src }))
                    &&& forall|k: int|
                        0 <= k < actions@.len() ==> (#[trigger] actions@[k] is Minimize
                            ==> exists|m: int, j: int|
                            0 <= m < k && 0 <= j < old_ts.len() && actions@[k] == (
                            Action::Minimize { window: old_ts[j].src }) && actions@[m] == (
                            Action::PaintBorder {
                                overlay: old_ts[j].overlay,
                                focused: false,
                                skipped: spec_name_in_skip(final(cyc), old_ts[j].character_name@),
                            }))
                    // The command list itself: the activation, the drag
                    // report, every border repaint, the flush, then the
                    // minimize pass.
                    &&& ({
                        let skips = crate::classify::string_views(final(cyc).skipped@);
                        let report: Seq<Action> = if was_dragging && t0.character_name@.len()
                            > 0 {
                            seq![
                                Action::PositionChanged {
                                    name: t0.character_name,
                                    x: t0.position.x,
                                    y: t0.position.y,
                                    width: t0.dimensions.width,
                                    height: t0.dimensions.height,
                                    is_custom: spec_is_custom(
                                        old(config).profile.custom_windows@,
                                        t0.character_name@,
                                    ),
                                },
                            ]
                        } else {
                            Seq::empty()
                        };
                        actions@ == if is_left {
                            seq![Action::Activate { window: t0.src, time: ev.time }] + report
                                + spec_release_border_actions(old_ts, t0.src, skips) + seq![
                                Action::Flush,
                            ] + (if final(config).profile.client_minimize_on_switch {
                                spec_minimize_actions(old_ts, t0.src, final(config), skips)
                            } else {
                                Seq::empty()
                            })
                        } else {
                            report
                        }
                    })
                },
            }
        }),
{
    let ghost old_ts = reg.thumbs@;
    let ghost cfg0 = *config;
    let mut actions: Vec<Action> = Vec::new();
    let i = match first_under(reg, ev.root_x, ev.root_y) {
        Some(i) => i,
        None => {
            return actions;
        },
    };
    let src = reg.thumbs[i].src;
    let name = reg.thumbs[i].character_name.clone();
    let is_left = ev.detail == BUTTON_LEFT;
    let was_dragging = reg.thumbs[i].input_state.dragging;

    if is_left {
        actions.push(Action::Activate { window: src, time: ev.time });
        cyc.set_current(name.as_str(), src);
    }
    if was_dragging {
        let pos = reg.thumbs[i].position;
        let dims = reg.thumbs[i].dimensions;
        session.update_window_position(src, pos.x, pos.y);
        if !name.as_str().is_empty() {
            let settings = crate::config::CharacterSettings::new(
                pos.x,
                pos.y,
                dims.width,
                dims.height,
            );
            let is_custom = is_custom_alias(&config.profile.custom_windows, name.as_str());
            let ghost gname = name@;
            if is_custom {
                config.profile.custom_source_thumbnails.insert(name.clone(), settings);
                proof {
                    assert(config.profile.custom_source_thumbnails.spec_get(gname) == Some(
                        settings,
                    ));
                    assert(forall|k2: Seq<char>|
                        k2 != gname ==> config.profile.custom_source_thumbnails.spec_get(k2)
                            == cfg0.profile.custom_source_thumbnails.spec_get(k2));
                }
            } else {
                config.profile.character_thumbnails.insert(name.clone(), settings);
                proof {
                    assert(config.profile.character_thumbnails.spec_get(gname) == Some(settings));
                    assert(forall|k2: Seq<char>|
                        k2 != gname ==> config.profile.character_thumbnails.spec_get(k2)
                            == cfg0.profile.character_thumbnails.spec_get(k2));
                }
            }
            actions.push(
                Action::PositionChanged {
                    name: name.clone(),
                    x: pos.x,
                    y: pos.y,
                    width: dims.width,
                    height: dims.height,
                    is_custom,
                },
            );
        }
    }
    reg.thumbs[i].input_state.dragging = false;
    reg.thumbs[i].input_state.snap_targets = Vec::new();
    let ghost mid_ts = reg.thumbs@;
    let ghost acts_head = actions@;
    let ghost skips_g = crate::classify::string_views(cyc.skipped@);
    proof {
        assert forall|k: int| 0 <= k < mid_ts.len() implies #[trigger] mid_ts[k].state
            == old_ts[k].state && mid_ts[k].src == old_ts[k].src && mid_ts[k].overlay == old_ts[
            k
        ].overlay && mid_ts[k].character_name == old_ts[k].character_name by {}
    }

    if is_left {
        proof {
            assert(old_ts.subrange(0, 0) =~= Seq::<Thumbnail>::empty());
            assert(acts_head + spec_release_border_actions(
                old_ts.subrange(0, 0),
                src,
                skips_g,
            ) =~= acts_head);
        }
        let mut j: usize = 0;
        while j < reg.thumbs.len()
            invariant
                j <= mid_ts.len(),
                reg.thumbs@.len() == mid_ts.len(),
                mid_ts.len() == old_ts.len(),
                src == old_ts[i as int].src,
                i < old_ts.len(),
                forall|k: int|
                    0 <= k < mid_ts.len() ==> #[trigger] mid_ts[k].state == old_ts[k].state
                        && mid_ts[k].src == old_ts[k].src && mid_ts[k].overlay == old_ts[
                        k
                    ].overlay && mid_ts[k].character_name == old_ts[k].character_name,
                forall|k: int| j <= k < mid_ts.len() ==> reg.thumbs@[k] == mid_ts[k],
                forall|k: int|
                    0 <= k < j ==> #[trigger] reg.thumbs@[k] == (Thumbnail {
                        state: spec_state_after_focus(mid_ts[k], src),
                        ..mid_ts[k]
                    }),
                forall|k: int| 0 <= k < actions@.len() ==> !(#[trigger] actions@[k] is Minimize),
                actions@.len() > 0 && actions@[0] == (Action::Activate {
                    window: src,
                    time: ev.time,
                }),
                skips_g == crate::classify::string_views(cyc.skipped@),
                actions@ == acts_head + spec_release_border_actions(
                    old_ts.subrange(0, j as int),
                    src,
                    skips_g,
                ),
            decreases mid_ts.len() - j,
        {
            let t_name = reg.thumbs[j].character_name.clone();
            let overlay = reg.thumbs[j].overlay;
            let ghost acts_pre = actions@;
            if reg.thumbs[j].src == src {
                reg.thumbs[j].state = ThumbnailState::Normal { focused: true };
                actions.push(
                    Action::PaintBorder {
                        overlay,
                        focused: true,
                        skipped: cyc.is_skipped(t_name.as_str()),
                    },
                );
                proof {
                    assert(actions@ =~= acts_pre + seq![
                        Action::PaintBorder {
                            overlay: old_ts[j as int].overlay,
                            focused: true,
                            skipped: crate::cycle::spec_name_in(
                                skips_g,
                                old_ts[j as int].character_name@,
                            ),
                        },
                    ]);
                }
            } else if reg.thumbs[j].state.is_minimized() {
                actions.push(Action::PaintMinimized { overlay });
                proof {
                    assert(reg.thumbs@[j as int] == Thumbnail {
                        state: spec_state_after_focus(mid_ts[j as int], src),
                        ..mid_ts[j as int]
                    });
                    assert(actions@ =~= acts_pre + seq![
                        Action::PaintMinimized { overlay: old_ts[j as int].overlay },
                    ]);
                }
            } else {
                reg.thumbs[j].state = ThumbnailState::Normal { focused: false };
                actions.push(
                    Action::PaintBorder {
                        overlay,
                        focused: false,
                        skipped: cyc.is_skipped(t_name.as_str()),
                    },
                );
                proof {
                    assert(actions@ =~= acts_pre + seq![
                        Action::PaintBorder {
                            overlay: old_ts[j as int].overlay,
                            focused: false,
                            skipped: crate::cycle::spec_name_in(
                                skips_g,
                                old_ts[j as int].character_name@,
                            ),
                        },
                    ]);
                }
            }
            proof {
                let next = old_ts.subrange(0, j + 1);
                assert(next.drop_last() =~= old_ts.subrange(0, j as int));
                assert(next.last() == old_ts[j as int]);
            }
            j = j + 1;
        }
        proof {
            assert(old_ts.subrange(0, old_ts.len() as int) =~= old_ts);
        }
        actions.push(Action::Flush);

        let ghost acts_bf = actions@;
        if config.profile.client_minimize_on_switch {
            let ghost pre_min_ts = reg.thumbs@;
            let ghost pre_min_len = actions@.len();
            proof {
                assert forall|k: int| 0 <= k < pre_min_ts.len() implies #[trigger] pre_min_ts[
                    k
                ].src == old_ts[k].src && pre_min_ts[k].overlay == old_ts[k].overlay
                    && pre_min_ts[k].character_name == old_ts[k].character_name by {}
                assert(old_ts.subrange(0, 0) =~= Seq::<Thumbnail>::empty());
                assert(acts_bf + spec_minimize_actions(
                    old_ts.subrange(0, 0),
                    src,
                    config,
                    skips_g,
                ) =~= acts_bf);
            }
            let mut j: usize = 0;
            while j < reg.thumbs.len()
                invariant
                    j <= reg.thumbs@.len(),
                    reg.thumbs@ == pre_min_ts,
                    pre_min_ts.len() == mid_ts.len(),
                    mid_ts.len() == old_ts.len(),
                    actions@.len() >= pre_min_len,
                    forall|k: int|
                        0 <= k < pre_min_ts.len() ==> #[trigger] pre_min_ts[k].src == old_ts[
                            k
                        ].src && pre_min_ts[k].overlay == old_ts[k].overlay && pre_min_ts[
                            k
                        ].character_name == old_ts[k].character_name,
                    forall|k: int|
                        0 <= k < pre_min_len ==> !(#[trigger] actions@[k] is Minimize),
                    actions@.len() > 0 && actions@[0] == (Action::Activate {
                        window: src,
                        time: ev.time,
                    }),
                    skips_g == crate::classify::string_views(cyc.skipped@),
                    actions@ == acts_bf + spec_minimize_actions(
                        old_ts.subrange(0, j as int),
                        src,
                        config,
                        skips_g,
                    ),
                    forall|k: int|
                        pre_min_len <= k < actions@.len() ==> (#[trigger] actions@[k] is Minimize
                            ==> exists|jj: int|
                            0 <= jj < pre_min_ts.len() && pre_min_ts[jj].src != src
                                && !spec_exempt(config, pre_min_ts[jj].character_name@)
                                && actions@[k] == (Action::Minimize {
                                window: pre_min_ts[jj].src,
                            }) && 0 <= k - 1 && actions@[k - 1] == (Action::PaintBorder {
                                overlay: pre_min_ts[jj].overlay,
                                focused: false,
                                skipped: spec_name_in_skip(cyc, pre_min_ts[jj].character_name@),
                            })),
                decreases reg.thumbs@.len() - j,
            {
                let t_name = reg.thumbs[j].character_name.clone();
                let overlay = reg.thumbs[j].overlay;
                let t_src = reg.thumbs[j].src;
                let ghost acts_pre = actions@;
                if t_src != src && !is_exempt(config, t_name.as_str()) {
                    actions.push(
                        Action::PaintBorder {
                            overlay,
                            focused: false,
                            skipped: cyc.is_skipped(t_name.as_str()),
                        },
                    );
                    actions.push(Action::Minimize { window: t_src });
                    proof {
                        assert(actions@ =~= acts_pre + seq![
                            Action::PaintBorder {
                                overlay: old_ts[j as int].overlay,
                                focused: false,
                                skipped: crate::cycle::spec_name_in(
                                    skips_g,
                                    old_ts[j as int].character_name@,
                                ),
                            },
                            Action::Minimize { window: old_ts[j as int].src },
                        ]);
                    }
                } else {
                    proof {
                        assert(actions@ =~= acts_pre + Seq::<Action>::empty());
                    }
                }
                proof {
                    let next = old_ts.subrange(0, j + 1);
                    assert(next.drop_last() =~= old_ts.subrange(0, j as int));
                    assert(next.last() == old_ts[j as int]);
                }
                j = j + 1;
            }
            proof {
                assert(old_ts.subrange(0, old_ts.len() as int) =~= old_ts);
            }
        }
        proof {
            let t0 = old_ts[i as int];
            let report: Seq<Action> = if was_dragging && t0.character_name@.len() > 0 {
                seq![
                    Action::PositionChanged {
                        name: t0.character_name,
                        x: t0.position.x,
                        y: t0.position.y,
                        width: t0.dimensions.width,
                        height: t0.dimensions.height,
                        is_custom: spec_is_custom(
                            cfg0.profile.custom_windows@,
                            t0.character_name@,
                        ),
                    },
                ]
            } else {
                Seq::empty()
            };
            assert(acts_head =~= seq![Action::Activate { window: t0.src, time: ev.time }]
                + report);
            assert(acts_bf =~= acts_head + spec_release_border_actions(old_ts, t0.src, skips_g)
                + seq![Action::Flush]);
            if config.profile.client_minimize_on_switch {
                assert(actions@ == acts_bf + spec_minimize_actions(
                    old_ts,
                    t0.src,
                    config,
                    skips_g,
                ));
            } else {
                assert(actions@ == acts_bf);
            }
            assert(actions@ =~= seq![Action::Activate { window: t0.src, time: ev.time }] + report
                + spec_release_border_actions(old_ts, t0.src, skips_g) + seq![Action::Flush] + (
            if config.profile.client_minimize_on_switch {
                spec_minimize_actions(old_ts, t0.src, config, skips_g)
            } else {
                Seq::<Action>::empty()
            }));
        }
    } else {
        proof {
            let t0 = old_ts[i as int];
            let report: Seq<Action> = if was_dragging && t0.character_name@.len() > 0 {
                seq![
                    Action::PositionChanged {
                        name: t0.character_name,
                        x: t0.position.x,
                        y: t0.position.y,
                        width: t0.dimensions.width,
                        height: t0.dimensions.height,
                        is_custom: spec_is_custom(
                            cfg0.profile.custom_windows@,
                            t0.character_name@,
                        ),
                    },
                ]
            } else {
                Seq::empty()
            };
            assert(actions@ =~= report);
        }
    }
    proof {
        assert forall|j: int| 0 <= j < old_ts.len() implies #[trigger] reg.thumbs@[j].src
            == old_ts[j].src && reg.thumbs@[j].character_name@ == old_ts[j].character_name@ by {}
        crate::thumbs::lemma_wf_same_ids(old_ts, reg.thumbs@);
    }
    actions
}

/// Whether an identity is on the skip list of a cycle state.
pub open spec fn spec_name_in_skip(cyc: &CycleState, name: Seq<char>) -> bool {
    crate::cycle::spec_name_in(crate::classify::string_views(cyc.skipped@), name)
}

/// The first tracked window carrying this identity.
pub open spec fn spec_first_with_name(ts: Seq<Thumbnail>, name: Seq<char>) -> Option<int>
    decreases ts.len(),
{
    if ts.len() == 0 {
        None
    } else if ts[0].character_name@ == name {
        Some(0)
    } else {
        match spec_first_with_name(ts.drop_first(), name) {
            Some(i) => Some(i + 1),
            None => None,
        }
    }
}

fn first_with_name(reg: &ClientRegistry, name: &str) -> (r: Option<usize>)
    ensures
        ({
            let s = spec_first_with_name(reg.thumbs@, name@);
            match r {
                Some(i) => i < reg.thumbs@.len() && s == Some(i as int),
                None => s is None,
            }
        }),
{
    let ghost ts = reg.thumbs@;
    proof {
        assert(ts.skip(0) =~= ts);
    }
    let mut i: usize = 0;
    while i < reg.thumbs.len()
        invariant
            i <= ts.len(),
            ts == reg.thumbs@,
            ({
                let s = spec_first_with_name(ts, name@);
                let t = spec_first_with_name(ts.skip(i as int), name@);
                match t {
                    Some(j) => s == Some(j + i),
                    None => s is None,
                }
            }),
        decreases ts.len() - i,
    {
        proof {
            assert(ts.skip(i as int)[0] == ts[i as int]);
        }
        if crate::text::str_eq(reg.thumbs[i].character_name.as_str(), name) {
            return Some(i);
        }
        proof {
            assert(ts.skip(i as int).drop_first() =~= ts.skip(i + 1));
        }
        i = i + 1;
    }
    proof {
        assert(ts.skip(ts.len() as int).len() == 0);
    }
    None
}

/// The first identity a binding is assigned to.
pub open spec fn spec_first_binding_name(
    entries: Seq<(String, HotkeyBinding)>,
    b: HotkeyBinding,
) -> Option<Seq<char>>
    decreases entries.len(),
{
    if entries.len() == 0 {
        None
    } else if entries[0].1 == b {
        Some(entries[0].0@)
    } else {
        spec_first_binding_name(entries.drop_first(), b)
    }
}

fn first_binding_name(
    store: &crate::store::NamedStore<HotkeyBinding>,
    b: HotkeyBinding,
) -> (r: Option<String>)
    ensures
        ({
            let s = spec_first_binding_name(store.entries@, b);
            match r {
                Some(n) => s == Some(n@),
                None => s is None,
            }
        }),
{
    let ghost es = store.entries@;
    proof {
        assert(es.skip(0) =~= es);
    }
    let mut i: usize = 0;
    while i < store.entries.len()
        invariant
            i <= es.len(),
            es == store.entries@,
            spec_first_binding_name(es, b) == spec_first_binding_name(es.skip(i as int), b),
        decreases es.len() - i,
    {
        proof {
            assert(es.skip(i as int)[0] == es[i as int]);
        }
        let e = &store.entries[i];
        if e.1 == b {
            return Some(e.0.clone());
        }
        proof {
            assert(es.skip(i as int).drop_first() =~= es.skip(i + 1));
        }
        i = i + 1;
    }
    proof {
        assert(es.skip(es.len() as int).len() == 0);
    }
    None
}

/// The cycle-group entries no tracked window carries, in group order:
/// configuration the window set cannot honour, walked over silently.
pub open spec fn spec_untracked_entries(group: Seq<Seq<char>>, ts: Seq<Thumbnail>) -> Seq<
    Seq<char>,
>
    decreases group.len(),
{
    if group.len() == 0 {
        Seq::empty()
    } else {
        spec_untracked_entries(group.drop_last(), ts) + (if spec_first_with_name(
            ts,
            group.last(),
        ) is None {
            seq![group.last()]
        } else {
            Seq::empty()
        })
    }
}

/// The activation a cycle step settles on: the walk treats an entry with
/// no tracked window like a skipped one, so a configured identity that
/// is not present is passed over rather than swallowing the keystroke.
pub open spec fn spec_cycle_target(
    reg: &ClientRegistry,
    cyc: &CycleState,
    config: &DaemonConfig,
    forward: bool,
) -> Option<int> {
    let gv = crate::classify::string_views(config.profile.hotkey_cycle_group@);
    let anchor = match cyc.current {
        Some(c) => Some(c@),
        None => None,
    };
    let skips = crate::classify::string_views(cyc.skipped@) + spec_untracked_entries(
        gv,
        reg.thumbs@,
    );
    match crate::cycle::spec_cycle_next(gv, anchor, skips, forward) {
        Some(n) => spec_first_with_name(reg.thumbs@, n),
        None => None,
    }
}

/// Builds the effective skip list of a cycle step: the user's skips
/// followed by every group entry without a tracked window.
fn effective_cycle_skips(
    reg: &ClientRegistry,
    cyc: &CycleState,
    group: &Vec<String>,
) -> (r: Vec<String>)
    ensures
        crate::classify::string_views(r@) == crate::classify::string_views(cyc.skipped@)
            + spec_untracked_entries(crate::classify::string_views(group@), reg.thumbs@),
{
    let ghost sv = crate::classify::string_views(cyc.skipped@);
    let ghost gv = crate::classify::string_views(group@);
    let ghost ts = reg.thumbs@;
    let mut r: Vec<String> = Vec::new();
    let mut i: usize = 0;
    while i < cyc.skipped.len()
        invariant
            i <= cyc.skipped@.len(),
            sv == crate::classify::string_views(cyc.skipped@),
            crate::classify::string_views(r@) =~= sv.subrange(0, i as int),
        decreases cyc.skipped@.len() - i,
    {
        let ghost pre = crate::classify::string_views(r@);
        r.push(cyc.skipped[i].clone());
        proof {
            assert(crate::classify::string_views(r@) =~= pre.push(sv[i as int]));
            assert(sv.subrange(0, i + 1) =~= sv.subrange(0, i as int).push(sv[i as int]));
        }
        i = i + 1;
    }
    proof {
        assert(sv.subrange(0, sv.len() as int) =~= sv);
        assert(gv.subrange(0, 0) =~= Seq::<Seq<char>>::empty());
        assert(crate::classify::string_views(r@) =~= sv + spec_untracked_entries(
            gv.subrange(0, 0),
            ts,
        ));
    }
    let mut k: usize = 0;
    while k < group.len()
        invariant
            k <= group@.len(),
            sv == crate::classify::string_views(cyc.skipped@),
            gv == crate::classify::string_views(group@),
            ts == reg.thumbs@,
            crate::classify::string_views(r@) == sv + spec_untracked_entries(
                gv.subrange(0, k as int),
                ts,
            ),
        decreases group@.len() - k,
    {
        let ghost pre = crate::classify::string_views(r@);
        let absent = match first_with_name(reg, group[k].as_str()) {
            Some(_) => false,
            None => true,
        };
        if absent {
            r.push(group[k].clone());
            proof {
                assert(crate::classify::string_views(r@) =~= pre.push(gv[k as int]));
            }
        }
        proof {
            let next = gv.subrange(0, k + 1);
            assert(next.drop_last() =~= gv.subrange(0, k as int));
            assert(next.last() == gv[k as int]);
            if absent {
                assert(crate::classify::string_views(r@) =~= sv + (spec_untracked_entries(
                    gv.subrange(0, k as int),
                    ts,
                ) + seq![gv[k as int]]));
            } else {
                assert(crate::classify::string_views(r@) =~= sv + (spec_untracked_entries(
                    gv.subrange(0, k as int),
                    ts,
                ) + Seq::<Seq<char>>::empty()));
            }
        }
        k = k + 1;
    }
    proof {
        assert(gv.subrange(0, gv.len() as int) =~= gv);
    }
    r
}

/// A hotkey command: cycling activates the selected identity's window
/// and makes it the anchor; a character hotkey jumps to its character; a
/// profile hotkey is handed back to the configuration layer; toggle-skip
/// flips the current identity's skip flag.  A cycle-group entry no
/// tracked window carries is walked over silently, like a skipped one.
pub fn handle_hotkey(
    reg: &ClientRegistry,
    cyc: &mut CycleState,
    config: &DaemonConfig,
    cmd: &crate::hotkeys::TimestampedCommand,
) -> (actions: Vec<Action>)
    ensures
        ({
            let ts = reg.thumbs@;
            match cmd.command {
                crate::hotkeys::CycleCommand::Forward | crate::hotkeys::CycleCommand::Backward => {
                    let forward = cmd.command is Forward;
                    match spec_cycle_target(reg, old(cyc), config, forward) {
                        Some(i) => {
                            &&& actions@ == seq![
                                Action::Activate { window: ts[i].src, time: cmd.timestamp },
                            ]
                            &&& final(cyc).current matches Some(c) && c@ == ts[
                                i
                            ].character_name@
                            &&& final(cyc).current_window == Some(ts[i].src)
                            &&& final(cyc).skipped == old(cyc).skipped
                        },
                        None => actions@.len() == 0 && *final(cyc) == *old(cyc),
                    }
                },
                crate::hotkeys::CycleCommand::CharacterHotkey(b) => {
                    match spec_first_binding_name(config.profile.character_hotkeys.entries@, b) {
                        Some(n) => match spec_first_with_name(ts, n) {
                            Some(i) => {
                                &&& actions@ == seq![
                                    Action::Activate { window: ts[i].src, time: cmd.timestamp },
                                ]
                                &&& final(cyc).current matches Some(c) && c@ == ts[
                                    i
                                ].character_name@
                                &&& final(cyc).current_window == Some(ts[i].src)
                                &&& final(cyc).skipped == old(cyc).skipped
                            },
                            None => actions@.len() == 0 && *final(cyc) == *old(cyc),
                        },
                        None => actions@.len() == 0 && *final(cyc) == *old(cyc),
                    }
                },
                crate::hotkeys::CycleCommand::ProfileHotkey(b) => {
                    &&& actions@ == seq![Action::SwapProfile { binding: b }]
                    &&& *final(cyc) == *old(cyc)
                },
                crate::hotkeys::CycleCommand::ToggleSkip => {
                    &&& actions@.len() == 0
                    &&& match old(cyc).current {
                        Some(n) => {
                            &&& spec_name_in_skip(final(cyc), n@) == !spec_name_in_skip(
                                old(cyc),
                                n@,
                            )
                            &&& final(cyc).current == old(cyc).current
                            &&& final(cyc).current_window == old(cyc).current_window
                        },
                        None => *final(cyc) == *old(cyc),
                    }
                },
            }
        }),
{
    let mut actions: Vec<Action> = Vec::new();
    match &cmd.command {
        crate::hotkeys::CycleCommand::Forward | crate::hotkeys::CycleCommand::Backward => {
            let forward = matches!(cmd.command, crate::hotkeys::CycleCommand::Forward);
            let skips = effective_cycle_skips(reg, cyc, &config.profile.hotkey_cycle_group);
            let next = crate::cycle::cycle_select(
                &config.profile.hotkey_cycle_group,
                &cyc.current,
                &skips,
                forward,
            );
            match next {
                Some(n) => {
                    match first_with_name(reg, n.as_str()) {
                        Some(i) => {
                            let src = reg.thumbs[i].src;
                            let name = reg.thumbs[i].character_name.clone();
                            cyc.set_current(name.as_str(), src);
                            actions.push(Action::Activate { window: src, time: cmd.timestamp });
                        },
                        None => {},
                    }
                },
                None => {},
            }
        },
        crate::hotkeys::CycleCommand::CharacterHotkey(b) => {
            match first_binding_name(&config.profile.character_hotkeys, *b) {
                Some(n) => {
                    match first_with_name(reg, n.as_str()) {
                        Some(i) => {
                            let src = reg.thumbs[i].src;
                            let name = reg.thumbs[i].character_name.clone();
                            cyc.set_current(name.as_str(), src);
                            actions.push(Action::Activate { window: src, time: cmd.timestamp });
                        },
                        None => {},
                    }
                },
                None => {},
            }
        },
        crate::hotkeys::CycleCommand::ProfileHotkey(b) => {
            actions.push(Action::SwapProfile { binding: *b });
        },
        crate::hotkeys::CycleCommand::ToggleSkip => {
            let current = match &cyc.current {
                Some(n) => Some(n.clone()),
                None => None,
            };
            match current {
                Some(n) => {
                    cyc.toggle_skip(n.as_str());
                },
                None => {},
            }
        },
    }
    actions
}

/// Everything of the configuration except the two thumbnail-settings
/// stores.
pub open spec fn spec_config_same_but_stores(a: &DaemonConfig, b: &DaemonConfig) -> bool {
    &&& b.known_classes == a.known_classes
    &&& b.enabled == a.enabled
    &&& b.active_border_color == a.active_border_color
    &&& b.skipped_border_color == a.skipped_border_color
    &&& b.default_border_color == a.default_border_color
    &&& b.profile.custom_windows == a.profile.custom_windows
    &&& b.profile.hotkey_cycle_group == a.profile.hotkey_cycle_group
    &&& b.profile.character_hotkey_order == a.profile.character_hotkey_order
    &&& b.profile.character_hotkeys == a.profile.character_hotkeys
    &&& b.profile.client_minimize_on_switch == a.profile.client_minimize_on_switch
    &&& b.profile.client_minimize_show_overlay == a.profile.client_minimize_show_overlay
    &&& b.profile.thumbnail_hide_not_focused == a.profile.thumbnail_hide_not_focused
    &&& b.profile.thumbnail_auto_save_position == a.profile.thumbnail_auto_save_position
    &&& b.profile.thumbnail_preserve_position_on_swap
        == a.profile.thumbnail_preserve_position_on_swap
    &&& b.profile.thumbnail_snap_threshold == a.profile.thumbnail_snap_threshold
    &&& b.profile.default_thumbnail_width == a.profile.default_thumbnail_width
    &&& b.profile.default_thumbnail_height == a.profile.default_thumbnail_height
}

} // verus!
