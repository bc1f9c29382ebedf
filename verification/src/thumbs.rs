//! The thumbnail model and the registry of tracked clients.
//!
//! A `Thumbnail` mirrors one tracked source window: which overlay shows
//! it, where the overlay sits, its interaction state and its drag state.
//! The registry owns one thumbnail per tracked source window and keeps
//! the mapping from source window to identity injective, except for the
//! reserved logged-out identity (the empty name), which may appear on
//! any number of windows at once.

use vstd::prelude::*;

use crate::geometry::{Dimensions, Position, Rect};

verus! {

/// What an overlay currently shows.
#[derive(Clone, Copy, Debug, PartialEq, Eq, Structural)]
pub enum ThumbnailState {
    /// A live mirror of the source, with or without the focused border.
    Normal { focused: bool },
    /// The source is iconified; the overlay shows the minimized fill.
    Minimized,
    /// The overlay is unmapped by the auto-hide.
    Hidden,
}

impl ThumbnailState {
    pub fn is_minimized(&self) -> (r: bool)
        ensures
            r == (*self is Minimized),
    {
        match self {
            ThumbnailState::Minimized => true,
            _ => false,
        }
    }

    pub fn is_focused(&self) -> (r: bool)
        ensures
            r == (*self matches ThumbnailState::Normal { focused: true }),
    {
        match self {
            ThumbnailState::Normal { focused } => *focused,
            _ => false,
        }
    }
}

/// The interaction state of one thumbnail during a drag.
pub struct InputState {
    pub dragging: bool,
    /// Root pointer position at drag start.
    pub drag_start: Position,
    /// Overlay position at drag start.
    pub win_start: Position,
    /// The frozen geometries the snap solver works against.
    pub snap_targets: Vec<Rect>,
}

impl InputState {
    pub fn idle() -> (r: InputState)
        ensures
            !r.dragging,
            r.snap_targets@.len() == 0,
            r.drag_start == (Position { x: 0 as i16, y: 0 as i16 }),
            r.win_start == (Position { x: 0 as i16, y: 0 as i16 }),
    {
        InputState {
            dragging: false,
            drag_start: Position { x: 0, y: 0 },
            win_start: Position { x: 0, y: 0 },
            snap_targets: Vec::new(),
        }
    }
}

/// The model of one tracked client's thumbnail.
pub struct Thumbnail {
    /// The mirrored source window.
    pub src: u32,
    /// The overlay window owned by this thumbnail.
    pub overlay: u32,
    /// The identity: a character name, a rule alias, or empty when
    /// logged out.
    pub character_name: String,
    pub position: Position,
    pub dimensions: Dimensions,
    pub state: ThumbnailState,
    /// Whether the overlay is currently mapped.
    pub visible: bool,
    pub input_state: InputState,
}

impl Thumbnail {
    pub open spec fn spec_rect(&self) -> Rect {
        Rect {
            x: self.position.x,
            y: self.position.y,
            width: self.dimensions.width,
            height: self.dimensions.height,
        }
    }

    /// Whether a root coordinate falls on this thumbnail.
    pub fn is_hovered(&self, root_x: i16, root_y: i16) -> (r: bool)
        ensures
            r == self.spec_rect().spec_contains_point(root_x as int, root_y as int),
    {
        let rect = Rect {
            x: self.position.x,
            y: self.position.y,
            width: self.dimensions.width,
            height: self.dimensions.height,
        };
        rect.contains_point(root_x, root_y)
    }

    pub fn is_visible(&self) -> (r: bool)
        ensures
            r == self.visible,
    {
        self.visible
    }
}

/// The first thumbnail the pointer position falls on, among the visible
/// ones.
pub open spec fn spec_first_hovered(ts: Seq<Thumbnail>, x: int, y: int) -> Option<int>
    decreases ts.len(),
{
    if ts.len() == 0 {
        None
    } else if ts[0].visible && ts[0].spec_rect().spec_contains_point(x, y) {
        Some(0)
    } else {
        match spec_first_hovered(ts.drop_first(), x, y) {
            Some(i) => Some(i + 1),
            None => None,
        }
    }
}

/// The first thumbnail currently being dragged.
pub open spec fn spec_first_dragging(ts: Seq<Thumbnail>) -> Option<int>
    decreases ts.len(),
{
    if ts.len() == 0 {
        None
    } else if ts[0].input_state.dragging {
        Some(0)
    } else {
        match spec_first_dragging(ts.drop_first()) {
            Some(i) => Some(i + 1),
            None => None,
        }
    }
}

/// The index of the thumbnail mirroring source window `w`.
pub open spec fn spec_index_of_src(ts: Seq<Thumbnail>, w: u32) -> Option<int>
    decreases ts.len(),
{
    if ts.len() == 0 {
        None
    } else if ts[0].src == w {
        Some(0)
    } else {
        match spec_index_of_src(ts.drop_first(), w) {
            Some(i) => Some(i + 1),
            None => None,
        }
    }
}

pub open spec fn spec_tracks_src(ts: Seq<Thumbnail>, w: u32) -> bool {
    exists|i: int| 0 <= i < ts.len() && ts[i].src == w
}

pub open spec fn spec_has_identity(ts: Seq<Thumbnail>, name: Seq<char>) -> bool {
    exists|i: int| 0 <= i < ts.len() && ts[i].character_name@ == name
}

/// The geometries of every visible thumbnail other than the one
/// mirroring `skip_src`: the snap targets a drag of that thumbnail is
/// frozen against.
pub open spec fn spec_snap_targets_of(ts: Seq<Thumbnail>, skip_src: u32) -> Seq<Rect>
    decreases ts.len(),
{
    if ts.len() == 0 {
        Seq::empty()
    } else {
        let rest = spec_snap_targets_of(ts.drop_last(), skip_src);
        if ts.last().visible && ts.last().src != skip_src {
            rest.push(ts.last().spec_rect())
        } else {
            rest
        }
    }
}

/// Well-formedness of a thumbnail sequence: source windows are unique,
/// and no two windows carry the same non-empty identity.
pub open spec fn wf_thumbs(ts: Seq<Thumbnail>) -> bool {
    &&& forall|i: int, j: int| 0 <= i < j < ts.len() ==> ts[i].src != ts[j].src
    &&& forall|i: int, j: int|
        0 <= i < j < ts.len() && ts[i].character_name@ == ts[j].character_name@ ==> ts[
            i
        ].character_name@.len() == 0
}

/// A transformation that keeps every thumbnail's source window and
/// identity keeps the registry well-formed.
pub proof fn lemma_wf_same_ids(a: Seq<Thumbnail>, b: Seq<Thumbnail>)
    requires
        wf_thumbs(a),
        b.len() == a.len(),
        forall|i: int|
            0 <= i < a.len() ==> #[trigger] b[i].src == a[i].src && b[i].character_name@ == a[
                i
            ].character_name@,
    ensures
        wf_thumbs(b),
{
    assert forall|i: int, j: int| 0 <= i < j < b.len() implies b[i].src != b[j].src by {
        assert(b[i].src == a[i].src);
        assert(b[j].src == a[j].src);
    }
    assert forall|i: int, j: int|
        0 <= i < j < b.len() && b[i].character_name@ == b[j].character_name@ implies b[
        i
    ].character_name@.len() == 0 by {
        assert(b[i].character_name@ == a[i].character_name@);
        assert(b[j].character_name@ == a[j].character_name@);
    }
}

/// The registry of tracked clients: one thumbnail per source window.
pub struct ClientRegistry {
    pub thumbs: Vec<Thumbnail>,
}

impl ClientRegistry {
    /// Well-formedness: source windows are unique, and no two windows
    /// carry the same non-empty identity.
    pub open spec fn wf(&self) -> bool {
        wf_thumbs(self.thumbs@)
    }

    pub fn new() -> (r: ClientRegistry)
        ensures
            r.wf(),
            r.thumbs@.len() == 0,
    {
        ClientRegistry { thumbs: Vec::new() }
    }

    pub fn len(&self) -> (r: usize)
        ensures
            r == self.thumbs@.len(),
    {
        self.thumbs.len()
    }

    /// Finds the thumbnail mirroring a source window.
    pub fn index_of_src(&self, w: u32) -> (r: Option<usize>)
        ensures
            ({
                let s = spec_index_of_src(self.thumbs@, w);
                match r {
                    Some(i) => i < self.thumbs@.len() && s == Some(i as int) && self.thumbs@[
                        i as int
                    ].src == w,
                    None => s is None && !spec_tracks_src(self.thumbs@, w),
                }
            }),
    {
        let ghost ts = self.thumbs@;
        proof {
            assert(ts.skip(0) =~= ts);
        }
        let mut i: usize = 0;
        while i < self.thumbs.len()
            invariant
                i <= ts.len(),
                ts == self.thumbs@,
                forall|j: int| 0 <= j < i ==> ts[j].src != w,
                ({
                    let s = spec_index_of_src(ts, w);
                    let t = spec_index_of_src(ts.skip(i as int), w);
                    match t {
                        Some(j) => s == Some(j + i),
                        None => s is None,
                    }
                }),
            decreases ts.len() - i,
        {
            proof {
                assert(ts.skip(i as int)[0] == ts[i as int]);
            }
            if self.thumbs[i].src == w {
                return Some(i);
            }
            proof {
                assert(ts.skip(i as int).drop_first() =~= ts.skip(i + 1));
            }
            i = i + 1;
        }
        proof {
            assert(ts.skip(ts.len() as int).len() == 0);
            assert forall|j: int| 0 <= j < ts.len() implies ts[j].src != w by {}
        }
        None
    }

    /// Whether a source window is tracked.
    pub fn tracks(&self, w: u32) -> (r: bool)
        ensures
            r == spec_tracks_src(self.thumbs@, w),
    {
        match self.index_of_src(w) {
            Some(i) => {
                proof {
                    assert(spec_tracks_src(self.thumbs@, w));
                }
                true
            },
            None => false,
        }
    }

    /// Whether some tracked window already carries this identity.
    pub fn has_identity(&self, name: &str) -> (r: bool)
        ensures
            r == spec_has_identity(self.thumbs@, name@),
    {
        let ghost ts = self.thumbs@;
        let mut i: usize = 0;
        while i < self.thumbs.len()
            invariant
                i <= ts.len(),
                ts == self.thumbs@,
                forall|j: int| 0 <= j < i ==> ts[j].character_name@ != name@,
            decreases ts.len() - i,
        {
            if crate::text::str_eq(self.thumbs[i].character_name.as_str(), name) {
                assert(ts[i as int].character_name@ == name@);
                return true;
            }
            i = i + 1;
        }
        false
    }

    /// Inserts a thumbnail for a source window that is not yet tracked
    /// and whose identity, unless it is the logged-out sentinel, is not
    /// yet carried by any tracked window.
    pub fn insert(&mut self, t: Thumbnail)
        requires
            old(self).wf(),
            !spec_tracks_src(old(self).thumbs@, t.src),
            t.character_name@.len() > 0 ==> !spec_has_identity(old(self).thumbs@, t.character_name@),
        ensures
            final(self).wf(),
            final(self).thumbs@ == old(self).thumbs@.push(t),
    {
        let ghost orig = self.thumbs@;
        self.thumbs.push(t);
        proof {
            assert forall|i: int, j: int| 0 <= i < j < self.thumbs@.len() implies self.thumbs@[
                i
            ].src != self.thumbs@[j].src by {
                if j < orig.len() {
                } else {
                    assert(self.thumbs@[j] == t);
                    assert(self.thumbs@[i] == orig[i]);
                    assert(!(orig[i].src == t.src)) by {
                        if orig[i].src == t.src {
                            assert(spec_tracks_src(orig, t.src));
                        }
                    }
                }
            }
            assert forall|i: int, j: int|
                0 <= i < j < self.thumbs@.len() && self.thumbs@[i].character_name@
                    == self.thumbs@[j].character_name@ implies self.thumbs@[
                i
            ].character_name@.len() == 0 by {
                if j < orig.len() {
                } else {
                    assert(self.thumbs@[j] == t);
                    assert(self.thumbs@[i] == orig[i]);
                    if orig[i].character_name@ == t.character_name@
                        && t.character_name@.len() > 0 {
                        assert(spec_has_identity(orig, t.character_name@));
                    }
                }
            }
        }
    }

    /// Drops the thumbnail of a source window; the remaining thumbnails
    /// keep their order.
    pub fn remove_by_src(&mut self, w: u32) -> (r: Option<Thumbnail>)
        requires
            old(self).wf(),
        ensures
            final(self).wf(),
            !spec_tracks_src(final(self).thumbs@, w),
            match spec_index_of_src(old(self).thumbs@, w) {
                Some(i) => {
                    &&& r matches Some(t) && t == old(self).thumbs@[i]
                    &&& final(self).thumbs@ == old(self).thumbs@.remove(i)
                },
                None => r is None && final(self).thumbs@ == old(self).thumbs@,
            },
    {
        let found = self.index_of_src(w);
        match found {
            Some(i) => {
                let ghost orig = self.thumbs@;
                let t = self.thumbs.remove(i);
                proof {
                    let cur = self.thumbs@;
                    assert(cur == orig.remove(i as int));
                    assert(forall|j: int| 0 <= j < i ==> cur[j] == orig[j]);
                    assert(forall|j: int| i <= j < cur.len() ==> cur[j] == orig[j + 1]);
                    assert forall|a: int, b: int| 0 <= a < b < cur.len() implies cur[a].src
                        != cur[b].src && (cur[a].character_name@ == cur[b].character_name@
                        ==> cur[a].character_name@.len() == 0) by {
                        let a0: int = if a < i {
                            a
                        } else {
                            a + 1
                        };
                        let b0: int = if b < i {
                            b
                        } else {
                            b + 1
                        };
                        assert(cur[a] == orig[a0]);
                        assert(cur[b] == orig[b0]);
                    }
                    assert forall|j: int| 0 <= j < cur.len() implies cur[j].src != w by {
                        let j0: int = if j < i {
                            j
                        } else {
                            j + 1
                        };
                        assert(cur[j] == orig[j0]);
                        if j0 < i {
                            lemma_index_of_src_prefix(orig, w, j0);
                        } else if j0 == i {
                        } else {
                            if orig[j0].src == w {
                                assert(orig[i as int].src == w);
                            }
                        }
                    }
                }
                Some(t)
            },
            None => {
                proof {
                    assert(!spec_tracks_src(self.thumbs@, w));
                }
                None
            },
        }
    }
}

/// Entries before the first occurrence of `w` do not bear `w`.
proof fn lemma_index_of_src_prefix(ts: Seq<Thumbnail>, w: u32, j: int)
    requires
        0 <= j < ts.len(),
        match spec_index_of_src(ts, w) {
            Some(i) => j < i,
            None => true,
        },
    ensures
        ts[j].src != w,
    decreases ts.len(),
{
    if ts.len() > 0 {
        if ts[0].src == w {
        } else {
            if j > 0 {
                lemma_index_of_src_prefix(ts.drop_first(), w, j - 1);
            }
        }
    }
}

/// Identity uniqueness: in a well-formed registry two distinct tracked
/// windows never carry the same non-empty identity; only the reserved
/// logged-out identity (the empty name) may repeat.
pub proof fn lemma_identity_unique(reg: &ClientRegistry, i: int, j: int)
    requires
        reg.wf(),
        0 <= i < reg.thumbs@.len(),
        0 <= j < reg.thumbs@.len(),
        i != j,
        reg.thumbs@[i].character_name@ == reg.thumbs@[j].character_name@,
    ensures
        reg.thumbs@[i].character_name@.len() == 0,
{
    if i < j {
    } else {
    }
}

} // verus!
