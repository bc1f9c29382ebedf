//! The snap solver used during thumbnail drags.
//!
//! Given the rectangle being dragged, the frozen list of neighbor
//! rectangles, and a pixel threshold, each axis is solved independently:
//! every pairing of a dragged edge with a neighbor edge whose distance is
//! within the threshold is a candidate, the closest candidate wins (the
//! earliest on a tie), and an axis without a candidate keeps its raw
//! coordinate.  A threshold of zero disables snapping entirely.

use vstd::prelude::*;

use crate::geometry::{Dimensions, Position, Rect};

verus! {

pub open spec fn dist(a: int, b: int) -> int {
    if a >= b {
        a - b
    } else {
        b - a
    }
}

/// A candidate coordinate is admitted when it is representable and within
/// the threshold of the raw coordinate.
pub open spec fn admitted(pos: int, t: int, c: int) -> bool {
    &&& i16::MIN <= c <= i16::MAX
    &&& dist(c, pos) <= t
}

/// One step of the axis solver: replace the best candidate so far only by
/// an admitted candidate that is strictly closer, so the earliest of
/// equally close candidates wins.
pub open spec fn snap_step(pos: int, t: int, acc: Option<int>, c: int) -> Option<int> {
    if admitted(pos, t, c) && (acc is None || dist(c, pos) < dist(acc->0, pos)) {
        Some(c)
    } else {
        acc
    }
}

/// The best admitted candidate of `cands`, taken in order.
pub open spec fn best_candidate(pos: int, t: int, cands: Seq<int>) -> Option<int>
    decreases cands.len(),
{
    if cands.len() == 0 {
        None
    } else {
        snap_step(pos, t, best_candidate(pos, t, cands.drop_last()), cands.last())
    }
}

/// The projection of a rectangle onto one axis: coordinate and extent.
pub open spec fn x_span(r: Rect) -> (int, int) {
    (r.x as int, r.width as int)
}

pub open spec fn y_span(r: Rect) -> (int, int) {
    (r.y as int, r.height as int)
}

pub open spec fn x_spans(ns: Seq<Rect>) -> Seq<(int, int)> {
    ns.map_values(|r: Rect| x_span(r))
}

pub open spec fn y_spans(ns: Seq<Rect>) -> Seq<(int, int)> {
    ns.map_values(|r: Rect| y_span(r))
}

/// The opposite-edge pairings of the dragged extent `size` against one
/// neighbor span: the dragged leading edge against the neighbor's
/// trailing edge, then the dragged trailing edge against the neighbor's
/// leading edge — the coincidences that place the two rectangles side by
/// side.
pub open spec fn edge_candidates(n: (int, int), size: int) -> Seq<int> {
    seq![n.0 + n.1, n.0 - size]
}

/// All candidates of an axis, in neighbor order.
pub open spec fn axis_candidates(ns: Seq<(int, int)>, size: int) -> Seq<int>
    decreases ns.len(),
{
    if ns.len() == 0 {
        Seq::empty()
    } else {
        axis_candidates(ns.drop_last(), size) + edge_candidates(ns.last(), size)
    }
}

/// The solved coordinate of one axis: none when the threshold is zero or
/// no candidate is admitted.
pub open spec fn snap_axis(pos: int, size: int, ns: Seq<(int, int)>, t: int) -> Option<int> {
    if t <= 0 {
        None
    } else {
        best_candidate(pos, t, axis_candidates(ns, size))
    }
}

/// The snapped position, or none when neither axis snapped.
pub open spec fn spec_snap(d: Rect, ns: Seq<Rect>, t: int) -> Option<(int, int)> {
    let sx = snap_axis(d.x as int, d.width as int, x_spans(ns), t);
    let sy = snap_axis(d.y as int, d.height as int, y_spans(ns), t);
    if sx is None && sy is None {
        None
    } else {
        Some(
            (
                if sx is Some {
                    sx->0
                } else {
                    d.x as int
                },
                if sy is Some {
                    sy->0
                } else {
                    d.y as int
                },
            ),
        )
    }
}

/// The position a drag settles on: the snapped position when an axis
/// snapped, the raw dragged position otherwise.
pub open spec fn spec_snap_effective(d: Rect, ns: Seq<Rect>, t: int) -> (int, int) {
    match spec_snap(d, ns, t) {
        Some(p) => p,
        None => (d.x as int, d.y as int),
    }
}

fn step_exec(pos: i32, t: u16, acc: Option<i32>, c: i32) -> (r: Option<i32>)
    requires
        i16::MIN <= pos <= i16::MAX,
        -200000 <= c <= 200000,
        acc matches Some(a) ==> i16::MIN <= a <= i16::MAX,
    ensures
        ({
            let s = snap_step(
                pos as int,
                t as int,
                match acc {
                    Some(a) => Some(a as int),
                    None => None,
                },
                c as int,
            );
            match r {
                Some(v) => i16::MIN <= v <= i16::MAX && s == Some(v as int),
                None => s is None,
            }
        }),
{
    let in_range = c >= i16::MIN as i32 && c <= i16::MAX as i32;
    let d: i32 = if c >= pos {
        c - pos
    } else {
        pos - c
    };
    if in_range && d <= t as i32 {
        match acc {
            None => Some(c),
            Some(a) => {
                let da: i32 = if a >= pos {
                    a - pos
                } else {
                    pos - a
                };
                if d < da {
                    Some(c)
                } else {
                    acc
                }
            },
        }
    } else {
        acc
    }
}

/// Solves the snap for a dragged rectangle against the frozen neighbor
/// list: the returned position carries the snapped coordinate on each
/// axis that snapped and the raw coordinate on the other, and is absent
/// exactly when no axis snapped (in particular whenever `threshold` is
/// zero).
pub fn find_snap_position(dragged: Rect, targets: &Vec<Rect>, threshold: u16) -> (r: Option<
    Position,
>)
    ensures
        match r {
            Some(p) => spec_snap(dragged, targets@, threshold as int) == Some(
                (p.x as int, p.y as int),
            ),
            None => spec_snap(dragged, targets@, threshold as int) is None,
        },
{
    if threshold == 0 {
        return None;
    }
    let px: i32 = dragged.x as i32;
    let py: i32 = dragged.y as i32;
    let w: i32 = dragged.width as i32;
    let h: i32 = dragged.height as i32;
    let mut best_x: Option<i32> = None;
    let mut best_y: Option<i32> = None;
    let ghost t_int: int = threshold as int;
    let mut i: usize = 0;
    while i < targets.len()
        invariant
            i <= targets.len(),
            threshold > 0,
            px == dragged.x as int,
            py == dragged.y as int,
            w == dragged.width as int,
            h == dragged.height as int,
            t_int == threshold as int,
            match best_x {
                Some(v) => i16::MIN <= v <= i16::MAX && best_candidate(
                    px as int,
                    t_int,
                    axis_candidates(x_spans(targets@.subrange(0, i as int)), w as int),
                ) == Some(v as int),
                None => best_candidate(
                    px as int,
                    t_int,
                    axis_candidates(x_spans(targets@.subrange(0, i as int)), w as int),
                ) is None,
            },
            match best_y {
                Some(v) => i16::MIN <= v <= i16::MAX && best_candidate(
                    py as int,
                    t_int,
                    axis_candidates(y_spans(targets@.subrange(0, i as int)), h as int),
                ) == Some(v as int),
                None => best_candidate(
                    py as int,
                    t_int,
                    axis_candidates(y_spans(targets@.subrange(0, i as int)), h as int),
                ) is None,
            },
        decreases targets.len() - i,
    {
        let n = targets[i];
        let nx: i32 = n.x as i32;
        let nw: i32 = n.width as i32;
        let ny: i32 = n.y as i32;
        let nh: i32 = n.height as i32;

        let ghost prev_x = x_spans(targets@.subrange(0, i as int));
        let ghost prev_y = y_spans(targets@.subrange(0, i as int));

        best_x = step_exec(px, threshold, best_x, nx + nw);
        best_x = step_exec(px, threshold, best_x, nx - w);

        best_y = step_exec(py, threshold, best_y, ny + nh);
        best_y = step_exec(py, threshold, best_y, ny - h);

        proof {
            let next = targets@.subrange(0, i + 1);
            assert(next.drop_last() =~= targets@.subrange(0, i as int));
            assert(x_spans(next).drop_last() =~= prev_x);
            assert(x_spans(next).last() == x_span(n));
            lemma_axis_candidates_push(prev_x, x_span(n), w as int, px as int, t_int);
            assert(x_spans(next) =~= prev_x.push(x_span(n)));
            assert(axis_candidates(x_spans(next), w as int) =~= axis_candidates(
                prev_x.push(x_span(n)),
                w as int,
            ));
            assert(y_spans(next) =~= prev_y.push(y_span(n)));
            lemma_axis_candidates_push(prev_y, y_span(n), h as int, py as int, t_int);
        }
        i = i + 1;
    }
    proof {
        assert(targets@.subrange(0, targets@.len() as int) =~= targets@);
    }
    match (best_x, best_y) {
        (None, None) => None,
        (sx, sy) => {
            let fx: i32 = match sx {
                Some(v) => v,
                None => px,
            };
            let fy: i32 = match sy {
                Some(v) => v,
                None => py,
            };
            Some(Position { x: fx as i16, y: fy as i16 })
        },
    }
}

/// The raw dragged coordinates: the window's position at drag start,
/// displaced by how far the pointer has travelled since drag start.
pub open spec fn raw_drag(win_start: Position, drag_start: Position, root: Position) -> (int, int) {
    (
        win_start.x + root.x - drag_start.x,
        win_start.y + root.y - drag_start.y,
    )
}

/// The position a drag motion settles the thumbnail on: the raw dragged
/// position, corrected by the snap solver against the frozen targets.
pub open spec fn spec_drag_target(
    win_start: Position,
    drag_start: Position,
    root: Position,
    dims: Dimensions,
    ns: Seq<Rect>,
    t: int,
) -> (int, int)
    recommends
        i16::MIN <= raw_drag(win_start, drag_start, root).0 <= i16::MAX,
        i16::MIN <= raw_drag(win_start, drag_start, root).1 <= i16::MAX,
{
    let raw = raw_drag(win_start, drag_start, root);
    spec_snap_effective(
        Rect { x: raw.0 as i16, y: raw.1 as i16, width: dims.width, height: dims.height },
        ns,
        t,
    )
}

/// Computes where a drag motion puts the thumbnail.  The raw position
/// must stay on the signed 16-bit coordinate grid of the display server.
pub fn drag_target(
    win_start: Position,
    drag_start: Position,
    root: Position,
    dims: Dimensions,
    targets: &Vec<Rect>,
    threshold: u16,
) -> (r: Position)
    requires
        i16::MIN <= raw_drag(win_start, drag_start, root).0 <= i16::MAX,
        i16::MIN <= raw_drag(win_start, drag_start, root).1 <= i16::MAX,
    ensures
        (r.x as int, r.y as int) == spec_drag_target(
            win_start,
            drag_start,
            root,
            dims,
            targets@,
            threshold as int,
        ),
{
    let dx: i32 = root.x as i32 - drag_start.x as i32;
    let dy: i32 = root.y as i32 - drag_start.y as i32;
    let new_x: i16 = (win_start.x as i32 + dx) as i16;
    let new_y: i16 = (win_start.y as i32 + dy) as i16;
    let dragged = Rect { x: new_x, y: new_y, width: dims.width, height: dims.height };
    match find_snap_position(dragged, targets, threshold) {
        Some(p) => p,
        None => Position { x: new_x, y: new_y },
    }
}

/// A zero threshold disables snapping: the solver abstains on every input.
pub proof fn lemma_snap_zero_threshold(d: Rect, ns: Seq<Rect>)
    ensures
        spec_snap(d, ns, 0) is None,
{
}

/// Without neighbors there is nothing to snap to.
pub proof fn lemma_snap_no_targets(d: Rect, t: int)
    ensures
        spec_snap(d, Seq::<Rect>::empty(), t) is None,
{
    assert(x_spans(Seq::<Rect>::empty()).len() == 0);
    assert(y_spans(Seq::<Rect>::empty()).len() == 0);
}

/// Drag quiescence: when the pointer has not moved since drag start and
/// the solver abstains on the start rectangle — in particular whenever
/// the target list is empty or the threshold is zero — the thumbnail
/// stays at its drag-start position.  (With a neighbor edge within the
/// threshold of the start rectangle the solver may still move it.)
pub proof fn lemma_drag_quiescent(
    win_start: Position,
    drag_start: Position,
    root: Position,
    dims: Dimensions,
    ns: Seq<Rect>,
    t: int,
)
    requires
        root == drag_start,
        spec_snap(
            Rect { x: win_start.x, y: win_start.y, width: dims.width, height: dims.height },
            ns,
            t,
        ) is None,
    ensures
        spec_drag_target(win_start, drag_start, root, dims, ns, t) == (
            win_start.x as int,
            win_start.y as int,
        ),
{
    assert(raw_drag(win_start, drag_start, root) == (win_start.x as int, win_start.y as int));
}

/// On-axis independence, first half: the settled coordinate of an axis
/// depends only on the projections of the inputs onto that axis.
pub proof fn lemma_snap_axis_projection(d1: Rect, d2: Rect, ns1: Seq<Rect>, ns2: Seq<Rect>, t: int)
    requires
        d1.x == d2.x,
        d1.width == d2.width,
        x_spans(ns1) == x_spans(ns2),
    ensures
        spec_snap_effective(d1, ns1, t).0 == spec_snap_effective(d2, ns2, t).0,
{
}

pub open spec fn swap_rect(r: Rect) -> Rect {
    Rect { x: r.y, y: r.x, width: r.height, height: r.width }
}

/// On-axis independence, second half: swapping the horizontal and
/// vertical coordinates of every input swaps them in the output.
pub proof fn lemma_snap_swap(d: Rect, ns: Seq<Rect>, t: int)
    ensures
        spec_snap_effective(swap_rect(d), ns.map_values(|r: Rect| swap_rect(r)), t) == (
            spec_snap_effective(d, ns, t).1,
            spec_snap_effective(d, ns, t).0,
        ),
{
    let swapped = ns.map_values(|r: Rect| swap_rect(r));
    assert(x_spans(swapped) =~= y_spans(ns));
    assert(y_spans(swapped) =~= x_spans(ns));
}

/// Appending one neighbor span appends its two edge candidates, so the
/// folded best over the extended axis is two solver steps further on.
proof fn lemma_axis_candidates_push(ns: Seq<(int, int)>, n: (int, int), size: int, pos: int, t: int)
    ensures
        best_candidate(pos, t, axis_candidates(ns.push(n), size)) == snap_step(
            pos,
            t,
            snap_step(pos, t, best_candidate(pos, t, axis_candidates(ns, size)), n.0 + n.1),
            n.0 - size,
        ),
{
    let base = axis_candidates(ns, size);
    assert(ns.push(n).drop_last() =~= ns);
    assert(ns.push(n).last() == n);
    assert(axis_candidates(ns.push(n), size) == base + edge_candidates(n, size));
    let full = base + edge_candidates(n, size);
    let s1 = base + seq![n.0 + n.1];
    assert(full.len() == base.len() + 2);
    assert(full.drop_last() =~= s1);
    assert(full.last() == n.0 - size);
    assert(s1.drop_last() =~= base);
    assert(s1.last() == n.0 + n.1);
    assert(best_candidate(pos, t, s1) == snap_step(
        pos,
        t,
        best_candidate(pos, t, base),
        n.0 + n.1,
    ));
    assert(best_candidate(pos, t, full) == snap_step(
        pos,
        t,
        best_candidate(pos, t, s1),
        n.0 - size,
    ));
}

} // verus!
