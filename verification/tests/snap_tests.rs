use eve_preview_manager::geometry::{Dimensions, Position, Rect};
use eve_preview_manager::snap::{drag_target, find_snap_position};

fn rect(x: i16, y: i16, w: u16, h: u16) -> Rect {
    Rect { x, y, width: w, height: h }
}

#[test]
fn snap_returns_absent_with_zero_threshold() {
    // Even a neighbor at exact edge coincidence does not snap at T = 0.
    let targets = vec![rect(400, 100, 300, 200)];
    let dragged = rect(100, 100, 300, 200);
    assert_eq!(find_snap_position(dragged, &targets, 0), None);
}

#[test]
fn snap_returns_absent_without_neighbors() {
    let targets: Vec<Rect> = Vec::new();
    assert_eq!(find_snap_position(rect(10, 10, 50, 50), &targets, 25), None);
}

#[test]
fn snap_right_edge_to_left_edge() {
    // The dragged right edge lands on the neighbor's left edge.
    let targets = vec![rect(405, 100, 300, 200)];
    let dragged = rect(103, 105, 300, 200);
    let snapped = find_snap_position(dragged, &targets, 10).expect("within threshold");
    assert_eq!(snapped.x, 105);
    // No vertical candidate within threshold: the raw y is kept.
    assert_eq!(snapped.y, 105);
}

#[test]
fn snap_left_edge_to_right_edge() {
    let targets = vec![rect(0, 0, 100, 100)];
    let dragged = rect(104, 300, 50, 50);
    let snapped = find_snap_position(dragged, &targets, 10).expect("within threshold");
    assert_eq!(snapped.x, 100);
    assert_eq!(snapped.y, 300);
}

#[test]
fn snap_closest_candidate_wins_per_axis() {
    // Two neighbors offer candidates at distance 4 and distance 2; the
    // closer one wins.
    let targets = vec![rect(154, 500, 40, 40), rect(0, 500, 102, 40)];
    // dragged left edge at 100: neighbor 2's right edge is at 102 (d 2);
    // neighbor 1's left edge minus width gives 104 (d 4).
    let dragged = rect(100, 500, 50, 40);
    let snapped = find_snap_position(dragged, &targets, 10).expect("within threshold");
    assert_eq!(snapped.x, 102);
}

#[test]
fn snap_axes_solved_independently() {
    // A neighbor snapping only horizontally and one snapping only
    // vertically both contribute.
    let targets = vec![rect(203, 900, 50, 50), rect(900, 142, 50, 50)];
    let dragged = rect(150, 100, 50, 40);
    let snapped = find_snap_position(dragged, &targets, 10).expect("within threshold");
    // right edge 200 to neighbor-1 left edge 203.
    assert_eq!(snapped.x, 153);
    // bottom edge 140 to neighbor-2 top edge 142.
    assert_eq!(snapped.y, 102);
}

#[test]
fn snap_swapping_axes_swaps_the_result() {
    let targets = vec![rect(405, 100, 300, 200)];
    let dragged = rect(103, 105, 300, 200);
    let straight = find_snap_position(dragged, &targets, 10).expect("snaps");

    let swapped_targets = vec![rect(100, 405, 200, 300)];
    let swapped_dragged = rect(105, 103, 200, 300);
    let swapped = find_snap_position(swapped_dragged, &swapped_targets, 10).expect("snaps");

    assert_eq!(straight.x, swapped.y);
    assert_eq!(straight.y, swapped.x);
}

#[test]
fn drag_with_snap_scenario() {
    // Two thumbnails 300x200: one at (100,100), a neighbor at (405,100).
    // Right-press at (150,150), motion to (155,155), threshold 10.
    let targets = vec![rect(405, 100, 300, 200)];
    let final_pos = drag_target(
        Position { x: 100, y: 100 },
        Position { x: 150, y: 150 },
        Position { x: 155, y: 155 },
        Dimensions { width: 300, height: 200 },
        &targets,
        10,
    );
    // x snaps so the dragged right edge meets the neighbor's left edge;
    // y keeps the raw dragged coordinate.
    assert_eq!(final_pos.x, 105);
    assert_eq!(final_pos.y, 105);
}

#[test]
fn drag_without_motion_keeps_position_when_nothing_snaps() {
    // Pointer has not moved and there are no snap targets: the window
    // stays exactly where it started.
    let targets: Vec<Rect> = Vec::new();
    let final_pos = drag_target(
        Position { x: 320, y: 240 },
        Position { x: 400, y: 300 },
        Position { x: 400, y: 300 },
        Dimensions { width: 300, height: 200 },
        &targets,
        10,
    );
    assert_eq!(final_pos, Position { x: 320, y: 240 });
}
