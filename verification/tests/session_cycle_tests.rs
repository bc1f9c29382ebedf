use eve_preview_manager::config::CharacterSettings;
use eve_preview_manager::cycle::CycleState;
use eve_preview_manager::geometry::Position;
use eve_preview_manager::session::SessionState;
use eve_preview_manager::store::{NamedStore, WindowNames};

#[test]
fn saved_position_wins_over_inheritance() {
    let mut settings: NamedStore<CharacterSettings> = NamedStore::new();
    settings.insert("Alice".to_string(), CharacterSettings::new(200, 300, 300, 200));
    settings.insert("Bob".to_string(), CharacterSettings::new(7, 8, 300, 200));
    let mut session = SessionState::new();
    session.update_last_character(5, "Alice");
    let p = session.get_position("Bob", 5, &settings, true);
    assert_eq!(p, Some(Position { x: 7, y: 8 }));
}

#[test]
fn new_identity_inherits_previous_identitys_position() {
    // Window 5 last carried Alice; Bob appears there without settings.
    let mut settings: NamedStore<CharacterSettings> = NamedStore::new();
    settings.insert("Alice".to_string(), CharacterSettings::new(200, 300, 300, 200));
    let mut session = SessionState::new();
    session.update_last_character(5, "Alice");
    let p = session.get_position("Bob", 5, &settings, true);
    assert_eq!(p, Some(Position { x: 200, y: 300 }));
}

#[test]
fn inheritance_is_off_without_the_flag() {
    let mut settings: NamedStore<CharacterSettings> = NamedStore::new();
    settings.insert("Alice".to_string(), CharacterSettings::new(200, 300, 300, 200));
    let mut session = SessionState::new();
    session.update_last_character(5, "Alice");
    assert_eq!(session.get_position("Bob", 5, &settings, false), None);
}

#[test]
fn hide_deadline_hysteresis() {
    let mut session = SessionState::new();
    assert!(!session.hide_due(0));
    session.schedule_hide(0);
    assert!(!session.hide_due(99));
    assert!(session.hide_due(100));
    assert!(session.hide_due(101));
    // A focus return cancels the pending hide for good.
    session.cancel_hide();
    assert!(!session.hide_due(101));
    assert!(!session.hide_due(u64::MAX));
}

#[test]
fn window_position_cached_under_last_identity() {
    let mut session = SessionState::new();
    session.update_last_character(9, "Carol");
    session.update_window_position(9, 44, 55);
    assert_eq!(session.saved_positions.get("Carol"), Some(Position { x: 44, y: 55 }));
    // A window without a recorded identity caches nothing.
    session.update_window_position(10, 1, 2);
    assert_eq!(session.saved_positions.get(""), None);
}

#[test]
fn cycle_forward_with_skip() {
    // Group [A, B, C], anchor A, B skipped: forward selects C, then A.
    let group = vec!["A".to_string(), "B".to_string(), "C".to_string()];
    let mut cyc = CycleState::new();
    cyc.set_current("A", 1);
    cyc.toggle_skip("B");
    let next = cyc.cycle_next(&group, true);
    assert_eq!(next, Some("C".to_string()));
    cyc.set_current("C", 3);
    let next2 = cyc.cycle_next(&group, true);
    assert_eq!(next2, Some("A".to_string()));
}

#[test]
fn cycle_backward_wraps() {
    let group = vec!["A".to_string(), "B".to_string(), "C".to_string()];
    let mut cyc = CycleState::new();
    cyc.set_current("A", 1);
    assert_eq!(cyc.cycle_next(&group, false), Some("C".to_string()));
}

#[test]
fn cycle_with_everything_skipped_selects_nothing() {
    let group = vec!["A".to_string(), "B".to_string()];
    let mut cyc = CycleState::new();
    cyc.toggle_skip("A");
    cyc.toggle_skip("B");
    assert_eq!(cyc.cycle_next(&group, true), None);
}

#[test]
fn cycle_without_anchor_starts_at_the_edge() {
    let group = vec!["A".to_string(), "B".to_string()];
    let cyc = CycleState::new();
    assert_eq!(cyc.cycle_next(&group, true), Some("A".to_string()));
    assert_eq!(cyc.cycle_next(&group, false), Some("B".to_string()));
}

#[test]
fn toggle_skip_round_trip() {
    let mut cyc = CycleState::new();
    assert!(!cyc.is_skipped("A"));
    cyc.toggle_skip("A");
    assert!(cyc.is_skipped("A"));
    cyc.toggle_skip("A");
    assert!(!cyc.is_skipped("A"));
}

#[test]
fn window_names_forget_removed_windows() {
    let mut names = WindowNames::new();
    names.insert(1, "A".to_string());
    names.insert(2, "B".to_string());
    names.insert(1, "C".to_string());
    assert_eq!(names.get(1), Some("C".to_string()));
    names.remove(1);
    assert_eq!(names.get(1), None);
    assert_eq!(names.get(2), Some("B".to_string()));
}
