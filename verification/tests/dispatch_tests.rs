use eve_preview_manager::classify::CustomWindowRule;
use eve_preview_manager::config::{CharacterSettings, DaemonConfig, Profile};
use eve_preview_manager::cycle::CycleState;
use eve_preview_manager::dispatch::{
    handle_button_press, handle_button_release, handle_focus_in, handle_focus_out,
    handle_hide_deadline, handle_hotkey, handle_motion_notify, handle_net_wm_state, Action,
    ButtonEvent, FocusEvent, MotionEvent, NotifyMode, BUTTON_LEFT, BUTTON_RIGHT,
};
use eve_preview_manager::geometry::{Dimensions, Position};
use eve_preview_manager::hotkeys::{CycleCommand, TimestampedCommand};
use eve_preview_manager::session::SessionState;
use eve_preview_manager::store::NamedStore;
use eve_preview_manager::thumbs::{ClientRegistry, InputState, Thumbnail, ThumbnailState};

fn profile() -> Profile {
    Profile {
        character_thumbnails: NamedStore::new(),
        custom_source_thumbnails: NamedStore::new(),
        custom_windows: Vec::new(),
        hotkey_cycle_group: Vec::new(),
        character_hotkey_order: Vec::new(),
        character_hotkeys: NamedStore::new(),
        client_minimize_on_switch: false,
        client_minimize_show_overlay: false,
        thumbnail_hide_not_focused: false,
        thumbnail_auto_save_position: false,
        thumbnail_preserve_position_on_swap: false,
        thumbnail_snap_threshold: 10,
        default_thumbnail_width: 300,
        default_thumbnail_height: 200,
    }
}

fn config() -> DaemonConfig {
    DaemonConfig {
        profile: profile(),
        known_classes: vec!["steam_app_8500".to_string()],
        enabled: true,
        active_border_color: 0xFF00FF00,
        skipped_border_color: 0xFF888888,
        default_border_color: 0xFF000000,
    }
}

fn thumb(src: u32, overlay: u32, name: &str, x: i16, y: i16) -> Thumbnail {
    Thumbnail {
        src,
        overlay,
        character_name: name.to_string(),
        position: Position { x, y },
        dimensions: Dimensions { width: 300, height: 200 },
        state: ThumbnailState::Normal { focused: false },
        visible: true,
        input_state: InputState::idle(),
    }
}

fn three_clients() -> ClientRegistry {
    let mut reg = ClientRegistry::new();
    reg.insert(thumb(1, 11, "Alice", 0, 0));
    reg.insert(thumb(2, 12, "Bob", 400, 0));
    reg.insert(thumb(3, 13, "Carol", 800, 0));
    reg
}

#[test]
fn right_press_freezes_snap_targets_and_starts_drag() {
    let mut reg = three_clients();
    let mut cyc = CycleState::new();
    let ev = ButtonEvent { root_x: 50, root_y: 50, detail: BUTTON_RIGHT, time: 1000 };
    handle_button_press(&mut reg, &mut cyc, &ev);
    let t = &reg.thumbs[0];
    assert!(t.input_state.dragging);
    assert_eq!(t.input_state.drag_start, Position { x: 50, y: 50 });
    assert_eq!(t.input_state.win_start, Position { x: 0, y: 0 });
    // The geometries of the two other visible thumbnails, frozen.
    assert_eq!(t.input_state.snap_targets.len(), 2);
    assert_eq!(t.input_state.snap_targets[0].x, 400);
    assert_eq!(t.input_state.snap_targets[1].x, 800);
    // A right press does not move the cycle anchor.
    assert_eq!(cyc.current, None);
}

#[test]
fn left_press_sets_cycle_anchor() {
    let mut reg = three_clients();
    let mut cyc = CycleState::new();
    let ev = ButtonEvent { root_x: 450, root_y: 10, detail: BUTTON_LEFT, time: 1000 };
    handle_button_press(&mut reg, &mut cyc, &ev);
    assert!(!reg.thumbs[1].input_state.dragging);
    assert_eq!(cyc.current, Some("Bob".to_string()));
    assert_eq!(cyc.current_window, Some(2));
}

#[test]
fn press_outside_thumbnails_changes_nothing() {
    let mut reg = three_clients();
    let mut cyc = CycleState::new();
    let ev = ButtonEvent { root_x: 300, root_y: 150, detail: BUTTON_LEFT, time: 1 };
    handle_button_press(&mut reg, &mut cyc, &ev);
    assert_eq!(cyc.current, None);
    assert!(!reg.thumbs.iter().any(|t| t.input_state.dragging));
}

#[test]
fn motion_repositions_dragged_thumbnail_with_snap() {
    // Thumbnail at (100,100) with a neighbor at (405,100): the drag from
    // (150,150) to (155,155) snaps the x to 105 and keeps the raw y.
    let mut reg = ClientRegistry::new();
    reg.insert(thumb(1, 11, "Alice", 100, 100));
    reg.insert(thumb(2, 12, "Bob", 405, 100));
    let mut cyc = CycleState::new();
    handle_button_press(
        &mut reg,
        &mut cyc,
        &ButtonEvent { root_x: 150, root_y: 150, detail: BUTTON_RIGHT, time: 1 },
    );
    let action = handle_motion_notify(&mut reg, 10, &MotionEvent { root_x: 155, root_y: 155 });
    assert_eq!(action, Some(Action::Reposition { overlay: 11, x: 105, y: 105 }));
    assert_eq!(reg.thumbs[0].position, Position { x: 105, y: 105 });
    assert_eq!(reg.thumbs[1].position, Position { x: 405, y: 100 });
}

#[test]
fn motion_without_drag_does_nothing() {
    let mut reg = three_clients();
    let action = handle_motion_notify(&mut reg, 10, &MotionEvent { root_x: 5, root_y: 5 });
    assert_eq!(action, None);
}

#[test]
fn motion_back_to_drag_start_restores_position_without_neighbors() {
    // With no snap targets, a motion event at the exact press point puts
    // the thumbnail back at its start position.
    let mut reg = ClientRegistry::new();
    reg.insert(thumb(1, 11, "Alice", 100, 100));
    let mut cyc = CycleState::new();
    handle_button_press(
        &mut reg,
        &mut cyc,
        &ButtonEvent { root_x: 150, root_y: 150, detail: BUTTON_RIGHT, time: 1 },
    );
    handle_motion_notify(&mut reg, 10, &MotionEvent { root_x: 170, root_y: 190 });
    assert_eq!(reg.thumbs[0].position, Position { x: 120, y: 140 });
    let action = handle_motion_notify(&mut reg, 10, &MotionEvent { root_x: 150, root_y: 150 });
    assert_eq!(action, Some(Action::Reposition { overlay: 11, x: 100, y: 100 }));
    assert_eq!(reg.thumbs[0].position, Position { x: 100, y: 100 });
}

#[test]
fn left_release_focuses_and_minimizes_others_with_borders_cleared_first() {
    // Three tracked clients, minimize-on-switch on, Carol exempt; a left
    // release on Bob's thumbnail.
    let mut reg = three_clients();
    let mut session = SessionState::new();
    let mut cyc = CycleState::new();
    let mut cfg = config();
    cfg.profile.client_minimize_on_switch = true;
    let mut carol = CharacterSettings::new(800, 0, 300, 200);
    carol.exempt_from_minimize = true;
    cfg.profile.character_thumbnails.insert("Carol".to_string(), carol);

    let ev = ButtonEvent { root_x: 450, root_y: 10, detail: BUTTON_LEFT, time: 777 };
    let actions = handle_button_release(&mut reg, &mut session, &mut cyc, &mut cfg, &ev);

    // The activation goes out first, with the event's timestamp.
    assert_eq!(actions[0], Action::Activate { window: 2, time: 777 });
    // The anchor follows the click.
    assert_eq!(cyc.current, Some("Bob".to_string()));
    // Focus coherence: exactly the clicked thumbnail is focused.
    assert_eq!(reg.thumbs[1].state, ThumbnailState::Normal { focused: true });
    assert_eq!(reg.thumbs[0].state, ThumbnailState::Normal { focused: false });
    assert_eq!(reg.thumbs[2].state, ThumbnailState::Normal { focused: false });

    // Alice's window is minimized; the exempt Carol and the clicked Bob
    // are not.
    let minimized: Vec<u32> = actions
        .iter()
        .filter_map(|a| match a {
            Action::Minimize { window } => Some(*window),
            _ => None,
        })
        .collect();
    assert_eq!(minimized, vec![1]);

    // The minimize target had its border cleared just before the
    // minimize command.
    let min_idx = actions
        .iter()
        .position(|a| matches!(a, Action::Minimize { window: 1 }))
        .unwrap();
    assert!(min_idx > 0);
    match &actions[min_idx - 1] {
        Action::PaintBorder { overlay, focused, .. } => {
            assert_eq!(*overlay, 11);
            assert!(!focused);
        }
        other => panic!("expected a border clear before the minimize, got {:?}", other),
    }

    // The full command list: the activation, one border repaint per
    // tracked window, the flush, then the border-clear + minimize pair.
    assert_eq!(
        actions,
        vec![
            Action::Activate { window: 2, time: 777 },
            Action::PaintBorder { overlay: 11, focused: false, skipped: false },
            Action::PaintBorder { overlay: 12, focused: true, skipped: false },
            Action::PaintBorder { overlay: 13, focused: false, skipped: false },
            Action::Flush,
            Action::PaintBorder { overlay: 11, focused: false, skipped: false },
            Action::Minimize { window: 1 },
        ]
    );
}

#[test]
fn drag_release_persists_position_and_reports_it() {
    let mut reg = ClientRegistry::new();
    reg.insert(thumb(1, 11, "Alice", 100, 100));
    let mut session = SessionState::new();
    session.update_last_character(1, "Alice");
    let mut cyc = CycleState::new();
    let mut cfg = config();
    handle_button_press(
        &mut reg,
        &mut cyc,
        &ButtonEvent { root_x: 150, root_y: 150, detail: BUTTON_RIGHT, time: 1 },
    );
    handle_motion_notify(&mut reg, 0, &MotionEvent { root_x: 250, root_y: 180 });
    let actions = handle_button_release(
        &mut reg,
        &mut session,
        &mut cyc,
        &mut cfg,
        &ButtonEvent { root_x: 250, root_y: 180, detail: BUTTON_RIGHT, time: 2 },
    );
    // The drag is over and the new position is persisted and reported.
    assert!(!reg.thumbs[0].input_state.dragging);
    assert_eq!(reg.thumbs[0].position, Position { x: 200, y: 130 });
    let saved = cfg.profile.character_thumbnails.get("Alice").unwrap();
    assert_eq!((saved.x, saved.y), (200, 130));
    assert_eq!(session.saved_positions.get("Alice"), Some(Position { x: 200, y: 130 }));
    let reports = actions
        .iter()
        .filter(|a| matches!(a, Action::PositionChanged { .. }))
        .count();
    assert_eq!(reports, 1);
    assert!(actions.iter().any(|a| matches!(
        a,
        Action::PositionChanged { x: 200, y: 130, is_custom: false, .. }
    )));
}

#[test]
fn drag_release_on_custom_source_updates_the_custom_store() {
    let mut reg = ClientRegistry::new();
    reg.insert(thumb(4, 14, "Browser", 20, 20));
    let mut session = SessionState::new();
    let mut cyc = CycleState::new();
    let mut cfg = config();
    cfg.profile.custom_windows.push(CustomWindowRule {
        alias: "Browser".to_string(),
        class_pattern: Some("firefox".to_string()),
        title_pattern: None,
        default_width: 320,
        default_height: 180,
        limit: false,
    });
    handle_button_press(
        &mut reg,
        &mut cyc,
        &ButtonEvent { root_x: 30, root_y: 30, detail: BUTTON_RIGHT, time: 1 },
    );
    handle_motion_notify(&mut reg, 10, &MotionEvent { root_x: 40, root_y: 30 });
    let actions = handle_button_release(
        &mut reg,
        &mut session,
        &mut cyc,
        &mut cfg,
        &ButtonEvent { root_x: 40, root_y: 30, detail: BUTTON_RIGHT, time: 2 },
    );
    let saved = cfg.profile.custom_source_thumbnails.get("Browser").unwrap();
    assert_eq!((saved.x, saved.y), (30, 20));
    assert_eq!(reg.thumbs[0].position, Position { x: 30, y: 20 });
    assert!(actions.iter().any(|a| matches!(a, Action::PositionChanged { is_custom: true, .. })));
}

#[test]
fn focus_in_cancels_hide_and_repaints_borders() {
    // Focus lands on a tracked window: the pending hide is cancelled and
    // exactly that window shows the focused border.
    let mut reg = three_clients();
    reg.thumbs[2].state = ThumbnailState::Minimized;
    let mut session = SessionState::new();
    session.schedule_hide(0);
    let mut cyc = CycleState::new();
    let cfg = config();
    let actions = handle_focus_in(
        &mut reg,
        &mut session,
        &mut cyc,
        &cfg,
        &FocusEvent { window: 1, mode: NotifyMode::Normal },
    );
    assert_eq!(session.focus_loss_deadline, None);
    assert_eq!(reg.thumbs[0].state, ThumbnailState::Normal { focused: true });
    assert_eq!(reg.thumbs[1].state, ThumbnailState::Normal { focused: false });
    // A minimized thumbnail stays minimized and is repainted as such.
    assert_eq!(reg.thumbs[2].state, ThumbnailState::Minimized);
    assert!(actions.iter().any(|a| matches!(a, Action::PaintMinimized { overlay: 13 })));
    assert_eq!(cyc.current, Some("Alice".to_string()));
}

#[test]
fn focus_in_is_ignored_for_ungrab_and_filtered_untracked_windows() {
    let mut reg = three_clients();
    let mut session = SessionState::new();
    let mut cyc = CycleState::new();
    let cfg = config();
    let a1 = handle_focus_in(
        &mut reg,
        &mut session,
        &mut cyc,
        &cfg,
        &FocusEvent { window: 1, mode: NotifyMode::Ungrab },
    );
    assert!(a1.is_empty());
    assert_eq!(reg.thumbs[0].state, ThumbnailState::Normal { focused: false });

    // An expected window is set; a focus event for an untracked window
    // is suppressed as an intermediate.
    cyc.set_current("Bob", 2);
    let a2 = handle_focus_in(
        &mut reg,
        &mut session,
        &mut cyc,
        &cfg,
        &FocusEvent { window: 99, mode: NotifyMode::Normal },
    );
    assert!(a2.is_empty());
    // But an event for a tracked window always passes the filter.
    let a3 = handle_focus_in(
        &mut reg,
        &mut session,
        &mut cyc,
        &cfg,
        &FocusEvent { window: 3, mode: NotifyMode::Normal },
    );
    assert!(!a3.is_empty());
    assert_eq!(reg.thumbs[2].state, ThumbnailState::Normal { focused: true });
}

#[test]
fn focus_in_reveals_hidden_thumbnails_when_hiding_is_configured() {
    let mut reg = three_clients();
    reg.thumbs[1].visible = false;
    reg.thumbs[1].state = ThumbnailState::Hidden;
    let mut session = SessionState::new();
    let mut cyc = CycleState::new();
    let mut cfg = config();
    cfg.profile.thumbnail_hide_not_focused = true;
    let actions = handle_focus_in(
        &mut reg,
        &mut session,
        &mut cyc,
        &cfg,
        &FocusEvent { window: 1, mode: NotifyMode::Normal },
    );
    assert!(reg.thumbs[1].visible);
    assert_eq!(reg.thumbs[1].state, ThumbnailState::Normal { focused: false });
    assert!(actions
        .iter()
        .any(|a| matches!(a, Action::SetVisibility { overlay: 12, visible: true })));
}

#[test]
fn focus_loss_hysteresis_scenario() {
    // Focus leaves the only tracked window at t=0; a FocusIn at t=50
    // clears the deadline and nothing hides.
    let mut reg = ClientRegistry::new();
    let mut t = thumb(1, 11, "Alice", 0, 0);
    t.state = ThumbnailState::Normal { focused: true };
    reg.insert(t);
    let mut session = SessionState::new();
    let mut cyc = CycleState::new();
    let mut cfg = config();
    cfg.profile.thumbnail_hide_not_focused = true;

    let scheduled = handle_focus_out(
        &reg,
        &mut session,
        &cfg,
        &FocusEvent { window: 1, mode: NotifyMode::Normal },
        0,
    );
    assert!(scheduled);
    assert_eq!(session.focus_loss_deadline, Some(100));

    let focus_actions = handle_focus_in(
        &mut reg,
        &mut session,
        &mut cyc,
        &cfg,
        &FocusEvent { window: 1, mode: NotifyMode::Normal },
    );
    assert_eq!(session.focus_loss_deadline, None);
    // The handler never unmaps anything.
    assert!(!focus_actions
        .iter()
        .any(|a| matches!(a, Action::SetVisibility { visible: false, .. })));

    // The deadline handler finds nothing due afterwards.
    let actions = handle_hide_deadline(&mut reg, &mut session, &cfg, 101);
    assert!(actions.is_empty());
    assert!(reg.thumbs[0].visible);
}

#[test]
fn unanswered_focus_loss_hides_thumbnails() {
    let mut reg = ClientRegistry::new();
    let mut t = thumb(1, 11, "Alice", 0, 0);
    t.state = ThumbnailState::Normal { focused: true };
    reg.insert(t);
    let mut session = SessionState::new();
    let mut cfg = config();
    cfg.profile.thumbnail_hide_not_focused = true;
    handle_focus_out(
        &reg,
        &mut session,
        &cfg,
        &FocusEvent { window: 1, mode: NotifyMode::Normal },
        0,
    );
    let actions = handle_hide_deadline(&mut reg, &mut session, &cfg, 101);
    assert_eq!(
        actions,
        vec![Action::SetVisibility { overlay: 11, visible: false }]
    );
    assert!(!reg.thumbs[0].visible);
    assert_eq!(reg.thumbs[0].state, ThumbnailState::Hidden);
    assert_eq!(session.focus_loss_deadline, None);
}

#[test]
fn focus_out_of_unfocused_window_schedules_nothing() {
    let reg = three_clients();
    let mut session = SessionState::new();
    let mut cfg = config();
    cfg.profile.thumbnail_hide_not_focused = true;
    let scheduled = handle_focus_out(
        &reg,
        &mut session,
        &cfg,
        &FocusEvent { window: 1, mode: NotifyMode::Normal },
        0,
    );
    assert!(!scheduled);
    assert_eq!(session.focus_loss_deadline, None);
}

#[test]
fn override_render_preview_survives_the_auto_hide() {
    let mut reg = three_clients();
    let mut session = SessionState::new();
    let mut cfg = config();
    let mut alice = CharacterSettings::new(0, 0, 300, 200);
    alice.override_render_preview = Some(true);
    cfg.profile.character_thumbnails.insert("Alice".to_string(), alice);
    session.schedule_hide(0);
    let actions = handle_hide_deadline(&mut reg, &mut session, &cfg, 200);
    assert!(reg.thumbs[0].visible);
    assert!(!reg.thumbs[1].visible);
    assert!(!reg.thumbs[2].visible);
    assert_eq!(actions.len(), 2);
}

#[test]
fn net_wm_state_hidden_minimizes_the_thumbnail() {
    let mut reg = three_clients();
    let hidden_atom = 42u32;
    let atoms = vec![7u32, hidden_atom, 9u32];
    let actions = handle_net_wm_state(&mut reg, 2, &atoms, hidden_atom);
    assert_eq!(reg.thumbs[1].state, ThumbnailState::Minimized);
    assert_eq!(actions, vec![Action::PaintMinimized { overlay: 12 }]);

    // Without the hidden atom nothing changes.
    let actions2 = handle_net_wm_state(&mut reg, 1, &vec![7u32, 9u32], hidden_atom);
    assert!(actions2.is_empty());
    assert_eq!(reg.thumbs[0].state, ThumbnailState::Normal { focused: false });
}

#[test]
fn forward_hotkey_activates_the_next_identity() {
    let reg = three_clients();
    let mut cyc = CycleState::new();
    cyc.set_current("Alice", 1);
    let mut cfg = config();
    cfg.profile.hotkey_cycle_group =
        vec!["Alice".to_string(), "Bob".to_string(), "Carol".to_string()];
    let cmd = TimestampedCommand { command: CycleCommand::Forward, timestamp: 5 };
    let actions = handle_hotkey(&reg, &mut cyc, &cfg, &cmd);
    assert_eq!(actions, vec![Action::Activate { window: 2, time: 5 }]);
    assert_eq!(cyc.current, Some("Bob".to_string()));
}

#[test]
fn cycle_group_entry_without_a_window_is_walked_over() {
    // Group [Alice, Ghost] with no window for Ghost: the forward walk
    // passes Ghost silently and lands back on Alice.
    let reg = three_clients();
    let mut cyc = CycleState::new();
    cyc.set_current("Alice", 1);
    let mut cfg = config();
    cfg.profile.hotkey_cycle_group = vec!["Alice".to_string(), "Ghost".to_string()];
    let cmd = TimestampedCommand { command: CycleCommand::Forward, timestamp: 5 };
    let actions = handle_hotkey(&reg, &mut cyc, &cfg, &cmd);
    assert_eq!(actions, vec![Action::Activate { window: 1, time: 5 }]);
    assert_eq!(cyc.current, Some("Alice".to_string()));

    // With every entry unavailable nothing happens.
    let empty_reg = ClientRegistry::new();
    let a2 = handle_hotkey(&empty_reg, &mut cyc, &cfg, &cmd);
    assert!(a2.is_empty());
}

#[test]
fn toggle_skip_hotkey_flips_the_current_identity() {
    let reg = three_clients();
    let mut cyc = CycleState::new();
    cyc.set_current("Bob", 2);
    let cfg = config();
    let cmd = TimestampedCommand { command: CycleCommand::ToggleSkip, timestamp: 5 };
    handle_hotkey(&reg, &mut cyc, &cfg, &cmd);
    assert!(cyc.is_skipped("Bob"));
    handle_hotkey(&reg, &mut cyc, &cfg, &cmd);
    assert!(!cyc.is_skipped("Bob"));
}
