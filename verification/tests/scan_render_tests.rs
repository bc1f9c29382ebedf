use eve_preview_manager::classify::{ClientWindowClass, CustomWindowRule};
use eve_preview_manager::config::{CharacterSettings, DaemonConfig, Profile};
use eve_preview_manager::cycle::CycleState;
use eve_preview_manager::geometry::{Dimensions, Position};
use eve_preview_manager::render::{premultiply_pixel, render_text_bitmap, PlacedGlyph};
use eve_preview_manager::scan::{create_tracked_window, handle_destroyed_window, record_initial_positions};
use eve_preview_manager::session::SessionState;
use eve_preview_manager::sources::{dedup_windows, SourcesTab, WindowInfo};
use eve_preview_manager::store::NamedStore;
use eve_preview_manager::thumbs::ClientRegistry;
use eve_preview_manager::wmmsg::{
    is_minimized_state, plan_activate, plan_minimize, plan_unminimize, property_words, WmAtoms,
};

fn profile() -> Profile {
    Profile {
        character_thumbnails: NamedStore::new(),
        custom_source_thumbnails: NamedStore::new(),
        custom_windows: Vec::new(),
        hotkey_cycle_group: Vec::new(),
        character_hotkey_order: Vec::new(),
        character_hotkeys: NamedStore::new(),
        client_minimize_on_switch: false,
        client_minimize_show_overlay: false,
        thumbnail_hide_not_focused: false,
        thumbnail_auto_save_position: false,
        thumbnail_preserve_position_on_swap: true,
        thumbnail_snap_threshold: 10,
        default_thumbnail_width: 300,
        default_thumbnail_height: 200,
    }
}

fn config() -> DaemonConfig {
    DaemonConfig {
        profile: profile(),
        known_classes: vec!["steam_app_8500".to_string()],
        enabled: true,
        active_border_color: 0xFF00FF00,
        skipped_border_color: 0xFF888888,
        default_border_color: 0xFF000000,
    }
}

#[test]
fn creating_a_tracked_window_uses_saved_settings() {
    // A window classified as Alice appears; her saved settings place it.
    let mut reg = ClientRegistry::new();
    let mut session = SessionState::new();
    let mut cfg = config();
    cfg.profile
        .character_thumbnails
        .insert("Alice".to_string(), CharacterSettings::new(200, 300, 280, 190));
    let class = ClientWindowClass::LoggedIn("Alice".to_string());
    let created = create_tracked_window(
        &mut reg, &mut session, &cfg, &class, 7, 70, 1920, 1080, false,
    );
    assert!(created);
    assert_eq!(reg.thumbs.len(), 1);
    let t = &reg.thumbs[0];
    assert_eq!(t.src, 7);
    assert_eq!(t.overlay, 70);
    assert_eq!(t.character_name, "Alice");
    assert_eq!(t.position, Position { x: 200, y: 300 });
    assert_eq!(t.dimensions, Dimensions { width: 280, height: 190 });
    assert!(t.visible);
}

#[test]
fn zero_saved_dimensions_fall_back_to_the_default() {
    let mut reg = ClientRegistry::new();
    let mut session = SessionState::new();
    let mut cfg = config();
    cfg.profile
        .character_thumbnails
        .insert("Alice".to_string(), CharacterSettings::new(10, 10, 0, 0));
    let class = ClientWindowClass::LoggedIn("Alice".to_string());
    create_tracked_window(&mut reg, &mut session, &cfg, &class, 7, 70, 1920, 1080, false);
    assert_eq!(reg.thumbs[0].dimensions, Dimensions { width: 300, height: 200 });
}

#[test]
fn identity_is_tracked_at_most_once() {
    // A second window carrying the same non-empty identity is refused;
    // the logged-out identity may repeat.
    let mut reg = ClientRegistry::new();
    let mut session = SessionState::new();
    let cfg = config();
    let alice = ClientWindowClass::LoggedIn("Alice".to_string());
    assert!(create_tracked_window(&mut reg, &mut session, &cfg, &alice, 1, 11, 1920, 1080, false));
    assert!(!create_tracked_window(&mut reg, &mut session, &cfg, &alice, 2, 12, 1920, 1080, false));
    let out = ClientWindowClass::LoggedOut;
    assert!(create_tracked_window(&mut reg, &mut session, &cfg, &out, 3, 13, 1920, 1080, false));
    assert!(create_tracked_window(&mut reg, &mut session, &cfg, &out, 4, 14, 1920, 1080, false));
    assert_eq!(reg.thumbs.len(), 3);
}

#[test]
fn logged_out_inheritance_scenario() {
    // Window 7 is observed as Alice at (200,300); Alice logs out — the
    // window reclassifies to the logged-out sentinel — and a later Bob
    // on the same window starts at Alice's position.
    let mut reg = ClientRegistry::new();
    let mut session = SessionState::new();
    let mut cfg = config();
    cfg.profile
        .character_thumbnails
        .insert("Alice".to_string(), CharacterSettings::new(200, 300, 300, 200));
    let mut cyc = CycleState::new();

    let alice = ClientWindowClass::LoggedIn("Alice".to_string());
    assert!(create_tracked_window(&mut reg, &mut session, &cfg, &alice, 7, 70, 1920, 1080, false));
    handle_destroyed_window(&mut reg, &mut cyc, 7);

    // The logout: the same window is re-observed as logged out.  The
    // empty identity must not overwrite the recorded "Alice".
    let out = ClientWindowClass::LoggedOut;
    assert!(create_tracked_window(&mut reg, &mut session, &cfg, &out, 7, 70, 1920, 1080, false));
    handle_destroyed_window(&mut reg, &mut cyc, 7);

    let bob = ClientWindowClass::LoggedIn("Bob".to_string());
    assert!(create_tracked_window(&mut reg, &mut session, &cfg, &bob, 7, 71, 1920, 1080, false));
    assert_eq!(reg.thumbs[0].position, Position { x: 200, y: 300 });
}

#[test]
fn disabled_rendering_still_tracks_for_hotkeys() {
    let mut reg = ClientRegistry::new();
    let mut session = SessionState::new();
    let mut cfg = config();
    cfg.enabled = false;
    let alice = ClientWindowClass::LoggedIn("Alice".to_string());
    assert!(create_tracked_window(&mut reg, &mut session, &cfg, &alice, 7, 70, 1920, 1080, false));
    let t = &reg.thumbs[0];
    assert!(!t.visible);
    assert_eq!(t.state, eve_preview_manager::thumbs::ThumbnailState::Hidden);
}

#[test]
fn initial_scan_persists_named_geometry_once() {
    let mut reg = ClientRegistry::new();
    let mut session = SessionState::new();
    let mut cfg = config();
    cfg.profile.thumbnail_auto_save_position = true;
    let alice = ClientWindowClass::LoggedIn("Alice".to_string());
    let out = ClientWindowClass::LoggedOut;
    create_tracked_window(&mut reg, &mut session, &cfg, &alice, 1, 11, 1920, 1080, false);
    create_tracked_window(&mut reg, &mut session, &cfg, &out, 2, 12, 1920, 1080, false);
    let save = record_initial_positions(&mut cfg, &reg);
    assert!(save);
    let saved = cfg.profile.character_thumbnails.get("Alice").unwrap();
    assert_eq!((saved.x, saved.y, saved.width, saved.height), (0, 0, 300, 200));
    // The logged-out sentinel persists nothing.
    assert!(cfg.profile.character_thumbnails.get("").is_none());

    cfg.profile.thumbnail_auto_save_position = false;
    assert!(!record_initial_positions(&mut cfg, &reg));
}

#[test]
fn custom_source_uses_rule_default_dimensions() {
    let mut reg = ClientRegistry::new();
    let mut session = SessionState::new();
    let mut cfg = config();
    cfg.profile.custom_windows.push(CustomWindowRule {
        alias: "Browser".to_string(),
        class_pattern: Some("firefox".to_string()),
        title_pattern: None,
        default_width: 320,
        default_height: 180,
        limit: true,
    });
    let class = ClientWindowClass::CustomSource("Browser".to_string());
    assert!(create_tracked_window(&mut reg, &mut session, &cfg, &class, 9, 90, 1920, 1080, false));
    assert_eq!(reg.thumbs[0].dimensions, Dimensions { width: 320, height: 180 });
    // A second instance of the same source is not tracked.
    assert!(!create_tracked_window(&mut reg, &mut session, &cfg, &class, 10, 91, 1920, 1080, false));
}

#[test]
fn destroying_the_anchor_window_clears_the_anchor() {
    let mut reg = ClientRegistry::new();
    let mut session = SessionState::new();
    let cfg = config();
    let alice = ClientWindowClass::LoggedIn("Alice".to_string());
    create_tracked_window(&mut reg, &mut session, &cfg, &alice, 1, 11, 1920, 1080, false);
    let mut cyc = CycleState::new();
    cyc.set_current("Alice", 1);
    let removed = handle_destroyed_window(&mut reg, &mut cyc, 1);
    assert!(removed.is_some());
    assert_eq!(reg.thumbs.len(), 0);
    assert_eq!(cyc.current, None);
    assert_eq!(cyc.current_window, None);
}

#[test]
fn premultiply_scales_every_channel() {
    // Full coverage keeps the color; zero coverage clears it.
    assert_eq!(premultiply_pixel(0xFF8040C0, 255), 0xFF8040C0);
    assert_eq!(premultiply_pixel(0xFF8040C0, 0), 0);
    // Half coverage: 255*128/255=128, 128*128/255=64, 64*128/255=32,
    // 192*128/255=96.
    assert_eq!(premultiply_pixel(0xFF8040C0, 128), 0x80402060);
}

#[test]
fn text_bitmap_composites_glyphs_over_transparency() {
    let glyphs = vec![PlacedGlyph {
        x: 1,
        y: 0,
        width: 1,
        height: 2,
        coverage: vec![255, 128],
    }];
    let r = render_text_bitmap(3, 2, &glyphs, 0xFF000000);
    assert_eq!((r.width, r.height), (3, 2));
    assert_eq!(r.data.len(), 6);
    assert_eq!(r.data[0], 0);
    assert_eq!(r.data[1], 0xFF000000);
    assert_eq!(r.data[2], 0);
    assert_eq!(r.data[4], 0x80000000);
}

#[test]
fn text_bitmap_clips_glyphs_to_the_buffer() {
    let glyphs = vec![PlacedGlyph {
        x: -1,
        y: 0,
        width: 2,
        height: 1,
        coverage: vec![255, 255],
    }];
    let r = render_text_bitmap(2, 1, &glyphs, 0xFFFFFFFF);
    // Only the in-buffer texel lands.
    assert_eq!(r.data, vec![0xFFFFFFFF, 0]);
}

#[test]
fn later_glyphs_paint_over_earlier_ones() {
    let glyphs = vec![
        PlacedGlyph { x: 0, y: 0, width: 1, height: 1, coverage: vec![255] },
        PlacedGlyph { x: 0, y: 0, width: 1, height: 1, coverage: vec![128] },
    ];
    let r = render_text_bitmap(1, 1, &glyphs, 0xFF000000);
    assert_eq!(r.data, vec![0x80000000]);
}

#[test]
fn minimize_plan_sends_ewmh_before_icccm() {
    let atoms = WmAtoms {
        net_active_window: 100,
        net_wm_state: 101,
        net_wm_state_hidden: 102,
        wm_change_state: 103,
    };
    let plan = plan_minimize(&atoms, 7);
    assert_eq!(plan.len(), 2);
    assert_eq!(plan[0].msg_type, 101);
    assert_eq!(plan[0].d0, 1);
    assert_eq!(plan[0].d1, 102);
    assert_eq!(plan[1].msg_type, 103);
    assert_eq!(plan[1].d0, 3);

    let restore = plan_unminimize(&atoms, 7);
    assert_eq!(restore[0].d0, 0);
    assert_eq!(restore[1].d0, 1);

    let act = plan_activate(&atoms, 7, 4242);
    assert_eq!(act.msg_type, 100);
    assert_eq!(act.d0, 2);
    assert_eq!(act.d1, 4242);
}

#[test]
fn property_words_reads_little_endian() {
    let bytes = vec![1, 0, 0, 0, 0x78, 0x56, 0x34, 0x12, 9];
    assert_eq!(property_words(&bytes), vec![1, 0x12345678]);
}

#[test]
fn minimized_state_checks_both_protocols() {
    assert!(is_minimized_state(&vec![7, 42], 42, None));
    assert!(!is_minimized_state(&vec![7, 9], 42, None));
    assert!(is_minimized_state(&vec![], 42, Some(3)));
    assert!(!is_minimized_state(&vec![], 42, Some(1)));
}

#[test]
fn sources_tab_composes_and_resets_rules() {
    let mut tab = SourcesTab::default();
    assert!(!tab.rule_is_valid());
    tab.running_apps = Some(dedup_windows(vec![
        WindowInfo { class: "firefox".to_string(), title: "a".to_string() },
        WindowInfo { class: "firefox".to_string(), title: "a".to_string() },
        WindowInfo { class: "xterm".to_string(), title: "sh".to_string() },
    ]));
    assert_eq!(tab.running_apps.as_ref().unwrap().len(), 2);
    tab.select_app(0);
    assert!(tab.rule_is_valid());
    let mut p = profile();
    let added = tab.add_rule_to_profile(&mut p);
    assert!(added);
    assert_eq!(p.custom_windows.len(), 1);
    assert_eq!(p.custom_windows[0].alias, "firefox");
    assert_eq!(p.custom_windows[0].class_pattern, Some("firefox".to_string()));
    // The form is reset and invalid again.
    assert!(!tab.rule_is_valid());
}
