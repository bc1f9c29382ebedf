use eve_preview_manager::config::Profile;
use eve_preview_manager::guistate::{
    add_selected_to_group, reorder_cycle_entry, CycleOrderSettingsState, EditorMode, ViewTab,
};
use eve_preview_manager::store::NamedStore;
use eve_preview_manager::text::{str_contains, str_eq, str_has_prefix, str_has_suffix};

fn profile_with_group(group: Vec<&str>) -> Profile {
    Profile {
        character_thumbnails: NamedStore::new(),
        custom_source_thumbnails: NamedStore::new(),
        custom_windows: Vec::new(),
        hotkey_cycle_group: group.into_iter().map(|s| s.to_string()).collect(),
        character_hotkey_order: Vec::new(),
        character_hotkeys: NamedStore::new(),
        client_minimize_on_switch: false,
        client_minimize_show_overlay: false,
        thumbnail_hide_not_focused: false,
        thumbnail_auto_save_position: false,
        thumbnail_preserve_position_on_swap: false,
        thumbnail_snap_threshold: 10,
        default_thumbnail_width: 300,
        default_thumbnail_height: 200,
    }
}

#[test]
fn load_joins_group_with_newlines() {
    let mut state = CycleOrderSettingsState::new();
    state.load_from_profile(&profile_with_group(vec!["Alice", "Bob", "Carol"]));
    assert_eq!(state.cycle_group_text, "Alice\nBob\nCarol");
    state.load_from_profile(&profile_with_group(vec![]));
    assert_eq!(state.cycle_group_text, "");
}

#[test]
fn save_trims_lines_and_drops_empty_ones() {
    let mut state = CycleOrderSettingsState::new();
    state.cycle_group_text = "  Alice \n\n\tBob\r\n   \nCarol".to_string();
    let mut profile = profile_with_group(vec![]);
    state.save_to_profile(&mut profile);
    assert_eq!(
        profile.hotkey_cycle_group,
        vec!["Alice".to_string(), "Bob".to_string(), "Carol".to_string()]
    );
}

#[test]
fn load_then_save_round_trips_clean_entries() {
    let mut state = CycleOrderSettingsState::new();
    let first = profile_with_group(vec!["Alice", "Bob"]);
    state.load_from_profile(&first);
    let mut second = profile_with_group(vec![]);
    state.save_to_profile(&mut second);
    assert_eq!(second.hotkey_cycle_group, first.hotkey_cycle_group);
}

#[test]
fn string_search_helpers() {
    assert!(str_eq("abc", "abc"));
    assert!(!str_eq("abc", "abd"));
    assert!(str_has_prefix("EVE - Alice", "EVE - "));
    assert!(!str_has_prefix("EV", "EVE"));
    assert!(str_has_suffix("exefile.exe", ".exe"));
    assert!(!str_has_suffix("exe", "exefile.exe"));
    assert!(str_contains("steam_app_0 game", "steam_app_"));
    assert!(str_contains("abc", ""));
    assert!(!str_contains("abc", "cb"));
}

#[test]
fn reorder_moves_an_entry_with_index_adjustment() {
    let mut group: Vec<String> =
        vec!["A".to_string(), "B".to_string(), "C".to_string(), "D".to_string()];
    // Moving A below C: the drop index counts the gap after removal.
    reorder_cycle_entry(&mut group, 0, 3);
    assert_eq!(group, vec!["B".to_string(), "C".to_string(), "A".to_string(), "D".to_string()]);
    // Moving D to the front.
    reorder_cycle_entry(&mut group, 3, 0);
    assert_eq!(group, vec!["D".to_string(), "B".to_string(), "C".to_string(), "A".to_string()]);
}

#[test]
fn add_selected_appends_only_missing_selected_names() {
    let mut profile = profile_with_group(vec!["Alice"]);
    let selections = vec![
        ("Alice".to_string(), true),
        ("Bob".to_string(), true),
        ("Carol".to_string(), false),
        ("Dora".to_string(), true),
    ];
    add_selected_to_group(&mut profile, &selections);
    assert_eq!(
        profile.hotkey_cycle_group,
        vec!["Alice".to_string(), "Bob".to_string(), "Dora".to_string()]
    );
}

#[test]
fn editor_state_defaults_match_new() {
    let a = CycleOrderSettingsState::new();
    let b = CycleOrderSettingsState::default();
    assert_eq!(a.cycle_group_text, "");
    assert_eq!(a.editor_mode, EditorMode::DragDrop);
    assert_eq!(a.active_tab, ViewTab::CycleGroup);
    assert!(!a.show_add_characters_popup);
    assert!(a.character_selections.is_empty());
    assert_eq!(b.cycle_group_text, a.cycle_group_text);
    assert_eq!(b.editor_mode, a.editor_mode);
    assert_eq!(b.active_tab, a.active_tab);
    assert_eq!(b.show_add_characters_popup, a.show_add_characters_popup);
    assert_eq!(b.character_selections.len(), a.character_selections.len());
}
