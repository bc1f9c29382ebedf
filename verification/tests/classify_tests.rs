use eve_preview_manager::classify::{
    check_eve_window, classify_window, is_eve_window_class, is_window_eve, is_wine_process,
    ClientWindowClass, CustomWindowRule, WindowSnapshot,
};

fn known() -> Vec<String> {
    vec!["steam_app_8500".to_string(), "exefile.exe".to_string()]
}

fn wine_snapshot(title: &str) -> WindowSnapshot {
    WindowSnapshot {
        class: Some("steam_app_8500".to_string()),
        title: Some(title.to_string()),
        pid: Some(1234),
        exe_path: Some("/home/user/.wine/drive_c/exefile.exe".to_string()),
        cmdline: None,
        environ: None,
    }
}

#[test]
fn classifier_accepts_wine_client_with_character_title() {
    // Window with a known class, a Wine process, title "EVE - Alice".
    let snap = wine_snapshot("EVE - Alice");
    let rules: Vec<CustomWindowRule> = Vec::new();
    let r = classify_window(&snap, 999, &known(), &rules);
    assert_eq!(r, Some(ClientWindowClass::LoggedIn("Alice".to_string())));
}

#[test]
fn classifier_accepts_logged_out_title() {
    let snap = wine_snapshot("EVE");
    let r = check_eve_window(&snap, 999, &known());
    assert_eq!(r, Some(ClientWindowClass::LoggedOut));
}

#[test]
fn classifier_rejects_container_marker_in_title() {
    let snap = wine_snapshot("EVE - steam_app_0");
    assert_eq!(check_eve_window(&snap, 999, &known()), None);
}

#[test]
fn classifier_rejects_other_titles() {
    let snap = wine_snapshot("Some Other Game");
    assert_eq!(check_eve_window(&snap, 999, &known()), None);
}

#[test]
fn classifier_rejects_own_process() {
    let snap = wine_snapshot("EVE - Alice");
    // The daemon never tracks its own windows.
    assert_eq!(check_eve_window(&snap, 1234, &known()), None);
}

#[test]
fn classifier_class_fallback_without_process_evidence() {
    // PID resolves but the process shows no Wine markers (container
    // namespacing); the matching class still admits the window.
    let snap = WindowSnapshot {
        class: Some("steam_app_8500".to_string()),
        title: Some("EVE - Bob".to_string()),
        pid: Some(2),
        exe_path: Some("/usr/lib/systemd".to_string()),
        cmdline: None,
        environ: None,
    };
    let r = check_eve_window(&snap, 999, &known());
    assert_eq!(r, Some(ClientWindowClass::LoggedIn("Bob".to_string())));
}

#[test]
fn classifier_rejects_unknown_class_without_wine() {
    let snap = WindowSnapshot {
        class: Some("firefox".to_string()),
        title: Some("EVE - Bob".to_string()),
        pid: Some(2),
        exe_path: Some("/usr/bin/firefox".to_string()),
        cmdline: None,
        environ: None,
    };
    assert_eq!(check_eve_window(&snap, 999, &known()), None);
}

#[test]
fn classifier_without_pid_needs_known_class() {
    let mut snap = wine_snapshot("EVE - Eve");
    snap.pid = None;
    let r = check_eve_window(&snap, 999, &known());
    assert_eq!(r, Some(ClientWindowClass::LoggedIn("Eve".to_string())));

    snap.class = Some("alacritty".to_string());
    assert_eq!(check_eve_window(&snap, 999, &known()), None);
}

#[test]
fn wine_markers_found_in_each_source() {
    let yes = Some("WINEPREFIX=/home/user/.wine".to_string());
    assert!(is_wine_process(&Some("/opt/wine/bin/wine64".to_string()), &None, &None));
    assert!(is_wine_process(&None, &Some("Z:\\eve\\exefile.exe".to_string()), &None));
    assert!(is_wine_process(&None, &None, &yes));
    assert!(!is_wine_process(&Some("/usr/bin/vim".to_string()), &None, &None));
    assert!(!is_wine_process(&None, &None, &None));
}

#[test]
fn window_class_matching_is_exact() {
    assert!(is_eve_window_class("steam_app_8500", &known()));
    assert!(!is_eve_window_class("steam_app_85", &known()));
    assert!(!is_eve_window_class("Steam_app_8500", &known()));
}

#[test]
fn title_gate_alone() {
    assert_eq!(
        is_window_eve("EVE - Zed"),
        Some(ClientWindowClass::LoggedIn("Zed".to_string()))
    );
    assert_eq!(is_window_eve("EVE"), Some(ClientWindowClass::LoggedOut));
    assert_eq!(is_window_eve("EVE-Zed"), None);
    assert_eq!(is_window_eve(""), None);
}

#[test]
fn custom_rule_first_match_wins() {
    let rules = vec![
        CustomWindowRule {
            alias: "Browser".to_string(),
            class_pattern: Some("firefox".to_string()),
            title_pattern: None,
            default_width: 320,
            default_height: 180,
            limit: false,
        },
        CustomWindowRule {
            alias: "AnyFox".to_string(),
            class_pattern: Some("fox".to_string()),
            title_pattern: None,
            default_width: 320,
            default_height: 180,
            limit: false,
        },
    ];
    let snap = WindowSnapshot {
        class: Some("firefox".to_string()),
        title: Some("Mozilla Firefox".to_string()),
        pid: Some(77),
        exe_path: None,
        cmdline: None,
        environ: None,
    };
    let r = classify_window(&snap, 999, &known(), &rules);
    assert_eq!(r, Some(ClientWindowClass::CustomSource("Browser".to_string())));
}

#[test]
fn custom_rule_requires_some_pattern() {
    let rules = vec![CustomWindowRule {
        alias: "Anything".to_string(),
        class_pattern: None,
        title_pattern: None,
        default_width: 320,
        default_height: 180,
        limit: false,
    }];
    let snap = WindowSnapshot {
        class: Some("xterm".to_string()),
        title: Some("shell".to_string()),
        pid: Some(77),
        exe_path: None,
        cmdline: None,
        environ: None,
    };
    assert_eq!(classify_window(&snap, 999, &known(), &rules), None);
}

#[test]
fn classifier_is_deterministic() {
    // The same snapshot classifies the same way, call after call.
    let snap = wine_snapshot("EVE - Alice");
    let rules: Vec<CustomWindowRule> = Vec::new();
    let a = classify_window(&snap, 999, &known(), &rules);
    let b = classify_window(&snap, 999, &known(), &rules);
    assert_eq!(a, b);
}
