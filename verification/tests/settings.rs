use clipway::settings::Settings;

fn with_apps(apps: &[&str]) -> Settings {
    let apps = apps.iter().map(|app| app.to_string()).collect();
    Settings::new(false, apps, 500, 4096, 8192, true)
}

#[test]
fn values_are_clamped() {
    let low = Settings::new(false, Vec::new(), 0, 0, 0, false);
    assert_eq!(low.history_depth(), 25);
    assert_eq!(low.max_text_bytes(), 1024);
    assert_eq!(low.max_image_bytes(), 1024);
    let high = Settings::new(true, Vec::new(), u32::MAX, u32::MAX, u32::MAX, true);
    assert_eq!(high.history_depth(), 10_000);
    assert_eq!(high.max_text_bytes(), 64 * 1024 * 1024);
    assert_eq!(high.max_image_bytes(), 128 * 1024 * 1024);
    assert!(high.incognito());
    assert!(high.clear_on_logout());
    let kept = Settings::new(false, Vec::new(), 25, 1025, 2000, false);
    assert_eq!(kept.history_depth(), 25);
    assert_eq!(kept.max_text_bytes(), 1025);
    assert_eq!(kept.max_image_bytes(), 2000);
}

#[test]
fn snapshot_holds_the_values_as_they_count() {
    let snapshot = with_apps(&[" KeePassXC ", "", "  ", "\u{c4}PP"]).snapshot();
    assert!(!snapshot.incognito);
    assert_eq!(snapshot.history_depth, 500);
    assert_eq!(snapshot.max_text_bytes, 4096);
    assert_eq!(snapshot.max_image_bytes, 8192);
    assert!(snapshot.clear_on_logout);
    assert_eq!(snapshot.excluded_apps, ["keepassxc", "\u{e4}pp"]);
    let copy = snapshot.clone();
    assert_eq!(copy.excluded_apps, snapshot.excluded_apps);
    assert_eq!(copy.history_depth, 500);
}

#[test]
fn exclusion_ignores_case_and_white_space() {
    let snapshot = with_apps(&["KeePassXC", "\u{c4}pp"]).snapshot();
    assert!(snapshot.is_excluded("keepassxc"));
    assert!(snapshot.is_excluded("\tKEEPASSXC "));
    assert!(snapshot.is_excluded("\u{e4}PP"));
    assert!(!snapshot.is_excluded("keepass"));
    assert!(!snapshot.is_excluded(""));
    assert!(!snapshot.is_excluded("  "));
}

#[test]
fn blank_names_exclude_nothing() {
    let snapshot = with_apps(&["", " "]).snapshot();
    assert!(snapshot.excluded_apps.is_empty());
    assert!(!snapshot.is_excluded(""));
    assert!(!snapshot.is_excluded("firefox"));
}
