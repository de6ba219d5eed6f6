use clipway::gui::{Launch, Window};
use clipway::paths::{database_path_display, db_path, NoDataDirectory};
use clipway::prefs::{add_excluded, count_text, remove_excluded};
use clipway::settings::Settings;
use clipway::store::StoreError;

fn list(names: &[&str]) -> Vec<String> {
    names.iter().map(|name| name.to_string()).collect()
}

fn bytes(text: &str) -> Option<Vec<u8>> {
    Some(text.as_bytes().to_vec())
}

#[test]
fn names_are_added_once() {
    assert_eq!(add_excluded(list(&["a"]), " Firefox "), Some(list(&["a", "Firefox"])));
    assert_eq!(add_excluded(list(&["firefox"]), "FireFox"), None);
    assert_eq!(add_excluded(list(&["a"]), "  "), None);
    // Only ASCII letters are compared without case.
    assert_eq!(
        add_excluded(list(&["\u{e4}"]), "\u{c4}"),
        Some(list(&["\u{e4}", "\u{c4}"]))
    );
}

#[test]
fn names_are_removed_in_any_case() {
    let left = remove_excluded(list(&["A", "b", "a"]), "a");
    assert_eq!(left, list(&["b"]));
    assert_eq!(remove_excluded(list(&["b"]), "a"), list(&["b"]));
    assert!(remove_excluded(Vec::new(), "a").is_empty());
}

#[test]
fn removing_undoes_adding() {
    let before = list(&["one", "two"]);
    let more = add_excluded(before.clone(), "Three").unwrap();
    assert_eq!(remove_excluded(more.clone(), "three"), before);
    let settings = Settings::new(false, more, 25, 1024, 1024, false).snapshot();
    assert!(settings.is_excluded("THREE"));
}

#[test]
fn counts_are_told() {
    assert_eq!(count_text(Ok((12, 3))), "12 stored, 3 pinned");
    assert_eq!(count_text(Err(StoreError::ShortKey)), "0 stored, 0 pinned");
}

#[test]
fn database_lies_where_the_environment_says() {
    assert_eq!(
        db_path(bytes("/x.db"), bytes("/data"), bytes("/home/u")),
        Ok(b"/x.db".to_vec())
    );
    assert_eq!(
        db_path(None, bytes("/data"), bytes("/home/u")),
        Ok(b"/data/clipway/history.db".to_vec())
    );
    assert_eq!(
        db_path(None, None, bytes("/home/u")),
        Ok(b"/home/u/.local/share/clipway/history.db".to_vec())
    );
    assert_eq!(
        db_path(None, bytes("/data/"), None),
        Ok(b"/data/clipway/history.db".to_vec())
    );
    assert_eq!(db_path(None, bytes(""), None), Ok(b"clipway/history.db".to_vec()));
    assert_eq!(db_path(None, None, None), Err(NoDataDirectory));
    assert_eq!(
        NoDataDirectory.message(),
        "cannot determine the data directory; set XDG_DATA_HOME or HOME"
    );
}

#[test]
fn paths_are_joined_as_in_std() {
    for base in ["/data", "/data/", "data", "", "/", "//", "/a b/\u{e9}"] {
        let expected = std::path::PathBuf::from(base).join("clipway").join("history.db");
        assert_eq!(
            database_path_display(None, bytes(base), None),
            expected.display().to_string()
        );
        let expected = std::path::PathBuf::from(base)
            .join(".local")
            .join("share")
            .join("clipway")
            .join("history.db");
        assert_eq!(
            database_path_display(None, None, bytes(base)),
            expected.display().to_string()
        );
    }
}

#[test]
fn unknown_paths_are_told_as_such() {
    assert_eq!(database_path_display(None, None, None), "(unknown)");
    assert_eq!(database_path_display(Some(b"/a\xff".to_vec()), None, None), "/a\u{fffd}");
}

#[test]
fn options_stay_asked_for() {
    let mut launch = Launch::new();
    assert!(launch.stays());
    assert_eq!(launch.activate(), Some((Window::Popup, None)));
    launch.take(true, false, None);
    launch.take(false, false, None);
    assert_eq!(launch.activate(), Some((Window::Preferences, None)));
    launch.take(false, false, Some("a.png".to_string()));
    launch.take(false, false, Some("b.png".to_string()));
    launch.take(false, false, None);
    assert!(!launch.stays());
    assert_eq!(
        launch.activate(),
        Some((Window::Preferences, Some("b.png".to_string())))
    );
    launch.take(false, true, None);
    assert_eq!(launch.activate(), None);
}
