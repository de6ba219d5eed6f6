use clipway::dbus::{
    entry_path, now_secs, parse_entry_id, paste_answered, paste_found, recent_row, recent_rows,
    secs_of, Bridge, PasteStep, ENTRY_PATH_PREFIX,
};
use clipway::model::Kind;
use clipway::settings::{Settings, SettingsSnapshot};
use clipway::store::{AddOutcome, Store, StoreError};

fn settings() -> SettingsSnapshot {
    Settings::new(false, vec!["KeePassXC".to_string()], 25, 1024, 2048, true).snapshot()
}

fn bridge() -> Bridge {
    Bridge::new(Store::open_in_memory(&[0x42; 32]).unwrap(), settings())
}

fn copy(bridge: &mut Bridge, content: &str, now: i64) -> i64 {
    let data = content.as_bytes().to_vec();
    match bridge.add_entry_at("text/plain", data, "app", now) {
        Ok(Some(AddOutcome::Added(id))) => id,
        _ => panic!("not added"),
    }
}

#[test]
fn entries_are_named_below_the_prefix() {
    assert_eq!(entry_path(0), "/io/clipway/entries/0");
    assert_eq!(entry_path(42), format!("{ENTRY_PATH_PREFIX}/42"));
    let longest = entry_path(i64::MAX);
    assert_eq!(longest, "/io/clipway/entries/9223372036854775807");
    for id in [0, 1, 9, 10, 42, i64::MAX] {
        assert_eq!(parse_entry_id(&entry_path(id)), Some(id));
        assert!(zbus::zvariant::ObjectPath::try_from(entry_path(id)).is_ok());
    }
}

#[test]
fn other_paths_name_no_entry() {
    for path in [
        "",
        "/",
        "/io/clipway/entries",
        "/io/clipway/entries/",
        "/io/clipway/entries/x",
        "/io/clipway/entries/1/2",
        "/io/clipway/other/1",
        "x/io/clipway/entries/1",
    ] {
        assert_eq!(parse_entry_id(path), None, "{path}");
    }
    assert_eq!(parse_entry_id("/io/clipway/entries/007"), Some(7));
    assert_eq!(parse_entry_id("/io/clipway/entries/-7"), Some(-7));
}

#[test]
fn clock_gives_seconds() {
    assert_eq!(secs_of(None), 0);
    assert_eq!(secs_of(Some(1_700_000_000)), 1_700_000_000);
    assert_eq!(secs_of(Some(u64::MAX)), -1);
    assert!(now_secs() > 1_600_000_000);
}

#[test]
fn captures_content_with_the_limits_of_the_settings() {
    let mut bridge = bridge();
    let added = bridge.add_entry("text/plain", b"hello".to_vec(), "firefox").unwrap();
    let Some(AddOutcome::Added(id)) = added else {
        panic!("not added");
    };
    let entry = bridge.store().get(id).unwrap().unwrap();
    assert_eq!(entry.data, b"hello");
    assert_eq!(entry.meta.source, "firefox");
    assert!(entry.meta.ts > 1_600_000_000);
    let large = bridge.add_entry_at("text/plain", vec![b'x'; 1025], "firefox", 1).unwrap();
    assert_eq!(large, Some(AddOutcome::Rejected("payload exceeds size cap")));
    let picture = bridge.add_entry_at("image/png", vec![1; 2048], "firefox", 1).unwrap();
    assert!(matches!(picture, Some(AddOutcome::Added(_))));
    let again = bridge.add_entry_at("text/plain", b"hello".to_vec(), "x", 7).unwrap();
    assert_eq!(again, Some(AddOutcome::Duplicate(id)));
}

#[test]
fn depth_of_the_settings_bounds_the_history() {
    let mut bridge = bridge();
    for now in 0..30 {
        copy(&mut bridge, &format!("item {now}"), now);
    }
    assert_eq!(bridge.store().counts().unwrap(), (25, 0));
}

#[test]
fn secrets_and_unknown_types_are_not_captured() {
    let mut bridge = bridge();
    let hint = bridge.add_entry_at("x-kde-passwordManagerHint", b"secret".to_vec(), "a", 1);
    assert!(matches!(hint, Ok(None)));
    let html = bridge.add_entry_at("text/html", b"<b>".to_vec(), "a", 1);
    assert!(matches!(html, Ok(None)));
    assert_eq!(bridge.store().counts().unwrap(), (0, 0));
}

#[test]
fn excluded_applications_are_not_captured() {
    let mut bridge = bridge();
    for source in ["keepassxc", "KeePassXC", " KEEPASSXC "] {
        let refused = bridge.add_entry_at("text/plain", b"secret".to_vec(), source, 1);
        assert!(matches!(refused, Ok(None)));
    }
    assert_eq!(bridge.store().counts().unwrap(), (0, 0));
}

#[test]
fn incognito_stops_capture_until_it_is_off() {
    let mut bridge = bridge();
    let mut incognito = settings();
    incognito.incognito = true;
    bridge.update_settings(incognito);
    assert!(bridge.snapshot().incognito);
    let refused = bridge.add_entry_at("text/plain", b"a".to_vec(), "app", 1);
    assert!(matches!(refused, Ok(None)));
    bridge.update_settings(settings());
    assert!(!bridge.snapshot().incognito);
    copy(&mut bridge, "a", 1);
    assert_eq!(bridge.store().counts().unwrap(), (1, 0));
}

#[test]
fn clears_all_or_all_but_the_pinned() {
    let mut bridge = bridge();
    let id = copy(&mut bridge, "keep", 1);
    copy(&mut bridge, "drop", 2);
    assert!(bridge.set_pinned(id, true).unwrap());
    assert!(!bridge.set_pinned(id + 100, true).unwrap());
    bridge.clear(true).unwrap();
    assert_eq!(bridge.store().counts().unwrap(), (1, 1));
    bridge.clear(false).unwrap();
    assert_eq!(bridge.store().counts().unwrap(), (0, 0));
    let id = copy(&mut bridge, "again", 3);
    assert!(bridge.delete(id).unwrap());
    assert!(!bridge.delete(id).unwrap());
}

#[test]
fn session_end_clears_where_the_settings_say_so() {
    let mut bridge = bridge();
    let id = copy(&mut bridge, "keep", 1);
    copy(&mut bridge, "drop", 2);
    bridge.set_pinned(id, true).unwrap();
    let mut staying = settings();
    staying.clear_on_logout = false;
    bridge.update_settings(staying);
    bridge.on_session_end().unwrap();
    assert_eq!(bridge.store().counts().unwrap(), (2, 1));
    bridge.update_settings(settings());
    bridge.on_session_end().unwrap();
    assert_eq!(bridge.store().counts().unwrap(), (1, 1));
}

#[test]
fn paste_goes_to_the_extension_and_then_to_the_toolkit() {
    let mut bridge = bridge();
    let id = copy(&mut bridge, "content", 1);
    let PasteStep::Extension(entry) = bridge.paste(id) else {
        panic!("not handed on");
    };
    assert_eq!(entry.data, b"content");
    assert_eq!(entry.meta.mime, "text/plain");
    let PasteStep::Toolkit(entry) = paste_answered(entry, false) else {
        panic!("not handed on");
    };
    assert_eq!(entry.data, b"content");
    assert!(matches!(paste_answered(entry, true), PasteStep::Finished(true)));
    assert!(matches!(bridge.paste(id + 1), PasteStep::Finished(false)));
    assert!(matches!(paste_found(Ok(None)), PasteStep::Finished(false)));
    assert!(matches!(
        paste_found(Err(StoreError::ShortKey)),
        PasteStep::Finished(false)
    ));
}

#[test]
fn paste_by_path_finds_the_entry() {
    let mut bridge = bridge();
    let id = copy(&mut bridge, "content", 1);
    let PasteStep::Extension(entry) = bridge.paste_entry(&entry_path(id)) else {
        panic!("not handed on");
    };
    assert_eq!(entry.meta.id, id);
    assert!(matches!(bridge.paste_entry("/other"), PasteStep::Finished(false)));
    assert!(matches!(
        bridge.paste_entry(&entry_path(id + 1)),
        PasteStep::Finished(false)
    ));
}

#[test]
fn lists_on_the_bus_have_one_to_fifty_rows() {
    let mut bridge = bridge();
    let mut wide = settings();
    wide.history_depth = 100;
    bridge.update_settings(wide);
    for now in 0..60 {
        copy(&mut bridge, &format!("item {now}"), now);
    }
    assert_eq!(bridge.get_recent(0).unwrap().len(), 1);
    assert_eq!(bridge.get_recent(7).unwrap().len(), 7);
    assert_eq!(bridge.get_recent(1000).unwrap().len(), 50);
    assert_eq!(bridge.recent(1000).unwrap().len(), 60);
    assert_eq!(bridge.search("item 5", 1000).unwrap().len(), 11);
}

#[test]
fn rows_on_the_bus_show_the_entry() {
    let mut bridge = bridge();
    let id = copy(&mut bridge, "first\nsecond", 1);
    bridge.set_pinned(id, true).unwrap();
    let mut metas = bridge.get_recent(10).unwrap();
    let row = recent_row(&metas[0]);
    assert_eq!(row.path, entry_path(id));
    assert_eq!(row.kind, Kind::Text.as_i64());
    assert_eq!(row.preview, "first");
    assert_eq!(row.source, "app");
    assert!(row.pinned);
    assert_eq!(recent_rows(&metas).unwrap().len(), 1);
    metas[0].id = -1;
    assert!(recent_rows(&metas).is_none());
}

#[test]
fn entries_are_read_by_path() {
    let mut bridge = bridge();
    let id = copy(&mut bridge, "content", 1);
    let entry = bridge.entry_at(&entry_path(id)).unwrap().unwrap();
    assert_eq!(entry.meta.id, id);
    assert_eq!(entry.meta.preview, "content");
    assert_eq!(entry.data, b"content");
    assert!(bridge.entry_at(&entry_path(id + 1)).unwrap().is_none());
    assert!(bridge.entry_at("/other").unwrap().is_none());
}
