use clipway::dbus::Bridge;
use clipway::model::{EntryMeta, Kind};
use clipway::popup::{
    build_row, content_of, delete_named, delete_row, dropped, entries_for, entries_or_none,
    id_of_row, read_entries, relative_time, row_view, status_text,
};
use clipway::settings::Settings;
use clipway::store::{AddOutcome, Store, StoreError};

fn bridge() -> Bridge {
    let settings = Settings::new(false, Vec::new(), 1000, 4096, 4096, false).snapshot();
    Bridge::new(Store::open_in_memory(&[0x42; 32]).unwrap(), settings)
}

fn copy(bridge: &mut Bridge, mime: &str, content: &[u8], source: &str, now: i64) -> i64 {
    match bridge.add_entry_at(mime, content.to_vec(), source, now) {
        Ok(Some(AddOutcome::Added(id))) => id,
        _ => panic!("not added"),
    }
}

fn meta(kind: Kind, source: &str, pinned: bool) -> EntryMeta {
    EntryMeta {
        id: 12,
        kind,
        mime: "text/plain".to_string(),
        preview: "shown".to_string(),
        source: source.to_string(),
        ts: 0,
        pinned,
    }
}

#[test]
fn times_are_told_in_words() {
    let now = 1_000_000_000;
    let told = |age: i64| relative_time(now - age, now);
    assert_eq!(told(-100).as_deref(), Some("just now"));
    assert_eq!(told(0).as_deref(), Some("just now"));
    assert_eq!(told(59).as_deref(), Some("just now"));
    assert_eq!(told(60).as_deref(), Some("1 min ago"));
    assert_eq!(told(3599).as_deref(), Some("59 min ago"));
    assert_eq!(told(3600).as_deref(), Some("1 h ago"));
    assert_eq!(told(86_399).as_deref(), Some("23 h ago"));
    assert_eq!(told(86_400).as_deref(), Some("1 d ago"));
    assert_eq!(told(604_799).as_deref(), Some("6 d ago"));
    assert_eq!(told(604_800), None);
    assert_eq!(relative_time(i64::MIN, i64::MAX), None);
    assert_eq!(relative_time(i64::MAX, i64::MIN).as_deref(), Some("just now"));
}

#[test]
fn status_counts_entries() {
    assert_eq!(status_text(0), "0 entries");
    assert_eq!(status_text(1), "1 entry");
    assert_eq!(status_text(300), "300 entries");
}

#[test]
fn blank_searches_list_everything() {
    let mut bridge = bridge();
    copy(&mut bridge, "text/plain", b"apple", "", 1);
    copy(&mut bridge, "text/plain", b"banana", "", 2);
    assert_eq!(entries_for(&bridge, "").len(), 2);
    assert_eq!(entries_for(&bridge, " \t").len(), 2);
    let found = entries_for(&bridge, "  APP ");
    assert_eq!(found.len(), 1);
    assert_eq!(found[0].preview, "apple");
    assert!(entries_for(&bridge, "cherry").is_empty());
    assert!(entries_or_none(Err(StoreError::ShortKey)).is_empty());
}

#[test]
fn popup_lists_three_hundred_entries() {
    let mut bridge = bridge();
    for now in 0..310 {
        copy(&mut bridge, "text/plain", format!("{now}").as_bytes(), "", now);
    }
    let listed = entries_for(&bridge, "");
    assert_eq!(listed.len(), 300);
    assert_eq!(listed[0].preview, "309");
    assert_eq!(listed[299].preview, "10");
}

#[test]
fn text_rows_show_their_content() {
    let row = row_view(&meta(Kind::Text, "", false), Some(b"  all of it\n".to_vec()), "now");
    assert_eq!(row.name, "12");
    assert_eq!(row.title, "shown");
    assert_eq!(row.subtitle, "now");
    assert_eq!(row.tooltip.as_deref(), Some("all of it"));
    assert_eq!(row.picture, None);
    assert_eq!(row.icon, Some("format-text-symbolic"));
    assert_eq!(row.pin_icon, "non-starred-symbolic");
    assert!(!row.pinned);
    assert_eq!(id_of_row(&row.name), Some(12));
    let blank = row_view(&meta(Kind::Text, "", false), Some(b" \n".to_vec()), "now");
    assert_eq!(blank.tooltip, None);
    let broken = row_view(&meta(Kind::Text, "", false), Some(b"\xff".to_vec()), "now");
    assert_eq!(broken.tooltip, None);
    let missing = row_view(&meta(Kind::Text, "", false), None, "now");
    assert_eq!(missing.tooltip, None);
}

#[test]
fn picture_rows_show_the_picture() {
    let row = row_view(&meta(Kind::Image, "gimp", true), Some(vec![1, 2, 3]), "1 h ago");
    assert_eq!(row.subtitle, "gimp \u{b7} 1 h ago");
    assert_eq!(row.picture, Some(vec![1, 2, 3]));
    assert_eq!(row.tooltip, None);
    assert_eq!(row.icon, None);
    assert_eq!(row.pin_icon, "starred-symbolic");
    assert!(row.pinned);
    let missing = row_view(&meta(Kind::Image, "gimp", true), None, "1 h ago");
    assert_eq!(missing.picture, None);
    assert_eq!(missing.icon, None);
}

#[test]
fn file_rows_show_an_icon() {
    let row = row_view(&meta(Kind::Files, "", false), Some(b"copy\n/a".to_vec()), "");
    assert_eq!(row.icon, Some("folder-symbolic"));
    assert_eq!(row.tooltip, None);
    assert_eq!(row.picture, None);
}

#[test]
fn rows_are_built_from_the_history() {
    let mut bridge = bridge();
    let id = copy(&mut bridge, "text/plain", b"one\ntwo", "app", 1);
    let listed = entries_for(&bridge, "");
    let row = build_row(&bridge, &listed[0], "just now");
    assert_eq!(row.name, id.to_string());
    assert_eq!(row.title, "one");
    assert_eq!(row.subtitle, "app \u{b7} just now");
    assert_eq!(row.tooltip.as_deref(), Some("one\ntwo"));
    bridge.delete(id).unwrap();
    let row = build_row(&bridge, &listed[0], "just now");
    assert_eq!(row.tooltip, None);
    assert_eq!(content_of(Err(StoreError::ShortKey)), None);
    assert_eq!(content_of(Ok(None)), None);
}

#[test]
fn rows_are_deleted_by_name() {
    let mut bridge = bridge();
    let id = copy(&mut bridge, "text/plain", b"one", "", 1);
    assert!(!delete_row(&mut bridge, ""));
    assert!(!delete_row(&mut bridge, "GtkListBoxRow"));
    assert!(!delete_row(&mut bridge, "999"));
    assert_eq!(bridge.store().counts().unwrap(), (1, 0));
    assert!(delete_row(&mut bridge, &id.to_string()));
    assert!(!delete_row(&mut bridge, &id.to_string()));
    assert_eq!(bridge.store().counts().unwrap(), (0, 0));
    assert!(dropped(Ok(true)));
    assert!(!dropped(Ok(false)));
    assert!(!dropped(Err(StoreError::ShortKey)));
}

#[test]
fn reading_tells_no_entries_from_a_failure() {
    let mut bridge = bridge();
    assert!(read_entries(&bridge, "").unwrap().is_empty());
    copy(&mut bridge, "text/plain", b"apple", "", 1);
    copy(&mut bridge, "text/plain", b"banana", "", 2);
    assert_eq!(read_entries(&bridge, " ").unwrap().len(), 2);
    let found = read_entries(&bridge, " Ban ").unwrap();
    assert_eq!(found.len(), 1);
    assert_eq!(found[0].preview, "banana");
    assert!(read_entries(&bridge, "cherry").unwrap().is_empty());
}

#[test]
fn deletion_tells_a_missing_entry_from_a_failure() {
    let mut bridge = bridge();
    let id = copy(&mut bridge, "text/plain", b"one", "", 1);
    assert!(!delete_named(&mut bridge, "").unwrap());
    assert!(!delete_named(&mut bridge, "999").unwrap());
    assert!(delete_named(&mut bridge, &id.to_string()).unwrap());
    assert!(!delete_named(&mut bridge, &id.to_string()).unwrap());
    assert_eq!(bridge.store().counts().unwrap(), (0, 0));
}
