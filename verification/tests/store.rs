use clipway::model::Kind;
use clipway::store::{created, unlocked, AddOptions, AddOutcome, Store, StoreError};

fn store() -> Store {
    Store::open_in_memory(&[0x42; 32]).expect("open in-memory store")
}

fn options(now: i64) -> AddOptions {
    AddOptions {
        max_bytes: 1024,
        depth: 10,
        now,
    }
}

fn add(store: &mut Store, kind: Kind, mime: &str, data: &[u8], now: i64) -> AddOutcome {
    store
        .add(kind, mime, data.to_vec(), "app", &options(now))
        .expect("add entry")
}

#[test]
fn adds_and_reads_entries() {
    let mut store = store();
    let outcome = add(&mut store, Kind::Text, "text/plain", b"hello", 100);
    assert!(matches!(outcome, AddOutcome::Added(_)));
    let recent = store.recent(10).unwrap();
    assert_eq!(recent.len(), 1);
    assert_eq!(recent[0].preview, "hello");
    assert_eq!(recent[0].source, "app");
    let entry = store.get(recent[0].id).unwrap().unwrap();
    assert_eq!(entry.data, b"hello");
}

#[test]
fn duplicate_content_moves_entry_to_top() {
    let mut store = store();
    add(&mut store, Kind::Text, "text/plain", b"one", 100);
    add(&mut store, Kind::Text, "text/plain", b"two", 200);
    let outcome = add(&mut store, Kind::Text, "text/plain", b"one", 300);
    assert!(matches!(outcome, AddOutcome::Duplicate(_)));
    let recent = store.recent(10).unwrap();
    assert_eq!(recent.len(), 2);
    assert_eq!(recent[0].preview, "one");
}

#[test]
fn rejects_empty_and_oversized_payloads() {
    let mut store = store();
    assert_eq!(
        add(&mut store, Kind::Text, "text/plain", b"", 1),
        AddOutcome::Rejected("empty payload")
    );
    assert_eq!(
        add(&mut store, Kind::Text, "text/plain", &[b'x'; 2048], 1),
        AddOutcome::Rejected("payload exceeds size cap")
    );
    assert_eq!(store.counts().unwrap().0, 0);
}

#[test]
fn evicts_unpinned_beyond_depth_but_keeps_pinned() {
    let mut store = store();
    for index in 0..5 {
        add(
            &mut store,
            Kind::Text,
            "text/plain",
            format!("item-{index}").as_bytes(),
            index,
        );
    }
    let first = store.recent(10).unwrap()[0].id;
    store.set_pinned(first, true).unwrap();
    for index in 5..15 {
        add(
            &mut store,
            Kind::Text,
            "text/plain",
            format!("item-{index}").as_bytes(),
            index,
        );
    }
    let (total, pinned) = store.counts().unwrap();
    assert_eq!(total, 10);
    assert_eq!(pinned, 1);
    let pinned_entry = store.get(first).unwrap();
    assert!(pinned_entry.is_some());
}

#[test]
fn searches_text_and_file_paths() {
    let mut store = store();
    add(&mut store, Kind::Text, "text/plain", b"needle in a haystack", 1);
    add(
        &mut store,
        Kind::Files,
        "x-special/gnome-copied-files",
        b"copy\n/home/user/needles/report.pdf",
        2,
    );
    add(
        &mut store,
        Kind::Image,
        "image/png",
        &[0x89, b'P', b'N', b'G'],
        3,
    );
    assert_eq!(store.search("needle", 10).unwrap().len(), 2);
    assert_eq!(store.search("report", 10).unwrap().len(), 1);
    assert_eq!(store.search("nothing", 10).unwrap().len(), 0);
}

#[test]
fn search_escapes_wildcards() {
    let mut store = store();
    add(&mut store, Kind::Text, "text/plain", b"100% done", 1);
    add(&mut store, Kind::Text, "text/plain", b"nothing here", 2);
    assert_eq!(store.search("100%", 10).unwrap().len(), 1);
    assert_eq!(store.search("%", 10).unwrap().len(), 1);
}

#[test]
fn pins_deletes_and_clears() {
    let mut store = store();
    add(&mut store, Kind::Text, "text/plain", b"keep me", 1);
    add(&mut store, Kind::Text, "text/plain", b"drop me", 2);
    let ids: Vec<i64> = store.recent(10).unwrap().iter().map(|e| e.id).collect();
    assert!(store.set_pinned(ids[0], true).unwrap());
    assert!(store.delete(ids[1]).unwrap());
    assert!(!store.delete(ids[1]).unwrap());
    let remaining = store.recent(10).unwrap();
    assert_eq!(remaining.len(), 1);
    assert!(remaining[0].pinned);
    store.clear_unpinned().unwrap();
    assert_eq!(store.counts().unwrap(), (1, 1));
    store.clear().unwrap();
    assert_eq!(store.counts().unwrap(), (0, 0));
}

fn text(store: &mut Store, content: &str, now: i64) -> i64 {
    match add(store, Kind::Text, "text/plain", content.as_bytes(), now) {
        AddOutcome::Added(id) => id,
        other => panic!("not added: {other:?}"),
    }
}

fn previews(store: &Store, query: &str) -> Vec<String> {
    let found = store.search(query, 10).unwrap();
    found.iter().map(|meta| meta.preview.clone()).collect()
}

/// A connection to a database that all connections of the name share.
fn shared(name: &str) -> rusqlite::Connection {
    rusqlite::Connection::open(format!("file:/{name}?vfs=memdb")).unwrap()
}

#[test]
fn database_without_the_key_cannot_be_set_up() {
    let conn = rusqlite::Connection::open_in_memory().unwrap();
    conn.execute_batch(clipway::sqlite::SCHEMA).unwrap();
    let error = Store::init(conn, &[7; 32]).err().unwrap();
    assert!(matches!(error, StoreError::Schema(_)));
}

#[test]
fn short_keys_are_refused() {
    let error = Store::open_in_memory(&[1; 15]).err().unwrap();
    assert!(matches!(error, StoreError::ShortKey));
    assert_eq!(error.context(), Some("database key must be at least 16 bytes"));
    assert!(Store::open_in_memory(&[1; 16]).is_ok());
}

#[test]
fn errors_say_what_failed() {
    let failed = rusqlite::Error::InvalidQuery;
    assert_eq!(StoreError::Key(failed).context(), Some("applying SQLCipher key"));
    let failed = rusqlite::Error::InvalidQuery;
    assert_eq!(StoreError::Schema(failed).context(), Some("creating schema"));
    let failed = rusqlite::Error::InvalidQuery;
    assert_eq!(StoreError::Open(failed).context(), None);
    let failed = rusqlite::Error::InvalidQuery;
    assert_eq!(StoreError::Statement(failed).context(), None);
}

#[test]
fn table_that_is_gone_makes_statements_fail() {
    let mut store = Store::init(shared("gone"), &[7; 32]).unwrap();
    let other = shared("gone");
    let digits = "07".repeat(32);
    other
        .execute_batch(&format!("PRAGMA key = \"x'{digits}'\"; DROP TABLE entries;"))
        .unwrap();
    assert!(matches!(store.recent(1), Err(StoreError::Statement(_))));
    assert!(matches!(store.search("x", 1), Err(StoreError::Statement(_))));
    assert!(matches!(store.get(1), Err(StoreError::Statement(_))));
    assert!(matches!(store.delete(1), Err(StoreError::Statement(_))));
    assert!(matches!(store.set_pinned(1, true), Err(StoreError::Statement(_))));
    assert!(matches!(store.clear(), Err(StoreError::Statement(_))));
    assert!(matches!(store.clear_unpinned(), Err(StoreError::Statement(_))));
    assert!(matches!(store.counts(), Err(StoreError::Statement(_))));
    let added = store.add(Kind::Text, "text/plain", b"x".to_vec(), "", &options(1));
    assert!(matches!(added, Err(StoreError::Statement(_))));
}

#[test]
fn setting_up_again_keeps_the_rows() {
    let mut first = Store::init(shared("again"), &[7; 32]).unwrap();
    let id = text(&mut first, "hello", 4);
    let mut second = Store::init(shared("again"), &[7; 32]).unwrap();
    let recent = second.recent(10).unwrap();
    assert_eq!(recent.len(), 1);
    assert_eq!(recent[0].id, id);
    assert_eq!(recent[0].preview, "hello");
    assert!(text(&mut second, "more", 5) > id);
}

#[test]
fn numbers_that_stand_for_no_kind_are_taken_for_text() {
    let store = Store::init(shared("kinds"), &[7; 32]).unwrap();
    let other = shared("kinds");
    let digits = "07".repeat(32);
    other
        .execute_batch(&format!(
            "PRAGMA key = \"x'{digits}'\";
             INSERT INTO entries (kind, mime, data, text, ts, pinned)
             VALUES (9, 'text/plain', x'6869', 'hi', 4, 2);"
        ))
        .unwrap();
    let recent = store.recent(10).unwrap();
    assert_eq!(recent[0].kind, Kind::Text);
    assert_eq!(recent[0].preview, "hi");
    assert_eq!(recent[0].source, "");
    assert!(recent[0].pinned);
    assert_eq!(store.counts().unwrap(), (1, 0));
}

#[test]
fn wrong_key_cannot_read_file() {
    // The database is there as long as a connection to it is.
    let mut store = Store::init(shared("locked"), &[0x11; 32]).unwrap();
    add(&mut store, Kind::Text, "text/plain", b"secret", 1);
    let wrong = Store::init(shared("locked"), &[0x22; 32]);
    match wrong {
        Err(error) => assert!(matches!(error, StoreError::Key(_) | StoreError::Schema(_))),
        Ok(store) => assert!(store.recent(10).is_err()),
    }
    let right = Store::init(shared("locked"), &[0x11; 32]).unwrap();
    assert_eq!(right.recent(10).unwrap().len(), 1);
}

#[test]
fn entries_are_read_back_as_they_were_added() {
    let mut store = store();
    let data = vec![0, 1, 2, 255, 0];
    let outcome = store
        .add(Kind::Image, "image/png", data.clone(), "Paint \u{1f3a8}", &options(-5))
        .unwrap();
    assert!(outcome.changed());
    let AddOutcome::Added(id) = outcome else {
        panic!("not added");
    };
    let entry = store.get(id).unwrap().unwrap();
    assert_eq!(entry.data, data);
    assert_eq!(entry.meta.id, id);
    assert_eq!(entry.meta.kind, Kind::Image);
    assert_eq!(entry.meta.mime, "image/png");
    assert_eq!(entry.meta.preview, "1 KB image");
    assert_eq!(entry.meta.source, "Paint \u{1f3a8}");
    assert_eq!(entry.meta.ts, -5);
    assert!(!entry.meta.pinned);
    assert!(store.get(id + 1).unwrap().is_none());
    assert!(!AddOutcome::Rejected("empty payload").changed());
}

#[test]
fn content_is_told_apart_by_kind_type_and_bytes() {
    let mut store = store();
    let first = text(&mut store, "same", 1);
    let outcome = add(&mut store, Kind::Files, "text/plain", b"same", 2);
    assert!(matches!(outcome, AddOutcome::Added(_)));
    let outcome = add(&mut store, Kind::Text, "text/html", b"same", 3);
    assert!(matches!(outcome, AddOutcome::Added(_)));
    let outcome = add(&mut store, Kind::Text, "text/plain", b"Same", 4);
    assert!(matches!(outcome, AddOutcome::Added(_)));
    let outcome = add(&mut store, Kind::Text, "text/plain", b"same", 5);
    assert_eq!(outcome, AddOutcome::Duplicate(first));
    assert_eq!(store.counts().unwrap(), (4, 0));
    assert_eq!(store.get(first).unwrap().unwrap().meta.ts, 5);
}

#[test]
fn copying_again_keeps_the_pin_and_the_source() {
    let mut store = store();
    let id = text(&mut store, "one", 1);
    store.set_pinned(id, true).unwrap();
    let again = store
        .add(Kind::Text, "text/plain", b"one".to_vec(), "other", &options(9))
        .unwrap();
    assert_eq!(again, AddOutcome::Duplicate(id));
    let entry = store.get(id).unwrap().unwrap();
    assert!(entry.meta.pinned);
    assert_eq!(entry.meta.source, "app");
    assert_eq!(entry.meta.ts, 9);
}

#[test]
fn pinned_come_first_then_the_latest_then_the_first_stored() {
    let mut store = store();
    let a = text(&mut store, "a", 5);
    let b = text(&mut store, "b", 7);
    let c = text(&mut store, "c", 5);
    let d = text(&mut store, "d", 1);
    store.set_pinned(d, true).unwrap();
    let ids: Vec<i64> = store.recent(10).unwrap().iter().map(|meta| meta.id).collect();
    assert_eq!(ids, [d, b, a, c]);
    let ids: Vec<i64> = store.recent(2).unwrap().iter().map(|meta| meta.id).collect();
    assert_eq!(ids, [d, b]);
    assert!(store.recent(0).unwrap().is_empty());
    store.set_pinned(d, false).unwrap();
    let ids: Vec<i64> = store.recent(10).unwrap().iter().map(|meta| meta.id).collect();
    assert_eq!(ids, [b, a, c, d]);
    assert!(!store.set_pinned(99, true).unwrap());
}

#[test]
fn history_holds_its_depth() {
    let mut store = store();
    for now in 0..30 {
        text(&mut store, &format!("item {now}"), now);
        let expected = if now < 10 { now + 1 } else { 10 };
        assert_eq!(i64::from(store.counts().unwrap().0), expected);
    }
    let recent = store.recent(100).unwrap();
    assert_eq!(recent[0].preview, "item 29");
    assert_eq!(recent[9].preview, "item 20");
}

#[test]
fn pinned_entries_can_take_the_history_beyond_its_depth() {
    let mut store = store();
    let small = AddOptions { max_bytes: 10, depth: 2, now: 50 };
    for now in 0..4 {
        let id = text(&mut store, &format!("pin {now}"), now);
        store.set_pinned(id, true).unwrap();
    }
    // Four pinned entries stand before the new one, so it goes at once.
    let outcome = store
        .add(Kind::Text, "text/plain", b"new".to_vec(), "", &small)
        .unwrap();
    let AddOutcome::Added(id) = outcome else {
        panic!("not added");
    };
    assert!(store.get(id).unwrap().is_none());
    assert_eq!(store.counts().unwrap(), (4, 4));
}

#[test]
fn older_content_is_dropped_when_it_arrives_late() {
    let mut store = store();
    for now in 10..20 {
        text(&mut store, &format!("item {now}"), now);
    }
    let late = text(&mut store, "late", 1);
    assert!(store.get(late).unwrap().is_none());
    assert_eq!(store.counts().unwrap().0, 10);
}

#[test]
fn ids_are_never_given_out_again() {
    let mut store = store();
    let first = text(&mut store, "one", 1);
    let second = text(&mut store, "two", 2);
    assert!(first > 0);
    assert!(second > first);
    store.clear().unwrap();
    let third = text(&mut store, "three", 3);
    assert!(third > second);
    assert!(store.delete(third).unwrap());
    assert!(text(&mut store, "four", 4) > third);
}

#[test]
fn rejected_content_changes_nothing() {
    let mut store = store();
    let id = text(&mut store, "one", 1);
    let tight = AddOptions { max_bytes: 2, depth: 0, now: 9 };
    let outcome = store
        .add(Kind::Text, "text/plain", b"one".to_vec(), "", &tight)
        .unwrap();
    assert_eq!(outcome, AddOutcome::Rejected("payload exceeds size cap"));
    let outcome = store
        .add(Kind::Text, "text/plain", Vec::new(), "", &tight)
        .unwrap();
    assert_eq!(outcome, AddOutcome::Rejected("empty payload"));
    assert_eq!(store.get(id).unwrap().unwrap().meta.ts, 1);
}

#[test]
fn depth_of_zero_keeps_pinned_entries_alone() {
    let mut store = store();
    let id = text(&mut store, "pin", 1);
    store.set_pinned(id, true).unwrap();
    let none = AddOptions { max_bytes: 10, depth: 0, now: 9 };
    let outcome = store
        .add(Kind::Text, "text/plain", b"new".to_vec(), "", &none)
        .unwrap();
    assert!(matches!(outcome, AddOutcome::Added(_)));
    assert_eq!(store.counts().unwrap(), (1, 1));
}

#[test]
fn search_takes_every_character_literally() {
    let mut store = store();
    text(&mut store, "a_b", 1);
    text(&mut store, "axb", 2);
    text(&mut store, "back\\slash", 3);
    text(&mut store, "50%", 4);
    assert_eq!(previews(&store, "a_b"), ["a_b"]);
    assert_eq!(previews(&store, "\\"), ["back\\slash"]);
    assert_eq!(previews(&store, "k\\s"), ["back\\slash"]);
    assert_eq!(previews(&store, "0%"), ["50%"]);
    assert!(previews(&store, "a%b").is_empty());
    assert_eq!(previews(&store, "").len(), 4);
}

#[test]
fn search_ignores_the_case_of_ascii_letters_alone() {
    let mut store = store();
    text(&mut store, "HeLLo", 1);
    text(&mut store, "\u{c9}t\u{e9}", 2);
    assert_eq!(previews(&store, "hEllO"), ["HeLLo"]);
    assert_eq!(previews(&store, "\u{c9}T\u{e9}"), ["\u{c9}t\u{e9}"]);
    assert!(previews(&store, "\u{e9}t\u{e9}").is_empty());
}

#[test]
fn search_ends_at_a_nul_character() {
    let mut store = store();
    text(&mut store, "before\0after", 1);
    assert_eq!(previews(&store, "before").len(), 1);
    assert!(previews(&store, "after").is_empty());
    assert_eq!(previews(&store, "before\0zzz").len(), 1);
}

#[test]
fn search_takes_noncharacters_for_replacement_characters() {
    let mut store = store();
    text(&mut store, "x\u{fffe}y", 1);
    assert_eq!(previews(&store, "x\u{fffd}y").len(), 1);
    assert_eq!(previews(&store, "x\u{ffff}y").len(), 1);
    assert!(previews(&store, "xzy").is_empty());
}

#[test]
fn search_shows_pinned_entries_first_and_always() {
    let mut store = store();
    let a = text(&mut store, "apple", 1);
    text(&mut store, "banana", 2);
    text(&mut store, "apple pie", 3);
    store.set_pinned(a, true).unwrap();
    assert_eq!(previews(&store, "pie"), ["apple", "apple pie"]);
    assert_eq!(previews(&store, "nothing"), ["apple"]);
    assert_eq!(store.search("a", 1).unwrap().len(), 1);
    // Pictures have no text.
    add(&mut store, Kind::Image, "image/png", b"apple", 4);
    assert_eq!(previews(&store, "apple"), ["apple", "apple pie"]);
}

#[test]
fn clearing_twice_keeps_the_pinned_entries() {
    let mut store = store();
    let id = text(&mut store, "keep", 1);
    text(&mut store, "drop", 2);
    store.set_pinned(id, true).unwrap();
    store.clear_unpinned().unwrap();
    store.clear_unpinned().unwrap();
    assert_eq!(store.counts().unwrap(), (1, 1));
    assert_eq!(store.recent(10).unwrap()[0].id, id);
}

#[test]
fn setup_errors_name_their_step() {
    assert!(unlocked(Ok(())).is_ok());
    assert!(created(Ok(())).is_ok());
    let failed = unlocked(Err(rusqlite::Error::InvalidQuery));
    assert!(matches!(failed, Err(StoreError::Key(rusqlite::Error::InvalidQuery))));
    let failed = created(Err(rusqlite::Error::InvalidQuery));
    assert!(matches!(failed, Err(StoreError::Schema(rusqlite::Error::InvalidQuery))));
}

#[test]
fn long_queries_still_show_the_pinned_entries() {
    let mut store = store();
    let query = "q".repeat(60_000);
    let id = text(&mut store, "pinned", 1);
    store.set_pinned(id, true).unwrap();
    let found = store.search(&query, 10).unwrap();
    assert_eq!(found.len(), 1);
    assert_eq!(found[0].id, id);
    text(&mut store, "not pinned", 2);
    assert_eq!(store.search(&query, 1).unwrap().len(), 1);
    // The pattern is too long for SQLite once an entry has to be looked at.
    assert!(matches!(store.search(&query, 10), Err(StoreError::Statement(_))));
}

#[test]
fn history_stays_valid_through_any_calls() {
    let mut store = store();
    let mut last = 0;
    for round in 0..40i64 {
        let content = format!("item {}", round % 13);
        match add(&mut store, Kind::Text, "text/plain", content.as_bytes(), round) {
            AddOutcome::Added(id) => {
                assert!(id > last);
                last = id;
            }
            AddOutcome::Duplicate(id) => assert!(id <= last),
            AddOutcome::Rejected(reason) => panic!("{reason}"),
        }
        add(&mut store, Kind::Text, "text/plain", b"", round);
        store.set_pinned(last - round % 3, round % 2 == 0).unwrap();
        if round % 7 == 0 {
            store.delete(last - 1).unwrap();
        }
        if round == 20 {
            store.clear_unpinned().unwrap();
        }
        if round == 30 {
            store.clear().unwrap();
        }
        let metas = store.recent(100).unwrap();
        let mut contents = Vec::new();
        for meta in &metas {
            assert!(meta.id > 0);
            let data = store.get(meta.id).unwrap().unwrap().data;
            assert!(!data.is_empty());
            assert!(!contents.contains(&data));
            contents.push(data);
        }
    }
}

#[test]
fn search_finds_what_the_content_contains() {
    let mut store = store();
    text(&mut store, "Deep_Blue 100%", 1);
    add(&mut store, Kind::Files, "x-special/gnome-copied-files", b"copy\n/a/blue_b", 2);
    add(&mut store, Kind::Image, "image/png", b"blue", 3);
    assert_eq!(previews(&store, "BLUE"), ["blue_b", "Deep_Blue 100%"]);
    assert_eq!(previews(&store, "P_b"), ["Deep_Blue 100%"]);
    assert_eq!(previews(&store, "0%"), ["Deep_Blue 100%"]);
}

#[test]
fn ids_of_a_new_history_count_up_from_one() {
    let mut store = store();
    assert_eq!(text(&mut store, "one", 1), 1);
    assert_eq!(text(&mut store, "two", 2), 2);
    assert!(store.delete(2).unwrap());
    assert_eq!(text(&mut store, "three", 3), 3);
    let again = add(&mut store, Kind::Text, "text/plain", b"one", 4);
    assert_eq!(again, AddOutcome::Duplicate(1));
    store.clear().unwrap();
    assert_eq!(text(&mut store, "four", 5), 4);
}
