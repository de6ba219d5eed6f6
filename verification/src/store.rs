//! The stored history: adding, listing, searching, pinning and dropping entries.

use vstd::prelude::*;

use crate::crypto::{hex_encode, hex_encoded};
use crate::history::{
    found, has_content, is_content, is_next_id, is_sound, is_valid, kept, law_clearing_keeps_valid,
    law_history_is_bounded, law_newest_is_kept, law_storing_keeps_valid,
    law_updating_keeps_valid, no_rows, pinned_ids, pinned_rows, rank, repinned, touched, Row,
};
use crate::like::{pattern_for, search_pattern};
use crate::model::{
    kind_number, law_kind_round_trip, preview, preview_of, searchable, stored_kind, text_of,
    Entry, EntryMeta, Kind,
};
use crate::sqlite::{
    count_pinned, count_rows, delete_all, delete_beyond, delete_row, delete_unpinned,
    execute_batch, fetch_row, find_content, has_table, insert_row, is_own, is_selection, is_setup,
    key_batch, key_of, new_row, open_memory, rows_of, select_first, select_first_matches, set_pin,
    set_ts, top_id_of, SCHEMA,
};

verus! {

/// What an addition goes by.
pub struct AddOptions {
    /// The most bytes that the content may have.
    pub max_bytes: usize,
    /// How many entries the history keeps.
    pub depth: u32,
    /// The time, in seconds.
    pub now: i64,
}

/// What became of an addition.
#[derive(Debug, PartialEq, Eq)]
pub enum AddOutcome {
    /// The content is stored under this new id.
    Added(i64),
    /// The content was stored already, under this id, and now counts as copied last.
    Duplicate(i64),
    /// The content is not stored, for this reason.
    Rejected(&'static str),
}

impl AddOutcome {
    /// Did the addition change what the history shows?
    pub fn changed(&self) -> (res: bool)
        ensures
            res == !(self is Rejected),
    {
        match self {
            AddOutcome::Added(_) => true,
            AddOutcome::Duplicate(_) => true,
            AddOutcome::Rejected(_) => false,
        }
    }
}

/// Why the history could not do what it was asked.
#[derive(Debug)]
pub enum StoreError {
    /// The database key has fewer than 16 bytes.
    ShortKey,
    /// The database could not be opened.
    Open(rusqlite::Error),
    /// The key could not be applied.
    Key(rusqlite::Error),
    /// The table could not be created.
    Schema(rusqlite::Error),
    /// A statement failed.
    Statement(rusqlite::Error),
}

impl StoreError {
    /// What the message for this error starts with. A statement that failed is told
    /// by the database's own message alone.
    pub fn context(&self) -> (res: Option<&'static str>)
        ensures
            match *self {
                StoreError::ShortKey => res matches Some(text) && text@
                    == "database key must be at least 16 bytes"@,
                StoreError::Open(_) => res is None,
                StoreError::Key(_) => res matches Some(text) && text@ == "applying SQLCipher key"@,
                StoreError::Schema(_) => res matches Some(text) && text@ == "creating schema"@,
                StoreError::Statement(_) => res is None,
            },
    {
        match self {
            StoreError::ShortKey => Some("database key must be at least 16 bytes"),
            StoreError::Open(_) => None,
            StoreError::Key(_) => Some("applying SQLCipher key"),
            StoreError::Schema(_) => Some("creating schema"),
            StoreError::Statement(_) => None,
        }
    }
}

/// What became of the statements that unlock the database.
pub fn unlocked(res: Result<(), rusqlite::Error>) -> (out: Result<(), StoreError>)
    ensures
        match res {
            Ok(_) => out is Ok,
            Err(error) => out == Err::<(), StoreError>(StoreError::Key(error)),
        },
{
    match res {
        Ok(_) => Ok(()),
        Err(error) => Err(StoreError::Key(error)),
    }
}

/// What became of the statements that create the table.
pub fn created(res: Result<(), rusqlite::Error>) -> (out: Result<(), StoreError>)
    ensures
        match res {
            Ok(_) => out is Ok,
            Err(error) => out == Err::<(), StoreError>(StoreError::Schema(error)),
        },
{
    match res {
        Ok(_) => Ok(()),
        Err(error) => Err(StoreError::Schema(error)),
    }
}

/// Does `meta` show the row under its id?
pub open spec fn shows(meta: EntryMeta, id: i64, row: Row) -> bool {
    &&& meta.id == id
    &&& meta.kind == stored_kind(row.kind)
    &&& meta.mime@ == row.mime
    &&& meta.preview@ == preview_of(stored_kind(row.kind), row.data)
    &&& meta.source@ == row.source
    &&& meta.ts == row.ts
    &&& meta.pinned == (row.pinned != 0)
}

/// Is this an entry under the id, with the preview of its own content?
pub open spec fn is_entry(entry: Entry, id: i64) -> bool {
    entry.meta.id == id && entry.meta.preview@ == preview_of(entry.meta.kind, entry.data@)
}

/// `metas` shows the first rows, in their order, up to `limit` of them.
pub open spec fn is_listing(rows: Map<i64, Row>, metas: Seq<EntryMeta>, limit: nat) -> bool {
    &&& rows.dom().finite()
    &&& metas.len() == if limit < rows.dom().len() {
        limit
    } else {
        rows.dom().len()
    }
    &&& forall|i: int|
        0 <= i < metas.len() ==> {
            &&& rows.contains_key((#[trigger] metas[i]).id)
            &&& rank(rows, metas[i].id) == i
            &&& shows(metas[i], metas[i].id, rows[metas[i].id])
        }
}

/// The row that an addition stores.
pub open spec fn added_row(
    kind: Kind,
    mime: Seq<char>,
    data: Seq<u8>,
    source: Seq<char>,
    now: i64,
) -> Row {
    new_row(kind_number(kind), mime, data, searchable(kind, data), source, now)
}

/// What an addition that failed can leave: the rows as they were, the same content
/// with its new time, or the new row, with the rows that are beyond the depth still
/// there or dropped.
pub open spec fn is_half_added(before: Store, after: Store, row: Row, depth: nat) -> bool {
    ||| after@ == before@ && after.top_id() == before.top_id()
    ||| exists|id: i64|
        {
            &&& #[trigger] before@.contains_key(id)
            &&& is_content(before@[id], row.kind, row.mime, row.data)
            &&& after@ == touched(before@, id, row.ts)
            &&& after.top_id() == before.top_id()
        }
    ||| exists|id: i64|
        {
            &&& id > 0
            &&& #[trigger] is_next_id(before@, before.top_id(), id)
            &&& !has_content(before@, row.kind, row.mime, row.data)
            &&& after@ == before@.insert(id, row) || after@ == kept(before@.insert(id, row), depth)
            &&& after.top_id() == id
        }
}

/// A history in an SQLite database.
pub struct Store {
    conn: rusqlite::Connection,
}

impl View for Store {
    type V = Map<i64, Row>;

    /// The rows of the history.
    closed spec fn view(&self) -> Map<i64, Row> {
        rows_of(self.conn)
    }
}

impl Store {
    /// Has the history its database to itself?
    pub closed spec fn own(&self) -> bool {
        is_own(self.conn)
    }

    /// The greatest id that the history has given out.
    pub closed spec fn top_id(&self) -> int {
        top_id_of(self.conn)
    }

    /// The key with which the database was unlocked.
    pub closed spec fn key(&self) -> Option<Seq<u8>> {
        key_of(self.conn)
    }

    /// Has the database the table of the history?
    pub closed spec fn ready(&self) -> bool {
        has_table(self.conn)
    }

    /// Can running the statements on the connection give this result?
    pub closed spec fn ran(
        at: &mut rusqlite::Connection,
        sql: &str,
        res: Result<(), rusqlite::Error>,
    ) -> bool {
        call_ensures(execute_batch, (at, sql), res)
    }

    /// Is the history on this connection?
    pub closed spec fn is_on(&self, conn: rusqlite::Connection) -> bool {
        self.conn == conn
    }

    /// Can opening a new database give this result?
    pub closed spec fn opened(res: Result<rusqlite::Connection, rusqlite::Error>) -> bool {
        call_ensures(open_memory, (), res)
    }

    /// Unlocks the database of a connection and creates the table where it is
    /// missing. An error says which of the two failed, and why; a key that is too
    /// short is refused before either.
    pub fn init(conn: rusqlite::Connection, key: &[u8]) -> (res: Result<Self, StoreError>)
        ensures
            key@.len() < 16 <==> res matches Err(StoreError::ShortKey),
            key@.len() >= 16 ==> exists|
                at: &mut rusqlite::Connection,
                sql: &str,
                first: Result<(), rusqlite::Error>,
            | #[trigger]
                Store::ran(at, sql, first) && *at == conn && sql@ == key_batch(key@) && match first {
                    Err(error) => res == Err::<Self, StoreError>(StoreError::Key(error)),
                    Ok(_) => exists|
                        next: &mut rusqlite::Connection,
                        second: Result<(), rusqlite::Error>,
                    | #[trigger]
                        Store::ran(next, SCHEMA, second) && *next == *final(at) && match second {
                            Err(error) => res == Err::<Self, StoreError>(StoreError::Schema(error)),
                            Ok(_) => res matches Ok(store) && store.is_on(*final(next)),
                        },
                },
            res matches Err(error) ==> error is ShortKey || error is Key || error is Schema,
            is_own(conn) ==> (res matches Ok(store) ==> {
                &&& store.own()
                &&& store@ == rows_of(conn)
                &&& store.top_id() == top_id_of(conn)
                &&& store.ready()
                &&& key_of(conn) is None ==> store.key() == Some(key@)
            }),
    {
        if key.len() < 16 {
            return Err(StoreError::ShortKey);
        }
        let ghost given = conn;
        let mut conn = conn;
        let mut unlock = "PRAGMA key = \"x'".to_owned();
        let digits = hex_encode(key);
        unlock.append(digits.as_str());
        unlock.append(
            "'\"; PRAGMA cipher_memory_security = ON; PRAGMA foreign_keys = ON; PRAGMA synchronous = NORMAL;",
        );
        proof {
            assert(unlock@ == key_batch(key@));
            assert(is_setup(unlock@));
            assert(is_setup(SCHEMA@));
        }
        let first = execute_batch(&mut conn, unlock.as_str());
        let ghost open = conn;
        proof {
            let (at, sql) = choose|at: &mut rusqlite::Connection, sql: &str| #[trigger]
                call_ensures(execute_batch, (at, sql), first) && *at == given && *final(at) == open
                    && sql@ == key_batch(key@);
            assert(Store::ran(at, sql, first));
        }
        match unlocked(first) {
            Ok(_) => {},
            Err(error) => return Err(error),
        }
        let second = execute_batch(&mut conn, SCHEMA);
        proof {
            let next = choose|next: &mut rusqlite::Connection| #[trigger]
                call_ensures(execute_batch, (next, SCHEMA), second) && *next == open && *final(next)
                    == conn;
            assert(Store::ran(next, SCHEMA, second));
        }
        match created(second) {
            Ok(_) => Ok(Store { conn }),
            Err(error) => Err(error),
        }
    }

    /// An empty history that is gone with the value.
    pub fn open_in_memory(key: &[u8]) -> (res: Result<Self, StoreError>)
        ensures
            exists|opened: Result<rusqlite::Connection, rusqlite::Error>| #[trigger]
                Store::opened(opened) && match opened {
                    Ok(conn) => call_ensures(Store::init, (conn, key), res),
                    Err(error) => res == Err::<Self, StoreError>(StoreError::Open(error)),
                },
            key@.len() < 16 ==> res is Err,
            res matches Err(StoreError::ShortKey) ==> key@.len() < 16,
            res matches Ok(store) ==> {
                &&& store.own()
                &&& store@ == no_rows()
                &&& store.top_id() == 0
                &&& store.ready()
                &&& store.key() == Some(key@)
            },
    {
        let opened = open_memory();
        proof {
            assert(Store::opened(opened));
        }
        match opened {
            Ok(conn) => Store::init(conn, key),
            Err(error) => Err(StoreError::Open(error)),
        }
    }

    /// Stores content, unless it is empty or too large. Content that is stored
    /// already counts as copied at this time; new content is stored under a new id,
    /// and then the rows that are beyond the depth and not pinned are dropped.
    pub fn add(
        &mut self,
        kind: Kind,
        mime: &str,
        data: Vec<u8>,
        source: &str,
        opts: &AddOptions,
    ) -> (res: Result<AddOutcome, StoreError>)
        ensures
            is_addition(*old(self), *final(self), kind, mime@, data@, source@, *opts, res),
    {
        if data.len() == 0 {
            return Ok(AddOutcome::Rejected("empty payload"));
        }
        if data.len() > opts.max_bytes {
            return Ok(AddOutcome::Rejected("payload exceeds size cap"));
        }
        let number = kind.as_i64();
        let ghost before = self@;
        let ghost top = self.top_id();
        let ghost row = added_row(kind, mime@, data@, source@, opts.now);
        match find_content(&self.conn, number, mime, data.as_slice()) {
            Err(error) => return Err(StoreError::Statement(error)),
            Ok(Some(id)) => {
                return match set_ts(&mut self.conn, id, opts.now) {
                    Ok(_) => Ok(AddOutcome::Duplicate(id)),
                    Err(error) => Err(StoreError::Statement(error)),
                };
            },
            Ok(None) => {},
        }
        let text = text_of(kind, data.as_slice());
        let id = match insert_row(
            &mut self.conn,
            number,
            mime,
            data.as_slice(),
            &text,
            source,
            opts.now,
        ) {
            Ok(id) => id,
            Err(error) => {
                proof {
                    if is_own(old(self).conn) && !(self@ == before && self.top_id() == top) {
                        let id = choose|id: i64|
                            {
                                &&& id > 0
                                &&& #[trigger] is_next_id(before, top, id)
                                &&& self.top_id() == id
                                &&& self@ == before.insert(id, row)
                            };
                        assert(is_next_id(before, old(self).top_id(), id));
                    }
                }
                return Err(StoreError::Statement(error));
            },
        };
        proof {
            assert(is_own(old(self).conn) ==> is_next_id(before, old(self).top_id(), id));
        }
        match delete_beyond(&mut self.conn, opts.depth) {
            Ok(_) => Ok(AddOutcome::Added(id)),
            Err(error) => Err(StoreError::Statement(error)),
        }
    }

    /// The first entries of the history, up to `limit` of them: pinned ones first,
    /// then those that were copied last.
    pub fn recent(&self, limit: u32) -> (res: Result<Vec<EntryMeta>, StoreError>)
        ensures
            res matches Err(error) ==> error is Statement,
            res matches Ok(metas) ==> metas@.len() <= limit,
            self.own() ==> (res matches Ok(metas) ==> is_listing(self@, metas@, limit as nat)),
    {
        match select_first(&self.conn, limit) {
            Ok(list) => Ok(metas_of(&list)),
            Err(error) => Err(StoreError::Statement(error)),
        }
    }

    /// The first entries that a search for `query` shows, up to `limit` of them:
    /// the pinned ones, then those whose text holds the query.
    pub fn search(&self, query: &str, limit: u32) -> (res: Result<Vec<EntryMeta>, StoreError>)
        ensures
            res matches Err(error) ==> error is Statement,
            res matches Ok(metas) ==> metas@.len() <= limit,
            self.own() ==> (res matches Ok(metas) ==> is_listing(
                found(self@, search_pattern(query@)),
                metas@,
                limit as nat,
            )),
    {
        let pattern = pattern_for(query);
        match select_first_matches(&self.conn, pattern.as_str(), limit) {
            Ok(list) => Ok(metas_of(&list)),
            Err(error) => Err(StoreError::Statement(error)),
        }
    }

    /// The entry with this id.
    pub fn get(&self, id: i64) -> (res: Result<Option<Entry>, StoreError>)
        ensures
            res matches Err(error) ==> error is Statement,
            res matches Ok(Some(entry)) ==> is_entry(entry, id),
            self.own() ==> match res {
                Ok(Some(entry)) => {
                    &&& self@.contains_key(id)
                    &&& shows(entry.meta, id, self@[id])
                    &&& entry.data@ == self@[id].data
                },
                Ok(None) => !self@.contains_key(id),
                Err(_) => true,
            },
    {
        match fetch_row(&self.conn, id) {
            Ok(Some(row)) => {
                let (meta, data) = entry_parts(id, row);
                Ok(Some(Entry { meta, data }))
            },
            Ok(None) => Ok(None),
            Err(error) => Err(StoreError::Statement(error)),
        }
    }

    /// Pins an entry or takes its pin away; `false` where there is no such entry.
    pub fn set_pinned(&mut self, id: i64, pinned: bool) -> (res: Result<bool, StoreError>)
        ensures
            is_pinning(*old(self), *final(self), id, pinned, res),
    {
        let value: i64 = if pinned {
            1
        } else {
            0
        };
        match set_pin(&mut self.conn, id, value) {
            Ok(changed) => Ok(changed > 0),
            Err(error) => Err(StoreError::Statement(error)),
        }
    }

    /// Drops an entry, pinned or not; `false` where there is no such entry.
    pub fn delete(&mut self, id: i64) -> (res: Result<bool, StoreError>)
        ensures
            is_deletion(*old(self), *final(self), id, res),
    {
        match delete_row(&mut self.conn, id) {
            Ok(changed) => Ok(changed > 0),
            Err(error) => Err(StoreError::Statement(error)),
        }
    }

    /// Drops every entry.
    pub fn clear(&mut self) -> (res: Result<(), StoreError>)
        ensures
            is_clearing(*old(self), *final(self), false, res),
    {
        match delete_all(&mut self.conn) {
            Ok(_) => Ok(()),
            Err(error) => Err(StoreError::Statement(error)),
        }
    }

    /// Drops every entry that is not pinned.
    pub fn clear_unpinned(&mut self) -> (res: Result<(), StoreError>)
        ensures
            is_clearing(*old(self), *final(self), true, res),
    {
        match delete_unpinned(&mut self.conn) {
            Ok(_) => Ok(()),
            Err(error) => Err(StoreError::Statement(error)),
        }
    }

    /// How many entries there are, and how many of them are pinned.
    pub fn counts(&self) -> (res: Result<(u32, u32), StoreError>)
        ensures
            res matches Err(error) ==> error is Statement,
            self.own() ==> (res matches Ok(counts) ==> {
                &&& self@.dom().finite()
                &&& counts.0 == self@.dom().len() as u32
                &&& counts.1 == pinned_ids(self@).len() as u32
            }),
    {
        let total = match count_rows(&self.conn) {
            Ok(total) => total,
            Err(error) => return Err(StoreError::Statement(error)),
        };
        let pinned = match count_pinned(&self.conn) {
            Ok(pinned) => pinned,
            Err(error) => return Err(StoreError::Statement(error)),
        };
        Ok((total as u32, pinned as u32))
    }
}

/// Is it still the same database: its own, with the same key, and with the table
/// where that was there?
pub open spec fn is_same_database(before: Store, after: Store) -> bool {
    after.own() && after.key() == before.key() && after.ready() == before.ready()
}

/// What setting a pin does to a history and gives back.
pub open spec fn is_pinning(
    before: Store,
    after: Store,
    id: i64,
    pinned: bool,
    res: Result<bool, StoreError>,
) -> bool {
    let changed = repinned(before@, id, if pinned { 1 } else { 0 });
    &&& res matches Err(error) ==> error is Statement
    &&& before.own() ==> {
        &&& is_same_database(before, after)
        &&& after.top_id() == before.top_id()
        &&& res matches Ok(there) ==> there == before@.contains_key(id) && after@ == changed
        &&& res is Err ==> after@ == before@ || after@ == changed
    }
}

/// What dropping an entry does to a history and gives back.
pub open spec fn is_deletion(
    before: Store,
    after: Store,
    id: i64,
    res: Result<bool, StoreError>,
) -> bool {
    let left = before@.remove(id);
    &&& res matches Err(error) ==> error is Statement
    &&& before.own() ==> {
        &&& is_same_database(before, after)
        &&& after.top_id() == before.top_id()
        &&& res matches Ok(there) ==> there == before@.contains_key(id) && after@ == left
        &&& res is Err ==> after@ == before@ || after@ == left
    }
}

/// What dropping every entry, or every one that is not pinned, does to a history and
/// gives back.
pub open spec fn is_clearing(
    before: Store,
    after: Store,
    keep_pinned: bool,
    res: Result<(), StoreError>,
) -> bool {
    let left = if keep_pinned {
        pinned_rows(before@)
    } else {
        no_rows()
    };
    &&& res matches Err(error) ==> error is Statement
    &&& before.own() ==> {
        &&& is_same_database(before, after)
        &&& after.top_id() == before.top_id()
        &&& res is Ok ==> after@ == left
        &&& res is Err ==> after@ == before@ || after@ == left
    }
}

/// What an addition does to a history and gives back. Content that is empty or has
/// more bytes than the options allow is rejected and changes nothing. Content that
/// is stored already gets the time of the addition. New content is stored under an
/// id that was never given out before, and then the rows that are beyond the depth
/// and not pinned are dropped.
pub open spec fn is_addition(
    before: Store,
    after: Store,
    kind: Kind,
    mime: Seq<char>,
    data: Seq<u8>,
    source: Seq<char>,
    opts: AddOptions,
    res: Result<AddOutcome, StoreError>,
) -> bool {
    let row = added_row(kind, mime, data, source, opts.now);
    if data.len() == 0 {
        &&& after == before
        &&& res matches Ok(AddOutcome::Rejected(reason))
        &&& reason@ == "empty payload"@
    } else if data.len() > opts.max_bytes {
        &&& after == before
        &&& res matches Ok(AddOutcome::Rejected(reason))
        &&& reason@ == "payload exceeds size cap"@
    } else {
        &&& !(res matches Ok(AddOutcome::Rejected(_)))
        &&& res matches Err(error) ==> error is Statement
        &&& before.own() ==> is_same_database(before, after)
        &&& before.own() ==> match res {
            Ok(AddOutcome::Rejected(_)) => false,
            Ok(AddOutcome::Duplicate(id)) => {
                &&& before@.contains_key(id)
                &&& is_content(before@[id], kind_number(kind), mime, data)
                &&& after@ == touched(before@, id, opts.now)
                &&& after.top_id() == before.top_id()
            },
            Ok(AddOutcome::Added(id)) => {
                &&& !has_content(before@, kind_number(kind), mime, data)
                &&& id > 0
                &&& is_next_id(before@, before.top_id(), id)
                &&& after.top_id() == id
                &&& after@ == kept(before@.insert(id, row), opts.depth as nat)
            },
            Err(_) => is_half_added(before, after, row, opts.depth as nat),
        }
    }
}

/// What a list shows of a row, and the row's content.
fn entry_parts(id: i64, row: (i64, String, Vec<u8>, String, i64, i64)) -> (res: (
    EntryMeta,
    Vec<u8>,
))
    ensures
        res.0.id == id,
        res.0.kind == stored_kind(row.0),
        res.0.mime@ == row.1@,
        res.0.preview@ == preview_of(stored_kind(row.0), row.2@),
        res.0.source@ == row.3@,
        res.0.ts == row.4,
        res.0.pinned == (row.5 != 0),
        res.1@ == row.2@,
{
    let (number, mime, data, source, ts, pinned) = row;
    let kind = kind_of(number);
    let shown = preview(kind, data.as_slice());
    (EntryMeta { id, kind, mime, preview: shown, source, ts, pinned: pinned != 0 }, data)
}

/// What a list shows of the rows.
fn metas_of(list: &Vec<(i64, i64, String, Vec<u8>, String, i64, i64)>) -> (res: Vec<EntryMeta>)
    ensures
        res@.len() == list@.len(),
        forall|rows: Map<i64, Row>, limit: nat|
            is_selection(rows, list@, limit) ==> #[trigger] is_listing(rows, res@, limit),
{
    let mut out: Vec<EntryMeta> = Vec::new();
    let mut i: usize = 0;
    while i < list.len()
        invariant
            i <= list@.len(),
            out@.len() == i,
            forall|j: int|
                0 <= j < i ==> {
                    &&& (#[trigger] out@[j]).id == list@[j].0
                    &&& out@[j].kind == stored_kind(list@[j].1)
                    &&& out@[j].mime@ == list@[j].2@
                    &&& out@[j].preview@ == preview_of(stored_kind(list@[j].1), list@[j].3@)
                    &&& out@[j].source@ == list@[j].4@
                    &&& out@[j].ts == list@[j].5
                    &&& out@[j].pinned == (list@[j].6 != 0)
                },
        decreases list@.len() - i,
    {
        let kind = kind_of(list[i].1);
        out.push(
            EntryMeta {
                id: list[i].0,
                kind,
                mime: list[i].2.clone(),
                preview: preview(kind, list[i].3.as_slice()),
                source: list[i].4.clone(),
                ts: list[i].5,
                pinned: list[i].6 != 0,
            },
        );
        i += 1;
    }
    proof {
        assert forall|rows: Map<i64, Row>, limit: nat|
            is_selection(rows, list@, limit) implies #[trigger] is_listing(rows, out@, limit) by {
            assert forall|j: int| 0 <= j < out@.len() implies {
                &&& rows.contains_key((#[trigger] out@[j]).id)
                &&& rank(rows, out@[j].id) == j
                &&& shows(out@[j], out@[j].id, rows[out@[j].id])
            } by {
                assert(rows.contains_key(list@[j].0));
            }
        }
    }
    out
}

/// The kind that a stored number stands for.
fn kind_of(number: i64) -> (res: Kind)
    ensures
        res == stored_kind(number),
{
    match Kind::from_i64(number) {
        Some(kind) => kind,
        None => Kind::Text,
    }
}

/// An addition leaves a valid history valid, also where it fails half way.
pub proof fn law_addition_keeps_valid(
    before: Store,
    after: Store,
    kind: Kind,
    mime: Seq<char>,
    data: Seq<u8>,
    source: Seq<char>,
    opts: AddOptions,
    res: Result<AddOutcome, StoreError>,
)
    requires
        before.own(),
        is_valid(before@),
        is_addition(before, after, kind, mime, data, source, opts, res),
    ensures
        is_valid(after@),
{
    let row = added_row(kind, mime, data, source, opts.now);
    let depth = opts.depth as nat;
    law_kind_round_trip(kind, kind_number(kind));
    if 0 < data.len() <= opts.max_bytes {
        assert forall|id: i64| #[trigger] before@.contains_key(id) implies is_valid(
            touched(before@, id, row.ts),
        ) by {
            law_updating_keeps_valid(before@, id, row.ts, 0);
        }
        assert forall|id: i64|
            #[trigger] is_next_id(before@, before.top_id(), id) && id > 0 && !has_content(
                before@,
                row.kind,
                row.mime,
                row.data,
            ) implies is_valid(before@.insert(id, row)) && is_valid(
            kept(before@.insert(id, row), depth),
        ) by {
            assert(is_sound(id, row));
            law_storing_keeps_valid(before@, id, row, depth);
        }
    }
}

/// Content that is copied twice is stored once: while its row is there, adding it
/// again stores no second row but gives that row the new time.
pub proof fn law_copied_twice_is_stored_once(
    before: Store,
    between: Store,
    after: Store,
    kind: Kind,
    mime: Seq<char>,
    data: Seq<u8>,
    source: Seq<char>,
    again: Seq<char>,
    opts: AddOptions,
    later: AddOptions,
    id: i64,
    res: Result<AddOutcome, StoreError>,
)
    requires
        before.own(),
        is_valid(before@),
        is_addition(before, between, kind, mime, data, source, opts, Ok(AddOutcome::Added(id))),
        between@.contains_key(id),
        data.len() <= later.max_bytes,
        is_addition(between, after, kind, mime, data, again, later, res),
    ensures
        res matches Ok(outcome) ==> outcome == AddOutcome::Duplicate(id) && after@ == touched(
            between@,
            id,
            later.now,
        ),
{
    law_addition_keeps_valid(
        before,
        between,
        kind,
        mime,
        data,
        source,
        opts,
        Ok(AddOutcome::Added(id)),
    );
    let row = added_row(kind, mime, data, source, opts.now);
    assert(between@[id] == row);
    assert(has_content(between@, kind_number(kind), mime, data));
}

/// After content was added, the history has no more rows than its depth, or than
/// are pinned where these are more.
pub proof fn law_addition_is_bounded(
    before: Store,
    after: Store,
    kind: Kind,
    mime: Seq<char>,
    data: Seq<u8>,
    source: Seq<char>,
    opts: AddOptions,
    id: i64,
)
    requires
        before.own(),
        is_valid(before@),
        is_addition(before, after, kind, mime, data, source, opts, Ok(AddOutcome::Added(id))),
    ensures
        after@.dom().finite(),
        after@.dom().len() <= opts.depth || after@.dom().len() <= pinned_ids(before@).len(),
{
    let row = added_row(kind, mime, data, source, opts.now);
    let more = before@.insert(id, row);
    law_kind_round_trip(kind, kind_number(kind));
    assert(is_sound(id, row));
    law_storing_keeps_valid(before@, id, row, opts.depth as nat);
    law_history_is_bounded(more, opts.depth as nat);
    assert(pinned_ids(more) =~= pinned_ids(before@));
}

/// Content that was added is read back as it was: its entry has the kind, the type,
/// the bytes, the source and the time of the addition, and no pin. It is there at
/// least where it was copied after everything that is not pinned, and fewer rows
/// are pinned than the history is deep.
pub proof fn law_added_is_read_back(
    before: Store,
    after: Store,
    kind: Kind,
    mime: Seq<char>,
    data: Seq<u8>,
    source: Seq<char>,
    opts: AddOptions,
    id: i64,
    entry: Entry,
)
    requires
        before.own(),
        is_valid(before@),
        is_addition(before, after, kind, mime, data, source, opts, Ok(AddOutcome::Added(id))),
        shows(entry.meta, id, after@[id]),
        entry.data@ == after@[id].data,
    ensures
        (forall|other: i64| #[trigger]
            before@.contains_key(other) && before@[other].pinned == 0 ==> before@[other].ts
                < opts.now) && pinned_ids(before@).len() < opts.depth ==> after@.contains_key(id),
        after@.contains_key(id) ==> {
            &&& entry.meta.kind == kind
            &&& entry.meta.mime@ == mime
            &&& entry.meta.preview@ == preview_of(kind, data)
            &&& entry.meta.source@ == source
            &&& entry.meta.ts == opts.now
            &&& !entry.meta.pinned
            &&& entry.data@ == data
        },
{
    let row = added_row(kind, mime, data, source, opts.now);
    law_kind_round_trip(kind, kind_number(kind));
    if (forall|other: i64| #[trigger]
        before@.contains_key(other) && before@[other].pinned == 0 ==> before@[other].ts < opts.now)
        && pinned_ids(before@).len() < opts.depth {
        law_newest_is_kept(before@, id, row, opts.depth as nat);
    }
    if after@.contains_key(id) {
        assert(after@[id] == row);
    }
}

/// A call that may change a history, with what it gave back.
#[allow(inconsistent_fields)]
pub enum Call {
    Add {
        kind: Kind,
        mime: Seq<char>,
        data: Seq<u8>,
        source: Seq<char>,
        opts: AddOptions,
        res: Result<AddOutcome, StoreError>,
    },
    SetPinned { id: i64, pinned: bool, res: Result<bool, StoreError> },
    Delete { id: i64, res: Result<bool, StoreError> },
    Clear { res: Result<(), StoreError> },
    ClearUnpinned { res: Result<(), StoreError> },
}

/// Does the call lead from the one history to the other?
pub open spec fn is_call(call: Call, before: Store, after: Store) -> bool {
    match call {
        Call::Add { kind, mime, data, source, opts, res } => is_addition(
            before,
            after,
            kind,
            mime,
            data,
            source,
            opts,
            res,
        ),
        Call::SetPinned { id, pinned, res } => is_pinning(before, after, id, pinned, res),
        Call::Delete { id, res } => is_deletion(before, after, id, res),
        Call::Clear { res } => is_clearing(before, after, false, res),
        Call::ClearUnpinned { res } => is_clearing(before, after, true, res),
    }
}

/// Does the call store new content under this id?
pub open spec fn gives_out(call: Call, id: i64) -> bool {
    call matches Call::Add { res: Ok(AddOutcome::Added(given)), .. } && given == id
}

/// The calls lead from each of the histories to the next.
pub open spec fn is_run(states: Seq<Store>, calls: Seq<Call>) -> bool {
    &&& states.len() == calls.len() + 1
    &&& forall|i: int|
        0 <= i < calls.len() ==> is_call(#[trigger] calls[i], states[i], states[i + 1])
}

proof fn lemma_call(call: Call, before: Store, after: Store)
    requires
        is_call(call, before, after),
        before.own(),
        is_valid(before@),
    ensures
        is_same_database(before, after),
        is_valid(after@),
        before.top_id() <= after.top_id(),
{
    match call {
        Call::Add { kind, mime, data, source, opts, res } => {
            law_addition_keeps_valid(before, after, kind, mime, data, source, opts, res);
        },
        Call::SetPinned { id, pinned, res } => {
            law_updating_keeps_valid(before@, id, 0, if pinned { 1 } else { 0 });
        },
        Call::Delete { id, res } => {
            law_clearing_keeps_valid(before@, id);
        },
        _ => {
            law_clearing_keeps_valid(before@, 0);
        },
    }
}

proof fn lemma_run(states: Seq<Store>, calls: Seq<Call>, i: int, j: int)
    requires
        is_run(states, calls),
        0 <= i <= j <= calls.len(),
        states[i].own(),
        is_valid(states[i]@),
    ensures
        is_same_database(states[i], states[j]),
        is_valid(states[j]@),
        states[i].top_id() <= states[j].top_id(),
    decreases j - i,
{
    if i < j {
        lemma_run(states, calls, i, j - 1);
        assert(is_call(calls[j - 1], states[j - 1], states[j - 1 + 1]));
        lemma_call(calls[j - 1], states[j - 1], states[j]);
    }
}

/// Whatever calls a history has seen since it was empty, or otherwise valid, and
/// whichever of them failed: no two of its rows are the same content, no row is
/// empty, every id is positive, and an id that is given out is greater than every
/// id that was given out before.
pub proof fn law_history_stays_valid(states: Seq<Store>, calls: Seq<Call>)
    requires
        is_run(states, calls),
        states[0].own(),
        states[0]@ == no_rows() || is_valid(states[0]@),
    ensures
        forall|i: int|
            0 <= i < states.len() ==> is_same_database(states[0], #[trigger] states[i]) && is_valid(
                states[i]@,
            ),
        forall|i: int, j: int, a: i64, b: i64|
            0 <= i < j < calls.len() && #[trigger] gives_out(calls[i], a) && #[trigger] gives_out(
                calls[j],
                b,
            ) ==> a < b,
{
    assert(is_valid(no_rows())) by {
        assert(no_rows().dom() =~= Set::empty());
    }
    assert forall|i: int| 0 <= i < states.len() implies is_same_database(
        states[0],
        #[trigger] states[i],
    ) && is_valid(states[i]@) by {
        lemma_run(states, calls, 0, i);
    }
    assert forall|i: int, j: int, a: i64, b: i64|
        0 <= i < j < calls.len() && #[trigger] gives_out(calls[i], a) && #[trigger] gives_out(
            calls[j],
            b,
        ) implies a < b by {
        lemma_run(states, calls, 0, i);
        lemma_run(states, calls, 0, i + 1);
        lemma_run(states, calls, 0, j);
        lemma_run(states, calls, i + 1, j);
        assert(is_call(calls[i], states[i], states[i + 1]));
        assert(is_call(calls[j], states[j], states[j + 1]));
    }
}

/// No id in use is greater than the greatest that was given out.
pub open spec fn is_numbered(store: Store) -> bool {
    &&& store.top_id() >= 0
    &&& forall|id: i64| #[trigger] store@.contains_key(id) ==> id <= store.top_id()
}

proof fn lemma_numbered(states: Seq<Store>, calls: Seq<Call>, i: int)
    requires
        is_run(states, calls),
        0 <= i < states.len(),
        states[0].own(),
        is_valid(states[0]@),
        is_numbered(states[0]),
    ensures
        is_numbered(states[i]),
    decreases i,
{
    if i > 0 {
        lemma_numbered(states, calls, i - 1);
        lemma_run(states, calls, 0, i - 1);
        let before = states[i - 1];
        let after = states[i];
        assert(is_call(calls[i - 1], states[i - 1], states[i - 1 + 1]));
        assert forall|id: i64| #[trigger] after@.contains_key(id) implies id <= after.top_id() by {
            assert(before@.contains_key(id) || id == after.top_id());
        }
    }
}

/// The ids of a history that was empty at the start, or numbered otherwise, count up
/// by one: each is the number after the greatest that was given out.
pub proof fn law_ids_count_up(states: Seq<Store>, calls: Seq<Call>, i: int, id: i64)
    requires
        is_run(states, calls),
        0 <= i < calls.len(),
        states[0].own(),
        is_valid(states[0]@),
        is_numbered(states[0]),
        gives_out(calls[i], id),
    ensures
        id == states[i].top_id() + 1,
        states[i + 1].top_id() == id,
{
    lemma_run(states, calls, 0, i);
    lemma_numbered(states, calls, i);
    assert(is_call(calls[i], states[i], states[i + 1]));
}

} // verus!
