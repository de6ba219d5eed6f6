//! The statements that the history runs on its SQLite database, and what each of
//! them does to the rows of the table `entries`.
//!
//! Everything that is said of rows is said of a connection that has its database
//! to itself (see [`is_own`]); of any other connection nothing is said.

use rusqlite::OptionalExtension;
use vstd::prelude::*;

use crate::crypto::hex_encoded;
use crate::history::{
    found, has_content, is_content, is_next_id, kept, no_rows, pinned_ids, pinned_rows, rank,
    repinned, touched, Row,
};
use crate::model::optional_text;

verus! {

/// A connection to a database.
#[verifier::external_type_specification]
#[verifier::external_body]
pub struct ExConnection(rusqlite::Connection);

/// Why a statement failed.
#[verifier::external_type_specification]
#[verifier::external_body]
pub struct ExError(rusqlite::Error);

/// The rows of the table `entries` of the connection's database, by id; none where
/// there is no such table.
pub uninterp spec fn rows_of(conn: rusqlite::Connection) -> Map<i64, Row>;

/// The greatest id that the table `entries` has given out, or 0.
pub uninterp spec fn top_id_of(conn: rusqlite::Connection) -> int;

/// The key with which the connection was unlocked, where it was.
pub uninterp spec fn key_of(conn: rusqlite::Connection) -> Option<Seq<u8>>;

/// Has the connection's database the table `entries`?
pub uninterp spec fn has_table(conn: rusqlite::Connection) -> bool;

/// The connection has its database to itself: nothing else writes to it, no
/// transaction is open on it, its table `entries` is the one that [`SCHEMA`]
/// creates or is still to be created, every value in it is of its column's type
/// and every text is UTF-8, no trigger watches that table, and its `LIKE` is
/// SQLite's own.
pub uninterp spec fn is_own(conn: rusqlite::Connection) -> bool;

/// The statements that create the table where it is missing.
pub const SCHEMA: &'static str = "
CREATE TABLE IF NOT EXISTS entries (
    id INTEGER PRIMARY KEY AUTOINCREMENT,
    kind INTEGER NOT NULL,
    mime TEXT NOT NULL,
    data BLOB NOT NULL,
    text TEXT,
    source TEXT NOT NULL DEFAULT '',
    ts INTEGER NOT NULL,
    pinned INTEGER NOT NULL DEFAULT 0
);
CREATE INDEX IF NOT EXISTS entries_recent ON entries (pinned DESC, ts DESC);
PRAGMA user_version = 1;
";

/// The statements that unlock a database with a key.
pub open spec fn key_batch(key: Seq<u8>) -> Seq<char> {
    "PRAGMA key = \"x'"@ + hex_encoded(key)
        + "'\"; PRAGMA cipher_memory_security = ON; PRAGMA foreign_keys = ON; PRAGMA synchronous = NORMAL;"@
}

/// Statements that touch no row: those that unlock a database and those that
/// create the table.
pub open spec fn is_setup(sql: Seq<char>) -> bool {
    sql == SCHEMA@ || exists|key: Seq<u8>| sql == key_batch(key)
}

/// The row that an insertion stores.
pub open spec fn new_row(
    kind: i64,
    mime: Seq<char>,
    data: Seq<u8>,
    text: Option<Seq<char>>,
    source: Seq<char>,
    ts: i64,
) -> Row {
    Row { kind, mime, data, text, source, ts, pinned: 0 }
}

/// `list` is the first rows, in their order, up to `limit` of them: of each its id,
/// kind, MIME type, content, source, time and pin.
pub open spec fn is_selection(
    rows: Map<i64, Row>,
    list: Seq<(i64, i64, String, Vec<u8>, String, i64, i64)>,
    limit: nat,
) -> bool {
    &&& rows.dom().finite()
    &&& list.len() == if limit < rows.dom().len() {
        limit
    } else {
        rows.dom().len()
    }
    &&& forall|i: int|
        0 <= i < list.len() ==> {
            let item = #[trigger] list[i];
            let row = rows[item.0];
            &&& rows.contains_key(item.0)
            &&& rank(rows, item.0) == i
            &&& item.1 == row.kind
            &&& item.2@ == row.mime
            &&& item.3@ == row.data
            &&& item.4@ == row.source
            &&& item.5 == row.ts
            &&& item.6 == row.pinned
        }
}

/// `rusqlite::Connection::open_in_memory` opens a new database that no other
/// connection sees; it holds no table yet, and no key was applied to it.
#[verifier::external_body]
pub(crate) fn open_memory() -> (res: Result<rusqlite::Connection, rusqlite::Error>)
    ensures
        res is Ok ==> is_own(res->Ok_0),
        res is Ok ==> key_of(res->Ok_0) is None,
        res is Ok ==> !has_table(res->Ok_0),
        res is Ok ==> rows_of(res->Ok_0) == no_rows(),
        res is Ok ==> top_id_of(res->Ok_0) == 0,
{
    rusqlite::Connection::open_in_memory()
}

/// `rusqlite::Connection::execute_batch` runs statements one after the other and
/// stops at the first that fails. Those that unlock a database or create the table
/// where it is missing leave the rows as they are. Where those that create the table
/// succeed, it is there. Where no key was applied before,
/// the statements that unlock a database apply theirs: the connection then encrypts
/// what it writes and decrypts what it reads with that key. A later key may be
/// passed over, so nothing is said of one. Whether the key is the one that the
/// database was made with shows in the statements that read it, and nothing is said
/// of that. Of other statements nothing is said.
#[verifier::external_body]
pub(crate) fn execute_batch(conn: &mut rusqlite::Connection, sql: &str) -> (res: Result<
    (),
    rusqlite::Error,
>)
    ensures
        is_own(*old(conn)) && is_setup(sql@) ==> is_own(*final(conn)),
        is_own(*old(conn)) && is_setup(sql@) ==> rows_of(*final(conn)) == rows_of(*old(conn)),
        is_own(*old(conn)) && is_setup(sql@) ==> top_id_of(*final(conn)) == top_id_of(*old(conn)),
        is_own(*old(conn)) && sql@ == SCHEMA@ && res is Ok ==> has_table(*final(conn)),
        is_own(*old(conn)) && sql@ == SCHEMA@ ==> key_of(*final(conn)) == key_of(*old(conn)),
        is_own(*old(conn)) && key_of(*old(conn)) is None && res is Ok ==> forall|key: Seq<u8>|
            sql@ == #[trigger] key_batch(key) ==> key_of(*final(conn)) == Some(key),
{
    conn.execute_batch(sql)
}

/// `rusqlite::Statement::insert` on an `INSERT` stores one row, not pinned, and
/// gives its id. The column is declared `AUTOINCREMENT`: the id is the number after
/// the greater of every id that the table has given out and every id in use, and it
/// is positive. Where it fails, the row is stored whole, under that id, or not at
/// all, and then the id is not given out.
#[verifier::external_body]
pub(crate) fn insert_row(
    conn: &mut rusqlite::Connection,
    kind: i64,
    mime: &str,
    data: &[u8],
    text: &Option<String>,
    source: &str,
    ts: i64,
) -> (res: Result<i64, rusqlite::Error>)
    ensures
        is_own(*old(conn)) ==> is_own(*final(conn)),
        is_own(*old(conn)) ==> key_of(*final(conn)) == key_of(*old(conn)),
        is_own(*old(conn)) ==> has_table(*final(conn)) == has_table(*old(conn)),
        is_own(*old(conn)) && res is Ok ==> ({
            let id = res->Ok_0;
            &&& id > 0
            &&& is_next_id(rows_of(*old(conn)), top_id_of(*old(conn)), id)
            &&& top_id_of(*final(conn)) == id
            &&& rows_of(*final(conn)) == rows_of(*old(conn)).insert(
                id,
                new_row(kind, mime@, data@, optional_text(*text), source@, ts),
            )
        }),
        is_own(*old(conn)) && res is Err ==> {
            ||| rows_of(*final(conn)) == rows_of(*old(conn)) && top_id_of(*final(conn))
                == top_id_of(*old(conn))
            ||| exists|id: i64|
                {
                    &&& id > 0
                    &&& #[trigger] is_next_id(rows_of(*old(conn)), top_id_of(*old(conn)), id)
                    &&& top_id_of(*final(conn)) == id
                    &&& rows_of(*final(conn)) == rows_of(*old(conn)).insert(
                        id,
                        new_row(kind, mime@, data@, optional_text(*text), source@, ts),
                    )
                }
        },
{
    conn.prepare(
        "INSERT INTO entries (kind, mime, data, text, source, ts, pinned)
         VALUES (?1, ?2, ?3, ?4, ?5, ?6, 0)",
    )?.insert((kind, mime, data, text, source, ts))
}

/// `rusqlite::Connection::execute` on an `UPDATE` of one row's time, which gives
/// the number of rows that have the id. Where it fails, the time is set or it is
/// not.
#[verifier::external_body]
pub(crate) fn set_ts(conn: &mut rusqlite::Connection, id: i64, ts: i64) -> (res: Result<
    usize,
    rusqlite::Error,
>)
    ensures
        is_own(*old(conn)) ==> is_own(*final(conn)),
        is_own(*old(conn)) ==> key_of(*final(conn)) == key_of(*old(conn)),
        is_own(*old(conn)) ==> has_table(*final(conn)) == has_table(*old(conn)),
        is_own(*old(conn)) ==> top_id_of(*final(conn)) == top_id_of(*old(conn)),
        is_own(*old(conn)) && res is Ok ==> rows_of(*final(conn)) == touched(
            rows_of(*old(conn)),
            id,
            ts,
        ),
        is_own(*old(conn)) && res is Ok ==> res->Ok_0 == if rows_of(*old(conn)).contains_key(id) {
            1int
        } else {
            0
        },
        is_own(*old(conn)) && res is Err ==> rows_of(*final(conn)) == rows_of(*old(conn))
            || rows_of(*final(conn)) == touched(rows_of(*old(conn)), id, ts),
{
    conn.execute("UPDATE entries SET ts = ?2 WHERE id = ?1", (id, ts))
}

/// `rusqlite::Connection::execute` on an `UPDATE` of one row's pin, which gives the
/// number of rows that have the id. Where it fails, the pin is set or it is not.
#[verifier::external_body]
pub(crate) fn set_pin(conn: &mut rusqlite::Connection, id: i64, pinned: i64) -> (res: Result<
    usize,
    rusqlite::Error,
>)
    ensures
        is_own(*old(conn)) ==> is_own(*final(conn)),
        is_own(*old(conn)) ==> key_of(*final(conn)) == key_of(*old(conn)),
        is_own(*old(conn)) ==> has_table(*final(conn)) == has_table(*old(conn)),
        is_own(*old(conn)) ==> top_id_of(*final(conn)) == top_id_of(*old(conn)),
        is_own(*old(conn)) && res is Ok ==> rows_of(*final(conn)) == repinned(
            rows_of(*old(conn)),
            id,
            pinned,
        ),
        is_own(*old(conn)) && res is Ok ==> res->Ok_0 == if rows_of(*old(conn)).contains_key(id) {
            1int
        } else {
            0
        },
        is_own(*old(conn)) && res is Err ==> rows_of(*final(conn)) == rows_of(*old(conn))
            || rows_of(*final(conn)) == repinned(rows_of(*old(conn)), id, pinned),
{
    conn.execute("UPDATE entries SET pinned = ?2 WHERE id = ?1", (id, pinned))
}

/// `rusqlite::Connection::execute` on a `DELETE` of one row, which gives the number
/// of rows that had the id. Where it fails, the row is gone or it is not.
#[verifier::external_body]
pub(crate) fn delete_row(conn: &mut rusqlite::Connection, id: i64) -> (res: Result<
    usize,
    rusqlite::Error,
>)
    ensures
        is_own(*old(conn)) ==> is_own(*final(conn)),
        is_own(*old(conn)) ==> key_of(*final(conn)) == key_of(*old(conn)),
        is_own(*old(conn)) ==> has_table(*final(conn)) == has_table(*old(conn)),
        is_own(*old(conn)) ==> top_id_of(*final(conn)) == top_id_of(*old(conn)),
        is_own(*old(conn)) && res is Ok ==> rows_of(*final(conn)) == rows_of(*old(conn)).remove(id),
        is_own(*old(conn)) && res is Ok ==> res->Ok_0 == if rows_of(*old(conn)).contains_key(id) {
            1int
        } else {
            0
        },
        is_own(*old(conn)) && res is Err ==> rows_of(*final(conn)) == rows_of(*old(conn))
            || rows_of(*final(conn)) == rows_of(*old(conn)).remove(id),
{
    conn.execute("DELETE FROM entries WHERE id = ?1", (id,))
}

/// `rusqlite::Connection::execute` on a `DELETE` of all rows. Where it fails, all
/// are gone or none.
#[verifier::external_body]
pub(crate) fn delete_all(conn: &mut rusqlite::Connection) -> (res: Result<usize, rusqlite::Error>)
    ensures
        is_own(*old(conn)) ==> is_own(*final(conn)),
        is_own(*old(conn)) ==> key_of(*final(conn)) == key_of(*old(conn)),
        is_own(*old(conn)) ==> has_table(*final(conn)) == has_table(*old(conn)),
        is_own(*old(conn)) ==> top_id_of(*final(conn)) == top_id_of(*old(conn)),
        is_own(*old(conn)) && res is Ok ==> rows_of(*final(conn)) == no_rows(),
        is_own(*old(conn)) && res is Err ==> rows_of(*final(conn)) == rows_of(*old(conn))
            || rows_of(*final(conn)) == no_rows(),
{
    conn.execute("DELETE FROM entries", ())
}

/// `rusqlite::Connection::execute` on a `DELETE` of the rows whose pin is 0. Where
/// it fails, all of these are gone or none.
#[verifier::external_body]
pub(crate) fn delete_unpinned(conn: &mut rusqlite::Connection) -> (res: Result<
    usize,
    rusqlite::Error,
>)
    ensures
        is_own(*old(conn)) ==> is_own(*final(conn)),
        is_own(*old(conn)) ==> key_of(*final(conn)) == key_of(*old(conn)),
        is_own(*old(conn)) ==> has_table(*final(conn)) == has_table(*old(conn)),
        is_own(*old(conn)) ==> top_id_of(*final(conn)) == top_id_of(*old(conn)),
        is_own(*old(conn)) && res is Ok ==> rows_of(*final(conn)) == pinned_rows(
            rows_of(*old(conn)),
        ),
        is_own(*old(conn)) && res is Err ==> rows_of(*final(conn)) == rows_of(*old(conn))
            || rows_of(*final(conn)) == pinned_rows(rows_of(*old(conn))),
{
    conn.execute("DELETE FROM entries WHERE pinned = 0", ())
}

/// `rusqlite::Connection::execute` on a `DELETE` of the rows whose pin is 0 and that
/// are not among the first `depth` in the order of the `ORDER BY` clause. Where it
/// fails, all of these are gone or none.
#[verifier::external_body]
pub(crate) fn delete_beyond(conn: &mut rusqlite::Connection, depth: u32) -> (res: Result<
    usize,
    rusqlite::Error,
>)
    ensures
        is_own(*old(conn)) ==> is_own(*final(conn)),
        is_own(*old(conn)) ==> key_of(*final(conn)) == key_of(*old(conn)),
        is_own(*old(conn)) ==> has_table(*final(conn)) == has_table(*old(conn)),
        is_own(*old(conn)) ==> top_id_of(*final(conn)) == top_id_of(*old(conn)),
        is_own(*old(conn)) && res is Ok ==> rows_of(*final(conn)) == kept(
            rows_of(*old(conn)),
            depth as nat,
        ),
        is_own(*old(conn)) && res is Err ==> rows_of(*final(conn)) == rows_of(*old(conn))
            || rows_of(*final(conn)) == kept(rows_of(*old(conn)), depth as nat),
{
    conn.execute(
        "DELETE FROM entries
         WHERE pinned = 0
           AND id NOT IN (SELECT id FROM entries ORDER BY pinned DESC, ts DESC, id LIMIT ?1)",
        (depth,),
    )
}

/// `rusqlite::Connection::query_row` on a `SELECT` of a row with the given content
/// gives the id of one, or nothing where there is none. Which one it gives, where
/// several rows have that content, is not said.
#[verifier::external_body]
pub(crate) fn find_content(
    conn: &rusqlite::Connection,
    kind: i64,
    mime: &str,
    data: &[u8],
) -> (res: Result<Option<i64>, rusqlite::Error>)
    ensures
        is_own(*conn) && res is Ok ==> match res->Ok_0 {
            Some(id) => rows_of(*conn).contains_key(id) && is_content(
                rows_of(*conn)[id],
                kind,
                mime@,
                data@,
            ),
            None => !has_content(rows_of(*conn), kind, mime@, data@),
        },
{
    conn.query_row(
        "SELECT id FROM entries WHERE kind = ?1 AND mime = ?2 AND data = ?3",
        (kind, mime, data),
        |row| row.get(0),
    ).optional()
}

/// `rusqlite::Statement::query_map` on a `SELECT` gives the first rows, in the order
/// of the `ORDER BY` clause, up to the number that the `LIMIT` clause allows.
#[verifier::external_body]
pub(crate) fn select_first(conn: &rusqlite::Connection, limit: u32) -> (res: Result<
    Vec<(i64, i64, String, Vec<u8>, String, i64, i64)>,
    rusqlite::Error,
>)
    ensures
        res is Ok ==> res->Ok_0@.len() <= limit,
        is_own(*conn) && res is Ok ==> is_selection(rows_of(*conn), res->Ok_0@, limit as nat),
{
    conn.prepare(
        "SELECT id, kind, mime, data, source, ts, pinned FROM entries
         ORDER BY pinned DESC, ts DESC, id LIMIT ?1",
    )?
        .query_map((limit,), |row| row.try_into())?
        .collect()
}

/// `rusqlite::Statement::query_map` on a `SELECT` gives the first of the rows whose
/// pin is 1 or whose text is `LIKE` the pattern, in the order of the `ORDER BY`
/// clause, up to the number that the `LIMIT` clause allows.
#[verifier::external_body]
pub(crate) fn select_first_matches(
    conn: &rusqlite::Connection,
    pattern: &str,
    limit: u32,
) -> (res: Result<Vec<(i64, i64, String, Vec<u8>, String, i64, i64)>, rusqlite::Error>)
    ensures
        res is Ok ==> res->Ok_0@.len() <= limit,
        is_own(*conn) && res is Ok ==> is_selection(
            found(rows_of(*conn), pattern@),
            res->Ok_0@,
            limit as nat,
        ),
{
    conn.prepare(
        "SELECT id, kind, mime, data, source, ts, pinned FROM entries
         WHERE pinned = 1 OR text LIKE ?1 ESCAPE '\\'
         ORDER BY pinned DESC, ts DESC, id LIMIT ?2",
    )?
        .query_map((pattern, limit), |row| row.try_into())?
        .collect()
}

/// `rusqlite::Connection::query_row` on a `SELECT` of one row gives its kind, MIME
/// type, content, source, time and pin, or nothing where no row has the id.
#[verifier::external_body]
pub(crate) fn fetch_row(conn: &rusqlite::Connection, id: i64) -> (res: Result<
    Option<(i64, String, Vec<u8>, String, i64, i64)>,
    rusqlite::Error,
>)
    ensures
        is_own(*conn) && res is Ok ==> match res->Ok_0 {
            Some(found) => {
                let row = rows_of(*conn)[id];
                &&& rows_of(*conn).contains_key(id)
                &&& found.0 == row.kind
                &&& found.1@ == row.mime
                &&& found.2@ == row.data
                &&& found.3@ == row.source
                &&& found.4 == row.ts
                &&& found.5 == row.pinned
            },
            None => !rows_of(*conn).contains_key(id),
        },
{
    conn.query_row(
        "SELECT kind, mime, data, source, ts, pinned FROM entries WHERE id = ?1",
        (id,),
        |row| row.try_into(),
    ).optional()
}

/// `rusqlite::Connection::query_row` on a `COUNT` of all rows.
#[verifier::external_body]
pub(crate) fn count_rows(conn: &rusqlite::Connection) -> (res: Result<i64, rusqlite::Error>)
    ensures
        is_own(*conn) && res is Ok ==> rows_of(*conn).dom().finite() && res->Ok_0 == rows_of(
            *conn,
        ).dom().len(),
{
    conn.query_row("SELECT COUNT(*) FROM entries", (), |row| row.get(0))
}

/// `rusqlite::Connection::query_row` on a `COUNT` of the rows whose pin is 1.
#[verifier::external_body]
pub(crate) fn count_pinned(conn: &rusqlite::Connection) -> (res: Result<i64, rusqlite::Error>)
    ensures
        is_own(*conn) && res is Ok ==> res->Ok_0 == pinned_ids(rows_of(*conn)).len(),
{
    conn.query_row("SELECT COUNT(*) FROM entries WHERE pinned = 1", (), |row| row.get(0))
}

} // verus!
