//! Laws on the stored history: adding, listing, searching, pinning and dropping.

use vstd::prelude::*;
use vstd::set_lib::*;
use vstd::utf8::{decode_utf8, valid_utf8};

use crate::history::{
    found, is_content, is_next_id, is_sound, is_valid, kept, law_history_is_bounded, law_rank_is_unique,
    law_search_is_by_text, law_storing_keeps_valid, lemma_ranking_exists, lemma_ranking_rank,
    pinned_ids, precedes, rank, touched, Row,
};
use crate::laws::content::read_as;
use crate::like::{
    escape_like, escaped, escaped_char, holds, like_same, occurs_at, pattern_for, search_pattern,
    until_nul,
};
use crate::model::{
    kind_number, law_kind_round_trip, preview, preview_of, stored_kind, Entry, EntryMeta, Kind,
};
use crate::sqlite::{is_own, key_of, rows_of, top_id_of};
use crate::store::{
    added_row, created, is_listing, unlocked, AddOptions, AddOutcome, Store, StoreError,
};
use crate::text::lower;

verus! {

/// Does the one row stand before the other? Pinned rows come first, then what was
/// copied later, then what was stored first.
pub open spec fn stands_before(a: Row, a_id: i64, b: Row, b_id: i64) -> bool {
    if a.pinned != b.pinned {
        a.pinned > b.pinned
    } else if a.ts != b.ts {
        a.ts > b.ts
    } else {
        a_id < b_id
    }
}

/// Does the list show this row, as it is stored?
pub open spec fn is_shown(meta: EntryMeta, row: Row) -> bool {
    &&& meta.kind == Kind::Image <==> row.kind == 1
    &&& meta.kind == Kind::Files <==> row.kind == 2
    &&& meta.mime@ == row.mime
    &&& meta.source@ == row.source
    &&& meta.ts == row.ts
    &&& meta.pinned <==> row.pinned != 0
    &&& meta.preview@ == preview_of(meta.kind, row.data)
}

/// Is the id in the list?
pub open spec fn is_in(metas: Seq<EntryMeta>, id: i64) -> bool {
    exists|i: int| 0 <= i < metas.len() && (#[trigger] metas[i]).id == id
}

/// The list shows rows of the history, each before those that it stands before, no
/// row twice, and no more than were asked for.
pub open spec fn lists_in_order(
    rows: Map<i64, Row>,
    metas: Seq<EntryMeta>,
    limit: nat,
) -> bool {
    &&& metas.len() <= limit
    &&& forall|i: int|
        0 <= i < metas.len() ==> rows.contains_key((#[trigger] metas[i]).id) && is_shown(
            metas[i],
            rows[metas[i].id],
        )
    &&& forall|i: int, j: int|
        0 <= i < j < metas.len() ==> stands_before(
            rows[(#[trigger] metas[i]).id],
            metas[i].id,
            rows[(#[trigger] metas[j]).id],
            metas[j].id,
        )
}

/// The row is in the list, or the list is full and every row in it stands before
/// this one.
pub open spec fn is_listed_or_later(
    rows: Map<i64, Row>,
    metas: Seq<EntryMeta>,
    limit: nat,
    id: i64,
) -> bool {
    is_in(metas, id) || (metas.len() == limit && forall|i: int|
        0 <= i < metas.len() ==> stands_before(
            rows[(#[trigger] metas[i]).id],
            metas[i].id,
            rows[id],
            id,
        ))
}

proof fn lemma_rank_order(rows: Map<i64, Row>, a: i64, b: i64)
    requires
        rows.dom().finite(),
        rows.contains_key(a),
        rows.contains_key(b),
    ensures
        rank(rows, a) < rows.dom().len(),
        rank(rows, a) < rank(rows, b) ==> precedes(rows, a, b),
{
    let ids = lemma_ranking_exists(rows);
    assert(ids.contains(a) && ids.contains(b));
    let i = choose|i: int| 0 <= i < ids.len() && ids[i] == a;
    let j = choose|j: int| 0 <= j < ids.len() && ids[j] == b;
    lemma_ranking_rank(rows, ids, i);
    lemma_ranking_rank(rows, ids, j);
}

/// What a listing of some rows, in `part`, says of the rows that these are among.
pub proof fn lemma_listing(
    rows: Map<i64, Row>,
    part: Map<i64, Row>,
    metas: Seq<EntryMeta>,
    limit: nat,
)
    requires
        is_listing(part, metas, limit),
        forall|id: i64| #[trigger]
            part.contains_key(id) ==> rows.contains_key(id) && part[id] == rows[id],
    ensures
        lists_in_order(rows, metas, limit),
        forall|id: i64| #[trigger]
            part.contains_key(id) ==> is_listed_or_later(rows, metas, limit, id),
        forall|i: int| 0 <= i < metas.len() ==> part.contains_key((#[trigger] metas[i]).id),
{
    assert forall|i: int| 0 <= i < metas.len() implies rows.contains_key((#[trigger] metas[i]).id)
        && is_shown(metas[i], rows[metas[i].id]) by {
        assert(part.contains_key(metas[i].id));
        let number = rows[metas[i].id].kind;
        assert(stored_kind(number) == Kind::Image <==> number == 1);
        assert(stored_kind(number) == Kind::Files <==> number == 2);
    }
    assert forall|i: int, j: int| 0 <= i < j < metas.len() implies stands_before(
        rows[(#[trigger] metas[i]).id],
        metas[i].id,
        rows[(#[trigger] metas[j]).id],
        metas[j].id,
    ) by {
        assert(part.contains_key(metas[i].id) && part.contains_key(metas[j].id));
        lemma_rank_order(part, metas[i].id, metas[j].id);
    }
    assert forall|id: i64| #[trigger] part.contains_key(id) implies is_listed_or_later(
        rows,
        metas,
        limit,
        id,
    ) by {
        let r = rank(part, id) as int;
        lemma_rank_order(part, id, id);
        if r < metas.len() {
            assert(part.contains_key(metas[r].id));
            law_rank_is_unique(part, metas[r].id, id);
            assert(is_in(metas, id));
        } else {
            assert forall|i: int| 0 <= i < metas.len() implies stands_before(
                rows[(#[trigger] metas[i]).id],
                metas[i].id,
                rows[id],
                id,
            ) by {
                assert(part.contains_key(metas[i].id));
                lemma_rank_order(part, metas[i].id, id);
            }
        }
    }
}

/// A list of the most recent entries is the first rows of the history, as many as
/// were asked for or as there are: pinned ones first, then what was copied last.
/// What is not in it comes after everything in it.
pub proof fn law_recent(store: &Store, limit: u32, metas: Vec<EntryMeta>)
    requires
        store.own(),
        call_ensures(
            Store::recent,
            (store, limit),
            Ok::<Vec<EntryMeta>, StoreError>(metas),
        ),
    ensures
        store@.dom().finite(),
        limit <= store@.dom().len() ==> metas@.len() == limit,
        limit >= store@.dom().len() ==> metas@.len() == store@.dom().len(),
        lists_in_order(store@, metas@, limit as nat),
        forall|id: i64| #[trigger]
            store@.contains_key(id) ==> is_listed_or_later(store@, metas@, limit as nat, id),
{
    lemma_listing(store@, store@, metas@, limit as nat);
}

/// A shorter list is the start of a longer one.
pub proof fn law_recent_lists_agree(
    store: &Store,
    limit: u32,
    more: u32,
    metas: Vec<EntryMeta>,
    longer: Vec<EntryMeta>,
    i: int,
)
    requires
        store.own(),
        limit <= more,
        call_ensures(Store::recent, (store, limit), Ok::<Vec<EntryMeta>, StoreError>(metas)),
        call_ensures(Store::recent, (store, more), Ok::<Vec<EntryMeta>, StoreError>(longer)),
        0 <= i < metas@.len(),
    ensures
        i < longer@.len(),
        metas@[i].id == longer@[i].id,
{
    assert(store@.contains_key(metas@[i].id));
    assert(store@.contains_key(longer@[i].id));
    law_rank_is_unique(store@, metas@[i].id, longer@[i].id);
}

/// What an entry is shown as is the preview of its content.
pub proof fn law_shown_by_preview(meta: EntryMeta, row: Row, data: &[u8], res: String)
    requires
        is_shown(meta, row),
        data@ == row.data,
        call_ensures(preview, (meta.kind, data), res),
    ensures
        meta.preview@ == res@,
{
}

/// Do the characters of the text from `at` on start with the query, but for the case
/// of ASCII letters, and does no NUL character stand before their end?
pub open spec fn contains_at(text: Seq<char>, query: Seq<char>, at: int) -> bool {
    &&& 0 <= at
    &&& at + query.len() <= text.len()
    &&& forall|i: int| 0 <= i < query.len() ==> lower(#[trigger] query[i]) == lower(text[at + i])
    &&& forall|i: int| 0 <= i < at + query.len() ==> #[trigger] text[i] != '\0'
}

/// Is the character one of those that SQLite takes for the replacement character?
pub open spec fn is_confused(c: char) -> bool {
    c == '\u{fffd}' || c == '\u{fffe}' || c == '\u{ffff}'
}

proof fn lemma_until_nul(text: Seq<char>, n: int)
    requires
        0 <= n <= text.len(),
        forall|i: int| 0 <= i < n ==> #[trigger] text[i] != '\0',
    ensures
        until_nul(text).len() >= n,
        forall|i: int| 0 <= i < n ==> #[trigger] until_nul(text)[i] == text[i],
    decreases n,
{
    if n > 0 {
        assert(text[0] != '\0');
        assert forall|i: int| 0 <= i < n - 1 implies #[trigger] text.skip(1)[i] != '\0' by {
            assert(text.skip(1)[i] == text[i + 1]);
        }
        lemma_until_nul(text.skip(1), n - 1);
        assert forall|i: int| 0 <= i < n implies #[trigger] until_nul(text)[i] == text[i] by {
            if i > 0 {
                assert(until_nul(text)[i] == until_nul(text.skip(1))[i - 1]);
                assert(text.skip(1)[i - 1] == text[i]);
            }
        }
    }
}

proof fn lemma_until_nul_prefix(text: Seq<char>)
    ensures
        until_nul(text).len() <= text.len(),
        forall|i: int|
            0 <= i < until_nul(text).len() ==> #[trigger] until_nul(text)[i] == text[i]
                && text[i] != '\0',
    decreases text.len(),
{
    if text.len() > 0 && text[0] != '\0' {
        lemma_until_nul_prefix(text.skip(1));
        let inner = until_nul(text.skip(1));
        assert forall|i: int| 0 <= i < until_nul(text).len() implies #[trigger] until_nul(text)[i]
            == text[i] && text[i] != '\0' by {
            if i > 0 {
                assert(until_nul(text)[i] == inner[i - 1]);
                assert(text.skip(1)[i - 1] == text[i]);
            }
        }
    }
}

proof fn lemma_contained_is_held(text: Seq<char>, query: Seq<char>, at: int)
    requires
        contains_at(text, query, at),
    ensures
        holds(query, until_nul(text)),
{
    lemma_until_nul(text, at + query.len());
    assert forall|i: int| 0 <= i < query.len() implies like_same(
        #[trigger] query[i],
        until_nul(text)[at + i],
    ) by {
        assert(lower(query[i]) == lower(text[at + i]));
    }
    assert(occurs_at(query, until_nul(text), at));
}

proof fn lemma_held_is_contained(text: Seq<char>, query: Seq<char>) -> (at: int)
    requires
        holds(query, until_nul(text)),
        forall|i: int, j: int|
            0 <= i < query.len() && 0 <= j < text.len() && is_confused(#[trigger] query[i])
                && is_confused(#[trigger] text[j]) ==> query[i] == text[j],
    ensures
        contains_at(text, query, at),
{
    let at = choose|at: int| occurs_at(query, until_nul(text), at);
    lemma_until_nul_prefix(text);
    assert forall|i: int| 0 <= i < query.len() implies lower(#[trigger] query[i]) == lower(
        text[at + i],
    ) by {
        assert(like_same(query[i], until_nul(text)[at + i]));
        assert(until_nul(text)[at + i] == text[at + i]);
        let a = query[i];
        let b = text[at + i];
        if is_confused(a) && is_confused(b) {
            assert(a == b);
        }
    }
    assert forall|i: int| 0 <= i < at + query.len() implies #[trigger] text[i] != '\0' by {
        assert(until_nul(text)[i] == text[i]);
    }
    at
}

/// Is the row pinned, or is it a text or a list of files whose content contains the
/// query?
pub open spec fn is_searched_for(row: Row, query: Seq<char>) -> bool {
    row.pinned == 1 || (row.kind != 1 && exists|at: int|
        contains_at(read_as(row.data), query, at))
}

/// Tells SQLite the characters of the content from those of the query?
pub open spec fn is_clear(row: Row, query: Seq<char>) -> bool {
    forall|i: int, j: int|
        0 <= i < query.len() && 0 <= j < read_as(row.data).len() && is_confused(
            #[trigger] query[i],
        ) && is_confused(#[trigger] read_as(row.data)[j]) ==> query[i] == read_as(row.data)[j]
}

/// What a search finds, by the contents of the rows.
pub proof fn lemma_search(rows: Map<i64, Row>, query: Seq<char>, id: i64)
    requires
        is_valid(rows),
        !query.contains('\0'),
        rows.contains_key(id),
    ensures
        is_searched_for(rows[id], query) ==> found(rows, search_pattern(query)).contains_key(id),
        found(rows, search_pattern(query)).contains_key(id) && is_clear(rows[id], query)
            ==> is_searched_for(rows[id], query),
        found(rows, search_pattern(query)).contains_key(id) && rows[id].pinned != 1 ==> rows[id].kind
            != 1,
{
    let row = rows[id];
    assert(is_sound(id, row));
    law_search_is_by_text(rows, query, id);
    assert(stored_kind(row.kind) == Kind::Image <==> row.kind == 1);
    if row.kind != 1 {
        let text = read_as(row.data);
        assert(row.text == Some(text));
        if exists|at: int| contains_at(text, query, at) {
            let at = choose|at: int| contains_at(text, query, at);
            lemma_contained_is_held(text, query, at);
        }
        if holds(query, until_nul(text)) && is_clear(row, query) {
            let at = lemma_held_is_contained(text, query);
        }
    }
}

/// A search lists pinned rows, and those texts and lists of files whose content
/// contains the query, whatever characters it is made of and but for the case of
/// ASCII letters: all of them, in the order of the history, or as many as were asked
/// for. A picture that is not pinned is never found. SQLite takes three characters
/// for one another, and a text to end at its first NUL.
pub proof fn law_search(store: &Store, query: &str, limit: u32, metas: Vec<EntryMeta>)
    requires
        store.own(),
        is_valid(store@),
        !query@.contains('\0'),
        call_ensures(
            Store::search,
            (store, query, limit),
            Ok::<Vec<EntryMeta>, StoreError>(metas),
        ),
    ensures
        lists_in_order(store@, metas@, limit as nat),
        forall|id: i64| #[trigger]
            store@.contains_key(id) && is_searched_for(store@[id], query@) ==> is_listed_or_later(
                store@,
                metas@,
                limit as nat,
                id,
            ),
        forall|i: int|
            0 <= i < metas@.len() && is_clear(store@[(#[trigger] metas@[i]).id], query@)
                ==> is_searched_for(store@[metas@[i].id], query@),
        forall|i: int|
            0 <= i < metas@.len() && !(#[trigger] metas@[i]).pinned ==> metas@[i].kind
                != Kind::Image,
{
    let part = found(store@, search_pattern(query@));
    lemma_listing(store@, part, metas@, limit as nat);
    assert forall|id: i64| #[trigger] store@.contains_key(id) && is_searched_for(
        store@[id],
        query@,
    ) implies is_listed_or_later(store@, metas@, limit as nat, id) by {
        lemma_search(store@, query@, id);
        assert(part.contains_key(id));
    }
    assert forall|i: int| 0 <= i < metas@.len() implies part.contains_key(
        (#[trigger] metas@[i]).id,
    ) && (is_clear(store@[metas@[i].id], query@) ==> is_searched_for(store@[metas@[i].id], query@)) && (!metas@[i].pinned ==> metas@[i].kind
        != Kind::Image) by {
        assert(part.contains_key(metas@[i].id));
        assert(store@.contains_key(metas@[i].id));
        assert(is_sound(metas@[i].id, store@[metas@[i].id]));
        lemma_search(store@, query@, metas@[i].id);
    }
}

/// A pattern is the query with a backslash before each percent sign, underscore and
/// backslash, and a percent sign at either end.
pub proof fn law_pattern(query: &str, head: &str, c: char, inner: String, before: String, res: String)
    requires
        query@ == head@.push(c),
        call_ensures(escape_like, (query,), inner),
        call_ensures(escape_like, (head,), before),
        call_ensures(pattern_for, (query,), res),
    ensures
        head@.len() == 0 ==> before@.len() == 0,
        c == '%' || c == '_' || c == '\\' ==> inner@ == before@.push('\\').push(c),
        c != '%' && c != '_' && c != '\\' ==> inner@ == before@.push(c),
        res@ == seq!['%'] + inner@ + seq!['%'],
{
    assert(query@.drop_last() =~= head@);
    assert(escaped(query@) =~= escaped(head@) + escaped_char(c));
    assert(before@.push('\\').push(c) =~= before@ + seq!['\\', c]);
    assert(before@.push(c) =~= before@ + seq![c]);
    assert(search_pattern(query@) =~= seq!['%'] + inner@ + seq!['%']);
}

/// The number by which a kind is stored.
pub open spec fn number_of(kind: Kind) -> int {
    match kind {
        Kind::Text => 0,
        Kind::Image => 1,
        Kind::Files => 2,
    }
}

/// Is this the row of content that was just added?
pub open spec fn is_new_row(
    row: Row,
    kind: Kind,
    mime: Seq<char>,
    data: Seq<u8>,
    source: Seq<char>,
    now: i64,
) -> bool {
    &&& row.kind == number_of(kind)
    &&& row.mime == mime
    &&& row.data == data
    &&& row.source == source
    &&& row.ts == now
    &&& row.pinned == 0
    &&& kind == Kind::Image ==> row.text is None
    &&& kind != Kind::Image ==> row.text == Some(read_as(data))
}

/// Is the content in the history, under this id?
pub open spec fn is_stored(
    rows: Map<i64, Row>,
    id: i64,
    kind: Kind,
    mime: Seq<char>,
    data: Seq<u8>,
) -> bool {
    rows.contains_key(id) && rows[id].kind == number_of(kind) && rows[id].mime == mime
        && rows[id].data == data
}

/// The rows are the same but for the time of one of them.
pub open spec fn only_time_set(
    before: Map<i64, Row>,
    after: Map<i64, Row>,
    id: i64,
    now: i64,
) -> bool {
    &&& forall|other: i64| #[trigger] after.contains_key(other) <==> before.contains_key(other)
    &&& forall|other: i64| #[trigger]
        before.contains_key(other) && other != id ==> after[other] == before[other]
    &&& after[id].ts == now
    &&& after[id].kind == before[id].kind
    &&& after[id].mime == before[id].mime
    &&& after[id].data == before[id].data
    &&& after[id].text == before[id].text
    &&& after[id].source == before[id].source
    &&& after[id].pinned == before[id].pinned
}

/// What storing a new row and evicting does to the rows: the pinned ones stay as they
/// are, nothing changes or appears but the new row, a row goes only where as many
/// others stand before it as the history is deep, and only after every unpinned row
/// that stays.
pub open spec fn only_row_stored(
    before: Map<i64, Row>,
    after: Map<i64, Row>,
    id: i64,
    depth: int,
) -> bool {
    &&& !before.contains_key(id)
    &&& forall|other: i64| #[trigger]
        after.contains_key(other) && other != id ==> before.contains_key(other) && after[other]
            == before[other]
    &&& forall|other: i64| #[trigger]
        before.contains_key(other) && before[other].pinned != 0 ==> after.contains_key(other)
    &&& before.dom().finite() && before.dom().len() < depth ==> after.contains_key(id) && forall|
        other: i64,
    | #[trigger] before.contains_key(other) ==> after.contains_key(other)
    &&& before.dom().finite() && after.contains_key(id) ==> forall|stays: i64, goes: i64|
        #[trigger] after.contains_key(stays) && after[stays].pinned == 0
            && #[trigger] before.contains_key(goes) && !after.contains_key(goes) ==> stands_before(
            after[stays],
            stays,
            before[goes],
            goes,
        )
}

proof fn lemma_kept(before: Map<i64, Row>, id: i64, row: Row, depth: nat)
    requires
        !before.contains_key(id),
    ensures
        only_row_stored(before, kept(before.insert(id, row), depth), id, depth as int),
        kept(before.insert(id, row), depth).contains_key(id) ==> kept(
            before.insert(id, row),
            depth,
        )[id] == row,
{
    let more = before.insert(id, row);
    let after = kept(more, depth);
    if before.dom().finite() {
        assert(more.dom().len() == before.dom().len() + 1) by {
            assert(more.dom() =~= before.dom().insert(id));
        }
        if before.dom().len() < depth {
            assert forall|other: i64| #[trigger] more.contains_key(other) implies after.contains_key(
                other,
            ) by {
                lemma_rank_order(more, other, other);
            }
            assert(more.contains_key(id));
        }
        if after.contains_key(id) {
            assert forall|stays: i64, goes: i64| #[trigger]
                after.contains_key(stays) && after[stays].pinned == 0
                    && #[trigger] before.contains_key(goes) && !after.contains_key(
                    goes,
                ) implies stands_before(after[stays], stays, before[goes], goes) by {
                assert(more.contains_key(goes) && more.contains_key(stays));
                assert(rank(more, stays) < depth <= rank(more, goes));
                lemma_rank_order(more, stays, goes);
            }
        }
    }
}

/// Content that is empty or larger than allowed is refused and changes nothing; all
/// other content is not refused. Content that is stored already is not stored again:
/// its row gets the time and nothing else changes. New content is stored as it came,
/// under an id that is greater than every one before, and old content makes room.
pub proof fn law_add(
    store: &mut Store,
    kind: Kind,
    mime: &str,
    data: Vec<u8>,
    source: &str,
    opts: &AddOptions,
    res: Result<AddOutcome, StoreError>,
)
    requires
        call_ensures(Store::add, (store, kind, mime, data, source, opts), res),
    ensures
        data@.len() == 0 || data@.len() > opts.max_bytes <==> res matches Ok(
            AddOutcome::Rejected(_),
        ),
        res matches Ok(AddOutcome::Rejected(reason)) ==> *final(store) == *old(store) && reason@
            == if data@.len() == 0 {
            "empty payload"@
        } else {
            "payload exceeds size cap"@
        },
        old(store).own() ==> final(store).own(),
        old(store).own() ==> (res matches Ok(AddOutcome::Duplicate(id)) ==> is_stored(
            old(store)@,
            id,
            kind,
            mime@,
            data@,
        ) && only_time_set(old(store)@, final(store)@, id, opts.now)),
        old(store).own() ==> (res matches Ok(AddOutcome::Added(id)) ==> {
            &&& forall|other: i64| !is_stored(old(store)@, other, kind, mime@, data@)
            &&& id > old(store).top_id()
            &&& final(store).top_id() == id
            &&& forall|other: i64| #[trigger] old(store)@.contains_key(other) ==> other < id
            &&& only_row_stored(old(store)@, final(store)@, id, opts.depth as int)
            &&& final(store)@.contains_key(id) ==> is_new_row(
                final(store)@[id],
                kind,
                mime@,
                data@,
                source@,
                opts.now,
            )
        }),
        old(store).own() && res is Err ==> {
            ||| final(store)@ == old(store)@
            ||| exists|id: i64|
                is_stored(old(store)@, id, kind, mime@, data@) && #[trigger] only_time_set(
                    old(store)@,
                    final(store)@,
                    id,
                    opts.now,
                )
            ||| exists|id: i64| #[trigger]
                only_row_stored(old(store)@, final(store)@, id, opts.depth as int) && (final(
                    store)@.contains_key(id) ==> is_new_row(
                    final(store)@[id],
                    kind,
                    mime@,
                    data@,
                    source@,
                    opts.now,
                ))
        },
{
    if old(store).own() {
        lemma_addition(*old(store), *final(store), kind, mime@, data@, source@, *opts, res);
    }
}

/// What an addition does to the rows.
pub proof fn lemma_addition(
    before: Store,
    after: Store,
    kind: Kind,
    mime: Seq<char>,
    data: Seq<u8>,
    source: Seq<char>,
    opts: AddOptions,
    res: Result<AddOutcome, StoreError>,
)
    requires
        crate::store::is_addition(before, after, kind, mime, data, source, opts, res),
        before.own(),
    ensures
        after.own(),
        res matches Ok(AddOutcome::Duplicate(id)) ==> is_stored(before@, id, kind, mime, data)
            && only_time_set(before@, after@, id, opts.now),
        res matches Ok(AddOutcome::Added(id)) ==> {
            &&& forall|other: i64| !is_stored(before@, other, kind, mime, data)
            &&& id > before.top_id()
            &&& after.top_id() == id
            &&& forall|other: i64| #[trigger] before@.contains_key(other) ==> other < id
            &&& only_row_stored(before@, after@, id, opts.depth as int)
            &&& after@.contains_key(id) ==> is_new_row(after@[id], kind, mime, data, source, opts.now)
        },
        res is Err ==> {
            ||| after@ == before@
            ||| exists|id: i64|
                is_stored(before@, id, kind, mime, data) && #[trigger] only_time_set(
                    before@,
                    after@,
                    id,
                    opts.now,
                )
            ||| exists|id: i64| #[trigger]
                only_row_stored(before@, after@, id, opts.depth as int) && (after@.contains_key(id)
                    ==> is_new_row(after@[id], kind, mime, data, source, opts.now))
        },
{
    if res is Err && after@ != before@ {
        let row = added_row(kind, mime, data, source, opts.now);
        let depth = opts.depth as nat;
        if exists|id: i64|
            {
                &&& #[trigger] before@.contains_key(id)
                &&& is_content(before@[id], row.kind, row.mime, row.data)
                &&& after@ == touched(before@, id, row.ts)
            } {
            let id = choose|id: i64|
                {
                    &&& #[trigger] before@.contains_key(id)
                    &&& is_content(before@[id], row.kind, row.mime, row.data)
                    &&& after@ == touched(before@, id, row.ts)
                };
            assert(only_time_set(before@, after@, id, opts.now));
            assert(is_stored(before@, id, kind, mime, data));
        } else {
            let id = choose|id: i64|
                {
                    &&& id > 0
                    &&& #[trigger] is_next_id(before@, before.top_id(), id)
                    &&& after@ == before@.insert(id, row) || after@ == kept(
                        before@.insert(id, row),
                        depth,
                    )
                };
            assert(!before@.contains_key(id));
            lemma_kept(before@, id, row, depth);
            assert(only_row_stored(before@, after@, id, opts.depth as int));
        }
    }
    if let Ok(AddOutcome::Added(id)) = res {
        let row = added_row(kind, mime, data, source, opts.now);
        assert(!before@.contains_key(id));
        lemma_kept(before@, id, row, opts.depth as nat);
        assert forall|other: i64| !is_stored(before@, other, kind, mime, data) by {
            if is_stored(before@, other, kind, mime, data) {
                assert(before@.contains_key(other));
            }
        }
    }
}

/// After new content was added the history has as many rows as it is deep, or as
/// there were and one more, whichever is less; only pinned rows can make it more.
pub proof fn law_add_keeps_depth(
    store: &mut Store,
    kind: Kind,
    mime: &str,
    data: Vec<u8>,
    source: &str,
    opts: &AddOptions,
    id: i64,
)
    requires
        old(store).own(),
        is_valid(old(store)@),
        call_ensures(
            Store::add,
            (store, kind, mime, data, source, opts),
            Ok::<AddOutcome, StoreError>(AddOutcome::Added(id)),
        ),
    ensures
        final(store)@.dom().finite(),
        ({
            let pins = old(store)@.dom().filter(|k: i64| old(store)@[k].pinned == 1).len();
            let all = old(store)@.dom().len() + 1;
            let room = if opts.depth <= all {
                opts.depth as int
            } else {
                all as int
            };
            final(store)@.dom().len() == if pins <= room {
                room
            } else {
                pins as int
            }
        }),
{
    let rows = old(store)@;
    let row = added_row(kind, mime@, data@, source@, opts.now);
    let more = rows.insert(id, row);
    law_kind_round_trip(kind, kind_number(kind));
    assert(is_sound(id, row));
    law_storing_keeps_valid(rows, id, row, opts.depth as nat);
    law_history_is_bounded(more, opts.depth as nat);
    assert(pinned_ids(more) =~= pinned_ids(rows));
    assert(more.dom() =~= rows.dom().insert(id));
    assert(pinned_ids(rows) =~= rows.dom().filter(|k: i64| rows[k].pinned == 1));
}

/// Content that was added, and that the history kept, is found by a search for any
/// part of it: for every stretch of the characters that its bytes encode, up to the
/// first NUL and in whatever case.
pub proof fn law_added_is_found(
    store: &mut Store,
    kind: Kind,
    mime: &str,
    data: Vec<u8>,
    source: &str,
    opts: &AddOptions,
    id: i64,
    later: &Store,
    query: &str,
    at: int,
    limit: u32,
    metas: Vec<EntryMeta>,
)
    requires
        old(store).own(),
        call_ensures(
            Store::add,
            (store, kind, mime, data, source, opts),
            Ok::<AddOutcome, StoreError>(AddOutcome::Added(id)),
        ),
        kind != Kind::Image,
        valid_utf8(data@),
        *later == *final(store),
        later@.contains_key(id),
        contains_at(decode_utf8(data@), query@, at),
        call_ensures(
            Store::search,
            (later, query, limit),
            Ok::<Vec<EntryMeta>, StoreError>(metas),
        ),
    ensures
        is_in(metas@, id) || metas@.len() == limit,
{
    let rows = later@;
    let row = added_row(kind, mime@, data@, source@, opts.now);
    let text = decode_utf8(data@);
    assert(rows[id] == row);
    assert(row.text == Some(text));
    assert(!query@.contains('\0')) by {
        if query@.contains('\0') {
            let i = choose|i: int| 0 <= i < query@.len() && query@[i] == '\0';
            assert(lower(query@[i]) == lower(text[at + i]));
            assert(text[at + i] != '\0');
        }
    }
    lemma_contained_is_held(text, query@, at);
    law_search_is_by_text(rows, query@, id);
    let part = found(rows, search_pattern(query@));
    assert(part.contains_key(id));
    lemma_listing(rows, part, metas@, limit as nat);
}

/// An entry that is read has its row's content and is shown as a list shows it; none
/// is read exactly where there is none.
pub proof fn law_get(store: &Store, id: i64, res: Result<Option<Entry>, StoreError>)
    requires
        store.own(),
        call_ensures(Store::get, (store, id), res),
    ensures
        res matches Ok(found) ==> (found is Some <==> store@.contains_key(id)),
        res matches Ok(Some(entry)) ==> entry.meta.id == id && entry.data@ == store@[id].data
            && is_shown(entry.meta, store@[id]),
{
    let number = store@[id].kind;
    assert(stored_kind(number) == Kind::Image <==> number == 1);
    assert(stored_kind(number) == Kind::Files <==> number == 2);
}

/// The rows are the same but for the pin of one of them.
pub open spec fn only_pin_set(
    before: Map<i64, Row>,
    after: Map<i64, Row>,
    id: i64,
    pinned: bool,
) -> bool {
    &&& forall|other: i64| #[trigger] after.contains_key(other) <==> before.contains_key(other)
    &&& forall|other: i64| #[trigger]
        before.contains_key(other) && other != id ==> after[other] == before[other]
    &&& before.contains_key(id) ==> {
        &&& after[id].pinned == if pinned {
            1int
        } else {
            0
        }
        &&& after[id].kind == before[id].kind
        &&& after[id].mime == before[id].mime
        &&& after[id].data == before[id].data
        &&& after[id].text == before[id].text
        &&& after[id].source == before[id].source
        &&& after[id].ts == before[id].ts
    }
}

/// Pinning changes one pin and nothing else, and says whether the entry is there.
pub proof fn law_set_pinned(store: &mut Store, id: i64, pinned: bool, there: bool)
    requires
        old(store).own(),
        call_ensures(Store::set_pinned, (store, id, pinned), Ok::<bool, StoreError>(there)),
    ensures
        there <==> old(store)@.contains_key(id),
        only_pin_set(old(store)@, final(store)@, id, pinned),
{
}

/// Every row but this one is left, as it was.
pub open spec fn only_row_dropped(before: Map<i64, Row>, after: Map<i64, Row>, id: i64) -> bool {
    &&& forall|other: i64| #[trigger]
        after.contains_key(other) <==> before.contains_key(other) && other != id
    &&& forall|other: i64| #[trigger] after.contains_key(other) ==> after[other] == before[other]
}

/// Dropping an entry drops it and no other, pinned or not, and says whether it was
/// there.
pub proof fn law_delete(store: &mut Store, id: i64, there: bool)
    requires
        old(store).own(),
        call_ensures(Store::delete, (store, id), Ok::<bool, StoreError>(there)),
    ensures
        there <==> old(store)@.contains_key(id),
        only_row_dropped(old(store)@, final(store)@, id),
{
}

/// The pinned rows are left, as they were, and no others.
pub open spec fn only_pinned_left(before: Map<i64, Row>, after: Map<i64, Row>) -> bool {
    &&& forall|id: i64| #[trigger]
        after.contains_key(id) <==> before.contains_key(id) && before[id].pinned != 0
    &&& forall|id: i64| #[trigger] after.contains_key(id) ==> after[id] == before[id]
}

/// Clearing drops every entry.
pub proof fn law_clear(store: &mut Store, id: i64)
    requires
        old(store).own(),
        call_ensures(Store::clear, (store,), Ok::<(), StoreError>(())),
    ensures
        !final(store)@.contains_key(id),
{
}

/// Clearing what is not pinned leaves the pinned entries, as they were.
pub proof fn law_clear_unpinned(store: &mut Store)
    requires
        old(store).own(),
        call_ensures(Store::clear_unpinned, (store,), Ok::<(), StoreError>(())),
    ensures
        only_pinned_left(old(store)@, final(store)@),
{
}

/// A change that fails leaves the history as it was, or makes the change all the
/// same; nothing else can come of it.
pub proof fn law_failed_changes(
    pinning: &mut Store,
    deleting: &mut Store,
    clearing: &mut Store,
    id: i64,
    pinned: bool,
    error: StoreError,
)
    requires
        old(pinning).own(),
        old(deleting).own(),
        old(clearing).own(),
        call_ensures(Store::set_pinned, (pinning, id, pinned), Err::<bool, StoreError>(error)),
        call_ensures(Store::delete, (deleting, id), Err::<bool, StoreError>(error)),
        call_ensures(Store::clear_unpinned, (clearing,), Err::<(), StoreError>(error)),
    ensures
        final(pinning)@ == old(pinning)@ || only_pin_set(
            old(pinning)@,
            final(pinning)@,
            id,
            pinned,
        ),
        final(deleting)@ == old(deleting)@ || only_row_dropped(
            old(deleting)@,
            final(deleting)@,
            id,
        ),
        final(clearing)@ == old(clearing)@ || only_pinned_left(old(clearing)@, final(clearing)@),
{
}

/// The counts are those of the rows and of the rows whose pin is 1, as far as they
/// fit in 32 bits.
pub proof fn law_counts(store: &Store, total: u32, pinned: u32)
    requires
        store.own(),
        call_ensures(Store::counts, (store,), Ok::<(u32, u32), StoreError>((total, pinned))),
        store@.dom().len() <= u32::MAX,
    ensures
        store@.dom().finite(),
        total == store@.dom().len(),
        pinned == store@.dom().filter(|id: i64| store@[id].pinned == 1).len(),
{
    assert(pinned_ids(store@) =~= store@.dom().filter(|id: i64| store@[id].pinned == 1));
    lemma_len_subset(pinned_ids(store@), store@.dom());
}

/// A key of fewer than 16 bytes opens no history, and a new one is empty.
pub proof fn law_opening(key: &[u8], res: Result<Store, StoreError>)
    requires
        call_ensures(Store::open_in_memory, (key,), res),
    ensures
        key@.len() < 16 ==> res is Err,
        res matches Ok(store) ==> {
            &&& store.own()
            &&& store.ready()
            &&& store.key() == Some(key@)
            &&& store.top_id() == 0
            &&& forall|id: i64| !(#[trigger] store@.contains_key(id))
        },
{
}

/// Setting a database up keeps the rows that it has, makes the table where it is
/// missing, and applies the key to a database that has none applied. Only a short key
/// is refused as such.
pub proof fn law_setting_up(
    conn: rusqlite::Connection,
    key: &[u8],
    res: Result<Store, StoreError>,
)
    requires
        is_own(conn),
        call_ensures(Store::init, (conn, key), res),
    ensures
        res == Err::<Store, StoreError>(StoreError::ShortKey) <==> key@.len() < 16,
        res matches Ok(store) ==> {
            &&& store.own()
            &&& store.ready()
            &&& store@ == rows_of(conn)
            &&& store.top_id() == top_id_of(conn)
            &&& key_of(conn) is None ==> store.key() == Some(key@)
        },
{
}

/// The error of a step is told as that step's, with its cause.
pub proof fn law_steps_of_setting_up(
    ran: Result<(), rusqlite::Error>,
    first: Result<(), StoreError>,
    second: Result<(), StoreError>,
)
    requires
        call_ensures(unlocked, (ran,), first),
        call_ensures(created, (ran,), second),
    ensures
        first is Ok <==> ran is Ok,
        second is Ok <==> ran is Ok,
        ran matches Err(cause) ==> first == Err::<(), StoreError>(StoreError::Key(cause)) && second
            == Err::<(), StoreError>(StoreError::Schema(cause)),
{
}

/// What an error's message starts with.
pub proof fn law_error_context(error: &StoreError, res: Option<&'static str>)
    requires
        call_ensures(StoreError::context, (error,), res),
    ensures
        error is ShortKey ==> (res matches Some(text) && text@
            == "database key must be at least 16 bytes"@),
        error is Key ==> (res matches Some(text) && text@ == "applying SQLCipher key"@),
        error is Schema ==> (res matches Some(text) && text@ == "creating schema"@),
        error is Open || error is Statement ==> res is None,
{
}

/// The history is shown anew where content was stored or copied again.
pub proof fn law_changed(outcome: &AddOutcome, res: bool)
    requires
        call_ensures(AddOutcome::changed, (outcome,), res),
    ensures
        res <==> *outcome is Added || *outcome is Duplicate,
{
}

} // verus!
