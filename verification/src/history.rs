//! The history as a map from ids to rows: how its rows are ranked, which of them
//! a full history drops, and what every change of it keeps.

use vstd::prelude::*;
use vstd::set_lib::*;

use crate::like::{
    contains_text, holds, law_holds_is_containment, law_search_is_literal, search_pattern,
    text_matches, told_apart, until_nul,
};
use crate::model::{searchable, stored_kind};

verus! {

/// One row of the history.
#[verifier::ext_equal]
pub struct Row {
    /// The number of the entry's kind.
    pub kind: i64,
    /// The MIME type that the content came with.
    pub mime: Seq<char>,
    /// The content.
    pub data: Seq<u8>,
    /// The text by which the entry is found, if it has one.
    pub text: Option<Seq<char>>,
    /// The application that the content was copied from.
    pub source: Seq<char>,
    /// When the content was last copied, in seconds.
    pub ts: i64,
    /// 1 where the entry is pinned, 0 where it is not.
    pub pinned: i64,
}

/// A history without rows.
pub open spec fn no_rows() -> Map<i64, Row> {
    Map::empty()
}

/// Does row `a` stand before row `b`? Pinned rows come first, then the rows that
/// were copied last, then the rows that were stored first.
pub open spec fn precedes(rows: Map<i64, Row>, a: i64, b: i64) -> bool {
    let x = rows[a];
    let y = rows[b];
    x.pinned > y.pinned || (x.pinned == y.pinned && (x.ts > y.ts || (x.ts == y.ts && a < b)))
}

/// The rows that stand before row `id`.
pub open spec fn ahead(rows: Map<i64, Row>, id: i64) -> Set<i64> {
    rows.dom().filter(|other: i64| precedes(rows, other, id))
}

/// How many rows stand before row `id`.
pub open spec fn rank(rows: Map<i64, Row>, id: i64) -> nat {
    ahead(rows, id).len()
}

/// `ids` lists the rows, each before those that it precedes.
pub open spec fn is_ranking(rows: Map<i64, Row>, ids: Seq<i64>) -> bool {
    &&& forall|id: i64| #[trigger] ids.contains(id) <==> rows.contains_key(id)
    &&& forall|i: int, j: int|
        0 <= i < j < ids.len() ==> precedes(rows, #[trigger] ids[i], #[trigger] ids[j])
}

/// Rows are the same content where their kinds, MIME types and bytes agree.
pub open spec fn is_content(row: Row, kind: i64, mime: Seq<char>, data: Seq<u8>) -> bool {
    row.kind == kind && row.mime == mime && row.data == data
}

/// Is the content stored?
pub open spec fn has_content(
    rows: Map<i64, Row>,
    kind: i64,
    mime: Seq<char>,
    data: Seq<u8>,
) -> bool {
    exists|id: i64| #[trigger]
        rows.contains_key(id) && is_content(rows[id], kind, mime, data)
}

/// No two rows are the same content.
pub open spec fn distinct(rows: Map<i64, Row>) -> bool {
    forall|a: i64, b: i64| #[trigger]
        rows.contains_key(a) && #[trigger] rows.contains_key(b) && is_content(
            rows[a],
            rows[b].kind,
            rows[b].mime,
            rows[b].data,
        ) ==> a == b
}

/// The rows with the time of one set.
pub open spec fn touched(rows: Map<i64, Row>, id: i64, ts: i64) -> Map<i64, Row> {
    if rows.contains_key(id) {
        rows.insert(id, Row { ts, ..rows[id] })
    } else {
        rows
    }
}

/// The rows with the pin of one set.
pub open spec fn repinned(rows: Map<i64, Row>, id: i64, pinned: i64) -> Map<i64, Row> {
    if rows.contains_key(id) {
        rows.insert(id, Row { pinned, ..rows[id] })
    } else {
        rows
    }
}

/// The pinned rows.
pub open spec fn pinned_rows(rows: Map<i64, Row>) -> Map<i64, Row> {
    rows.restrict(rows.dom().filter(|id: i64| rows[id].pinned != 0))
}

/// The rows that a history of some depth keeps: those that are pinned, and those
/// that fewer than `depth` rows stand before.
pub open spec fn kept(rows: Map<i64, Row>, depth: nat) -> Map<i64, Row> {
    rows.restrict(rows.dom().filter(|id: i64| rows[id].pinned != 0 || rank(rows, id) < depth))
}

/// The rows that a search shows: those that are pinned, and those whose text
/// matches.
pub open spec fn found(rows: Map<i64, Row>, pattern: Seq<char>) -> Map<i64, Row> {
    rows.restrict(
        rows.dom().filter(
            |id: i64| rows[id].pinned == 1 || text_matches(pattern, rows[id].text),
        ),
    )
}

/// The rows whose pin is 1.
pub open spec fn pinned_ids(rows: Map<i64, Row>) -> Set<i64> {
    rows.dom().filter(|id: i64| rows[id].pinned == 1)
}

/// Is `id` the number after the greater of `top` and every id in use?
pub open spec fn is_next_id(rows: Map<i64, Row>, top: int, id: i64) -> bool {
    &&& id > top
    &&& forall|other: i64| #[trigger] rows.contains_key(other) ==> other < id
    &&& id == top + 1 || rows.contains_key((id - 1) as i64)
}

/// What holds of every row: its id is positive, its content is not empty, its text
/// is the one that the content is found by, and its pin is 0 or 1.
pub open spec fn is_sound(id: i64, row: Row) -> bool {
    &&& id > 0
    &&& row.data.len() > 0
    &&& row.text == searchable(stored_kind(row.kind), row.data)
    &&& row.pinned == 0 || row.pinned == 1
}

/// What holds of a history at all times: it has finitely many rows, no two of them
/// are the same content, and every one is sound.
pub open spec fn is_valid(rows: Map<i64, Row>) -> bool {
    &&& rows.dom().finite()
    &&& distinct(rows)
    &&& forall|id: i64| #[trigger] rows.contains_key(id) ==> is_sound(id, rows[id])
}

/// Is every row of `part` one of `whole`?
pub open spec fn is_part(part: Map<i64, Row>, whole: Map<i64, Row>) -> bool {
    forall|id: i64| #[trigger]
        part.contains_key(id) ==> whole.contains_key(id) && part[id] == whole[id]
}

/// Every pin is 0 or 1.
pub open spec fn pins_valid(rows: Map<i64, Row>) -> bool {
    forall|id: i64| #[trigger]
        rows.contains_key(id) ==> rows[id].pinned == 0 || rows[id].pinned == 1
}

/// The position of a row in a ranking is the number of rows before it.
pub proof fn lemma_ranking_rank(rows: Map<i64, Row>, ids: Seq<i64>, i: int)
    requires
        is_ranking(rows, ids),
        0 <= i < ids.len(),
    ensures
        rank(rows, ids[i]) == i,
        rows.contains_key(ids[i]),
        rows.dom().finite(),
        rows.dom().len() == ids.len(),
        ids.no_duplicates(),
{
    lemma_ranking_covers(rows, ids);
    let head = ids.take(i);
    assert(ids.contains(ids[i]));
    assert forall|other: i64| head.to_set().contains(other) <==> ahead(rows, ids[i]).contains(
        other,
    ) by {
        if head.contains(other) {
            let j = choose|j: int| 0 <= j < head.len() && head[j] == other;
            assert(ids[j] == other);
            assert(ids.contains(other));
        }
        if ahead(rows, ids[i]).contains(other) {
            assert(ids.contains(other));
            let j = choose|j: int| 0 <= j < ids.len() && ids[j] == other;
            if j > i {
                assert(precedes(rows, ids[i], ids[j]));
            }
            assert(j < i);
            assert(head[j] == other);
        }
    }
    assert(head.to_set() =~= ahead(rows, ids[i]));
    head.unique_seq_to_set();
}

/// A ranking lists each row once.
pub proof fn lemma_ranking_covers(rows: Map<i64, Row>, ids: Seq<i64>)
    requires
        is_ranking(rows, ids),
    ensures
        ids.no_duplicates(),
        rows.dom().finite(),
        rows.dom().len() == ids.len(),
{
    assert forall|i: int, j: int| 0 <= i < ids.len() && 0 <= j < ids.len() && i
        != j implies ids[i] != ids[j] by {
        if i < j {
            assert(precedes(rows, ids[i], ids[j]));
        } else {
            assert(precedes(rows, ids[j], ids[i]));
        }
    }
    assert forall|id: i64| ids.to_set().contains(id) <==> rows.dom().contains(id) by {
        assert(ids.contains(id) <==> rows.contains_key(id));
    }
    assert(ids.to_set() =~= rows.dom());
    ids.unique_seq_to_set();
    vstd::seq_lib::seq_to_set_is_finite(ids);
}

/// Finitely many rows have a ranking.
pub proof fn lemma_ranking_exists(rows: Map<i64, Row>) -> (ids: Seq<i64>)
    requires
        rows.dom().finite(),
    ensures
        is_ranking(rows, ids),
    decreases rows.dom().len(),
{
    if rows.dom().len() == 0 {
        rows.dom().lemma_len0_is_empty();
        let ids = Seq::<i64>::empty();
        assert forall|id: i64| #[trigger] ids.contains(id) <==> rows.contains_key(id) by {
            assert(!rows.dom().contains(id));
        }
        ids
    } else {
        let x = rows.dom().choose();
        assert(rows.contains_key(x)) by {
            if !(exists|id: i64| rows.dom().contains(id)) {
                assert(rows.dom() =~= Set::empty());
            }
        }
        let smaller = rows.remove(x);
        let rest = lemma_ranking_exists(smaller);
        let at = first_after(rows, rest, x, 0);
        assert forall|i: int| 0 <= i < rest.len() implies smaller.contains_key(#[trigger] rest[i])
            && rest[i] != x by {
            assert(rest.contains(rest[i]));
        }
        lemma_first_after(rows, rest, x, 0);
        let ids = rest.insert(at, x);
        assert forall|id: i64| #[trigger] ids.contains(id) <==> rows.contains_key(id) by {
            if ids.contains(id) {
                let k = choose|k: int| 0 <= k < ids.len() && ids[k] == id;
                if k < at {
                    assert(rest[k] == id);
                } else if k > at {
                    assert(rest[k - 1] == id);
                }
            }
            if rows.contains_key(id) {
                if id == x {
                    assert(ids[at] == x);
                } else {
                    assert(smaller.contains_key(id));
                    assert(rest.contains(id));
                    let k = choose|k: int| 0 <= k < rest.len() && rest[k] == id;
                    if k < at {
                        assert(ids[k] == id);
                    } else {
                        assert(ids[k + 1] == id);
                    }
                }
            }
        }
        assert forall|i: int, j: int| 0 <= i < j < ids.len() implies precedes(
            rows,
            #[trigger] ids[i],
            #[trigger] ids[j],
        ) by {
            let p = if i < at { i } else { i - 1 };
            let q = if j < at { j } else { j - 1 };
            if i != at && j != at {
                assert(precedes(smaller, rest[p], rest[q]));
            } else if j == at {
                assert(!precedes(rows, x, rest[i]));
            } else {
                assert(precedes(rows, x, rest[at]));
                if q > at {
                    assert(precedes(smaller, rest[at], rest[q]));
                }
            }
        }
        ids
    }
}

/// The first position from `from` on whose row `x` stands before.
spec fn first_after(rows: Map<i64, Row>, ids: Seq<i64>, x: i64, from: int) -> int
    decreases ids.len() - from,
{
    if from >= ids.len() || precedes(rows, x, ids[from]) {
        from
    } else {
        first_after(rows, ids, x, from + 1)
    }
}

proof fn lemma_first_after(rows: Map<i64, Row>, ids: Seq<i64>, x: i64, from: int)
    requires
        0 <= from <= ids.len(),
        forall|k: int| 0 <= k < from ==> !precedes(rows, x, #[trigger] ids[k]),
    ensures
        ({
            let at = first_after(rows, ids, x, from);
            &&& from <= at <= ids.len()
            &&& forall|k: int| 0 <= k < at ==> !precedes(rows, x, #[trigger] ids[k])
            &&& at < ids.len() ==> precedes(rows, x, ids[at])
        }),
    decreases ids.len() - from,
{
    if from < ids.len() && !precedes(rows, x, ids[from]) {
        lemma_first_after(rows, ids, x, from + 1);
    }
}

/// Only one row has a given number of rows before it.
pub proof fn law_rank_is_unique(rows: Map<i64, Row>, a: i64, b: i64)
    requires
        rows.dom().finite(),
        rows.contains_key(a),
        rows.contains_key(b),
        rank(rows, a) == rank(rows, b),
    ensures
        a == b,
{
    let ids = lemma_ranking_exists(rows);
    assert(ids.contains(a) && ids.contains(b));
    let i = choose|i: int| 0 <= i < ids.len() && ids[i] == a;
    let j = choose|j: int| 0 <= j < ids.len() && ids[j] == b;
    lemma_ranking_rank(rows, ids, i);
    lemma_ranking_rank(rows, ids, j);
}

/// A pinned row stays as it is when content is added to a history of any depth,
/// and when the rows that are not pinned are cleared.
pub proof fn law_pinned_rows_stay(
    rows: Map<i64, Row>,
    pinned: i64,
    id: i64,
    row: Row,
    depth: nat,
)
    requires
        rows.contains_key(pinned),
        rows[pinned].pinned != 0,
        !rows.contains_key(id),
    ensures
        kept(rows.insert(id, row), depth).contains_key(pinned),
        kept(rows.insert(id, row), depth)[pinned] == rows[pinned],
        pinned_rows(rows).contains_key(pinned),
        pinned_rows(rows)[pinned] == rows[pinned],
{
}

/// What a full history drops was ranked after every row that it keeps for its
/// place in the ranking.
pub proof fn law_oldest_go_first(rows: Map<i64, Row>, depth: nat, stays: i64, goes: i64)
    requires
        rows.dom().finite(),
        kept(rows, depth).contains_key(stays),
        rows[stays].pinned == 0,
        rows.contains_key(goes),
        !kept(rows, depth).contains_key(goes),
    ensures
        precedes(rows, stays, goes),
{
    let ids = lemma_ranking_exists(rows);
    assert(ids.contains(stays) && ids.contains(goes));
    let i = choose|i: int| 0 <= i < ids.len() && ids[i] == stays;
    let j = choose|j: int| 0 <= j < ids.len() && ids[j] == goes;
    lemma_ranking_rank(rows, ids, i);
    lemma_ranking_rank(rows, ids, j);
    assert(i < j);
}

/// In a ranking of valid rows the pinned rows are the first ones.
proof fn lemma_pinned_first(rows: Map<i64, Row>, ids: Seq<i64>)
    requires
        is_ranking(rows, ids),
        pins_valid(rows),
    ensures
        pinned_ids(rows).finite(),
        pinned_ids(rows).len() <= ids.len(),
        forall|i: int|
            0 <= i < ids.len() ==> (rows[#[trigger] ids[i]].pinned == 1 <==> i < pinned_ids(
                rows,
            ).len()),
{
    lemma_ranking_covers(rows, ids);
    let n = unpinned_from(rows, ids, 0);
    assert forall|i: int| 0 <= i < ids.len() implies rows.contains_key(#[trigger] ids[i]) by {
        assert(ids.contains(ids[i]));
    }
    lemma_unpinned_from(rows, ids, 0);
    assert forall|i: int| 0 <= i < ids.len() implies (rows[#[trigger] ids[i]].pinned == 1 <==> i
        < n) by {
        if i > n {
            assert(precedes(rows, ids[n], ids[i]));
        }
    }
    let head = ids.take(n);
    assert forall|id: i64| head.to_set().contains(id) <==> pinned_ids(rows).contains(id) by {
        if head.contains(id) {
            let k = choose|k: int| 0 <= k < head.len() && head[k] == id;
            assert(ids[k] == id);
        }
        if pinned_ids(rows).contains(id) {
            assert(ids.contains(id));
            let k = choose|k: int| 0 <= k < ids.len() && ids[k] == id;
            assert(head[k] == id);
        }
    }
    assert(head.to_set() =~= pinned_ids(rows));
    head.unique_seq_to_set();
    vstd::seq_lib::seq_to_set_is_finite(head);
}

/// The first position from `from` on whose row is not pinned.
spec fn unpinned_from(rows: Map<i64, Row>, ids: Seq<i64>, from: int) -> int
    decreases ids.len() - from,
{
    if from >= ids.len() || rows[ids[from]].pinned != 1 {
        from
    } else {
        unpinned_from(rows, ids, from + 1)
    }
}

proof fn lemma_unpinned_from(rows: Map<i64, Row>, ids: Seq<i64>, from: int)
    requires
        0 <= from <= ids.len(),
        forall|k: int| 0 <= k < from ==> rows[#[trigger] ids[k]].pinned == 1,
    ensures
        ({
            let n = unpinned_from(rows, ids, from);
            &&& from <= n <= ids.len()
            &&& forall|k: int| 0 <= k < n ==> rows[#[trigger] ids[k]].pinned == 1
            &&& n < ids.len() ==> rows[ids[n]].pinned != 1
        }),
    decreases ids.len() - from,
{
    if from < ids.len() && rows[ids[from]].pinned == 1 {
        lemma_unpinned_from(rows, ids, from + 1);
    }
}

/// A history keeps `depth` rows where it has that many; only pinned rows can take
/// it beyond that.
pub proof fn law_history_is_bounded(rows: Map<i64, Row>, depth: nat)
    requires
        rows.dom().finite(),
        pins_valid(rows),
    ensures
        kept(rows, depth).dom().finite(),
        kept(rows, depth).dom().len() == vstd::math::max(
            pinned_ids(rows).len() as int,
            vstd::math::min(depth as int, rows.dom().len() as int),
        ),
{
    let ids = lemma_ranking_exists(rows);
    lemma_ranking_covers(rows, ids);
    lemma_pinned_first(rows, ids);
    let pins = pinned_ids(rows).len() as int;
    let n = vstd::math::max(pins, vstd::math::min(depth as int, ids.len() as int));
    let head = ids.take(n);
    assert forall|id: i64| head.to_set().contains(id) <==> kept(rows, depth).dom().contains(
        id,
    ) by {
        if head.contains(id) {
            let k = choose|k: int| 0 <= k < head.len() && head[k] == id;
            lemma_ranking_rank(rows, ids, k);
            assert(ids[k] == id);
        }
        if kept(rows, depth).dom().contains(id) {
            assert(rows.contains_key(id));
            assert(ids.contains(id));
            let k = choose|k: int| 0 <= k < ids.len() && ids[k] == id;
            lemma_ranking_rank(rows, ids, k);
            assert(head[k] == id);
        }
    }
    assert(head.to_set() =~= kept(rows, depth).dom());
    head.unique_seq_to_set();
    vstd::seq_lib::seq_to_set_is_finite(head);
}

/// Content that is copied after everything else in the history is kept, as long as
/// fewer rows are pinned than the history is deep.
pub proof fn law_newest_is_kept(rows: Map<i64, Row>, id: i64, row: Row, depth: nat)
    requires
        rows.dom().finite(),
        pins_valid(rows),
        !rows.contains_key(id),
        row.pinned == 0,
        forall|other: i64| #[trigger]
            rows.contains_key(other) && rows[other].pinned == 0 ==> rows[other].ts < row.ts,
        pinned_ids(rows).len() < depth,
    ensures
        kept(rows.insert(id, row), depth).contains_key(id),
        kept(rows.insert(id, row), depth)[id] == row,
{
    let more = rows.insert(id, row);
    assert forall|other: i64| ahead(more, id).contains(other) implies pinned_ids(rows).contains(
        other,
    ) by {
        if other != id {
            assert(rows.contains_key(other));
        }
    }
    let ids = lemma_ranking_exists(rows);
    lemma_pinned_first(rows, ids);
    lemma_len_subset(ahead(more, id), pinned_ids(rows));
}

/// Content that is copied again moves up: its row then stands before every row
/// with the same pin that was copied earlier.
pub proof fn law_copied_again_moves_up(rows: Map<i64, Row>, id: i64, now: i64, other: i64)
    requires
        rows.contains_key(id),
        rows.contains_key(other),
        other != id,
        rows[other].pinned == rows[id].pinned,
        rows[other].ts < now,
    ensures
        precedes(touched(rows, id, now), id, other),
{
}

/// A search shows every pinned row, and of the others exactly those whose text
/// holds the query, whatever characters that is made of and but for ASCII case; it
/// shows them as they are stored. The query holds no NUL character, and a text is
/// searched up to its first one.
pub proof fn law_search_is_by_text(rows: Map<i64, Row>, query: Seq<char>, id: i64)
    requires
        !query.contains('\0'),
    ensures
        found(rows, search_pattern(query)).contains_key(id) <==> rows.contains_key(id) && (
        rows[id].pinned == 1 || (rows[id].text matches Some(text) && holds(query, until_nul(text)))),
        found(rows, search_pattern(query)).contains_key(id) ==> found(
            rows,
            search_pattern(query),
        )[id] == rows[id],
{
    if let Some(text) = rows[id].text {
        law_search_is_literal(query, text);
    }
}

/// Taking the pin of a row away undoes pinning it.
pub proof fn law_unpin_undoes_pin(rows: Map<i64, Row>, id: i64)
    requires
        rows.contains_key(id) ==> rows[id].pinned == 0,
    ensures
        repinned(repinned(rows, id, 1), id, 0) == rows,
{
    assert(repinned(repinned(rows, id, 1), id, 0) =~= rows);
}

/// Once the rows that are not pinned are dropped, dropping them again changes
/// nothing.
pub proof fn law_clearing_again_changes_nothing(rows: Map<i64, Row>)
    ensures
        pinned_rows(pinned_rows(rows)) == pinned_rows(rows),
{
    assert(pinned_rows(pinned_rows(rows)) =~= pinned_rows(rows));
}

/// Dropping rows, whichever they are, leaves a valid history valid.
pub proof fn law_dropping_keeps_valid(whole: Map<i64, Row>, part: Map<i64, Row>)
    requires
        is_valid(whole),
        is_part(part, whole),
    ensures
        is_valid(part),
{
    assert forall|id: i64| #[trigger] part.dom().contains(id) implies whole.dom().contains(id) by {
        assert(part.contains_key(id));
    }
    lemma_set_subset_finite(whole.dom(), part.dom());
    lemma_same_contents_distinct(whole, part);
}

/// Storing content that a valid history does not hold, and then dropping the rows
/// beyond its depth, leaves it valid.
pub proof fn law_storing_keeps_valid(rows: Map<i64, Row>, id: i64, row: Row, depth: nat)
    requires
        is_valid(rows),
        is_sound(id, row),
        !rows.contains_key(id),
        !has_content(rows, row.kind, row.mime, row.data),
    ensures
        is_valid(rows.insert(id, row)),
        is_valid(kept(rows.insert(id, row), depth)),
{
    let more = rows.insert(id, row);
    assert forall|a: i64, b: i64| #[trigger]
        more.contains_key(a) && #[trigger] more.contains_key(b) && is_content(
            more[a],
            more[b].kind,
            more[b].mime,
            more[b].data,
        ) implies a == b by {
        assert(a == id || rows.contains_key(a));
        assert(b == id || rows.contains_key(b));
    }
    assert forall|k: i64| #[trigger] more.contains_key(k) implies is_sound(k, more[k]) by {
        assert(k == id || rows.contains_key(k));
    }
    law_dropping_keeps_valid(more, kept(more, depth));
}

/// Setting the time of a row, or its pin, leaves a valid history valid.
pub proof fn law_updating_keeps_valid(rows: Map<i64, Row>, id: i64, ts: i64, pinned: i64)
    requires
        is_valid(rows),
        pinned == 0 || pinned == 1,
    ensures
        is_valid(touched(rows, id, ts)),
        is_valid(repinned(rows, id, pinned)),
{
    let later = touched(rows, id, ts);
    let other = repinned(rows, id, pinned);
    lemma_same_contents_distinct(rows, later);
    lemma_same_contents_distinct(rows, other);
    assert forall|k: i64| #[trigger] later.contains_key(k) implies is_sound(k, later[k]) by {
        assert(rows.contains_key(k));
    }
    assert forall|k: i64| #[trigger] other.contains_key(k) implies is_sound(k, other[k]) by {
        assert(rows.contains_key(k));
    }
}

/// Dropping one row, or all that are not pinned, leaves a valid history valid, and
/// so is one without rows.
pub proof fn law_clearing_keeps_valid(rows: Map<i64, Row>, id: i64)
    requires
        is_valid(rows),
    ensures
        is_valid(rows.remove(id)),
        is_valid(pinned_rows(rows)),
        is_valid(no_rows()),
{
    law_dropping_keeps_valid(rows, rows.remove(id));
    law_dropping_keeps_valid(rows, pinned_rows(rows));
    law_dropping_keeps_valid(rows, no_rows());
}

proof fn lemma_same_contents_distinct(rows: Map<i64, Row>, changed: Map<i64, Row>)
    requires
        distinct(rows),
        forall|id: i64| #[trigger]
            changed.contains_key(id) ==> rows.contains_key(id) && is_content(
                changed[id],
                rows[id].kind,
                rows[id].mime,
                rows[id].data,
            ),
    ensures
        distinct(changed),
{
    assert forall|a: i64, b: i64| #[trigger]
        changed.contains_key(a) && #[trigger] changed.contains_key(b) && is_content(
            changed[a],
            changed[b].kind,
            changed[b].mime,
            changed[b].data,
        ) implies a == b by {
        assert(rows.contains_key(a) && rows.contains_key(b));
    }
}

/// Is the row pinned, or does its content contain the query? Content that is no
/// text, such as a picture, contains none.
pub open spec fn is_match(row: Row, query: Seq<char>) -> bool {
    row.pinned == 1 || (searchable(stored_kind(row.kind), row.data) matches Some(text)
        && contains_text(text, query))
}

/// The rows that are pinned and those whose content contains the query.
pub open spec fn matching(rows: Map<i64, Row>, query: Seq<char>) -> Map<i64, Row> {
    rows.restrict(rows.dom().filter(|id: i64| is_match(rows[id], query)))
}

/// A search of a valid history is over its contents: it shows the pinned rows and
/// those whose content contains the query, whatever characters that is made of and
/// but for ASCII case. Neither the query nor a content holds a NUL character, and
/// `LIKE` tells their characters apart.
pub proof fn law_search_is_over_contents(rows: Map<i64, Row>, query: Seq<char>)
    requires
        is_valid(rows),
        !query.contains('\0'),
        forall|id: i64| #[trigger]
            rows.contains_key(id) ==> (searchable(stored_kind(rows[id].kind), rows[id].data) matches Some(
                text,
            ) ==> !text.contains('\0') && told_apart(query, text)),
    ensures
        found(rows, search_pattern(query)) == matching(rows, query),
{
    let shown = found(rows, search_pattern(query));
    assert forall|id: i64| #[trigger] shown.contains_key(id) <==> matching(
        rows,
        query,
    ).contains_key(id) by {
        if rows.contains_key(id) {
            assert(is_sound(id, rows[id]));
            if let Some(text) = rows[id].text {
                law_search_is_literal(query, text);
                law_holds_is_containment(query, text);
            }
        }
    }
    assert(shown =~= matching(rows, query));
}

} // verus!
