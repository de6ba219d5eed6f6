//! Laws on the service: capture, names on the bus, lists and pasting.

use vstd::prelude::*;

use crate::dbus::{
    entry_path, is_reading, law_path_names_entry, now_secs, parse_entry_id, paste_answered,
    paste_found, path_of, recent_row, recent_rows, secs_of, Bridge, PasteStep, RecentRow,
    ENTRY_PATH_PREFIX,
};
use crate::decimal::{decimal_string, parse_i64};
use crate::history::is_valid;
use crate::laws::history::{
    is_clear, is_listed_or_later, is_new_row, is_searched_for, is_stored, lemma_addition,
    lemma_listing, lemma_search, lists_in_order, number_of, only_pin_set, only_pinned_left,
    only_row_dropped, only_row_stored, only_time_set,
};
use crate::like::search_pattern;
use crate::model::{classify, is_sensitive, Entry, EntryMeta, Kind};
use crate::settings::SettingsSnapshot;
use crate::store::{AddOptions, AddOutcome, Store, StoreError};

verus! {

/// In incognito mode nothing is captured: whatever the content, its type and the
/// application it comes from.
pub proof fn law_incognito_captures_nothing(
    bridge: &mut Bridge,
    mime: &str,
    data: Vec<u8>,
    source: &str,
    now: i64,
    res: Result<Option<AddOutcome>, StoreError>,
)
    requires
        old(bridge).current().incognito,
        call_ensures(Bridge::add_entry_at, (bridge, mime, data, source, now), res),
    ensures
        res == Ok::<Option<AddOutcome>, StoreError>(None),
        final(bridge).history() == old(bridge).history(),
        final(bridge).current() == old(bridge).current(),
{
}

/// Secrets, content of a type that makes no entry, and content from an excluded
/// application are not captured.
pub proof fn law_what_is_not_captured(
    bridge: &mut Bridge,
    mime: &str,
    data: Vec<u8>,
    source: &str,
    now: i64,
    res: Result<Option<AddOutcome>, StoreError>,
    secret: bool,
    kind: Option<Kind>,
    excluded: bool,
)
    requires
        call_ensures(is_sensitive, (mime,), secret),
        call_ensures(classify, (mime,), kind),
        call_ensures(SettingsSnapshot::is_excluded, (&old(bridge).current(), source), excluded),
        call_ensures(Bridge::add_entry_at, (bridge, mime, data, source, now), res),
    ensures
        secret || kind is None || excluded ==> res == Ok::<Option<AddOutcome>, StoreError>(None)
            && final(bridge).history() == old(bridge).history(),
        !secret && kind is Some && !excluded && !old(bridge).current().incognito ==> res
            != Ok::<Option<AddOutcome>, StoreError>(None),
        final(bridge).current() == old(bridge).current(),
{
}

/// The most bytes that the settings allow for content of the kind.
pub open spec fn allowed(kind: Kind, settings: SettingsSnapshot) -> int {
    match kind {
        Kind::Text => settings.max_text_bytes as int,
        Kind::Image => settings.max_image_bytes as int,
        Kind::Files => 65_536,
    }
}

/// What is captured is added to the history with the limits of the settings: content
/// that is empty or larger than they allow is refused and changes nothing, content
/// that is stored already gets the time, and new content is stored as it came.
pub proof fn law_what_is_captured(
    bridge: &mut Bridge,
    mime: &str,
    data: Vec<u8>,
    source: &str,
    now: i64,
    res: Result<Option<AddOutcome>, StoreError>,
    secret: bool,
    kind: Kind,
    excluded: bool,
)
    requires
        call_ensures(is_sensitive, (mime,), secret),
        call_ensures(classify, (mime,), Some(kind)),
        call_ensures(SettingsSnapshot::is_excluded, (&old(bridge).current(), source), excluded),
        !secret,
        !excluded,
        !old(bridge).current().incognito,
        call_ensures(Bridge::add_entry_at, (bridge, mime, data, source, now), res),
    ensures
        data@.len() == 0 || data@.len() > allowed(kind, old(bridge).current()) <==> res matches Ok(
            Some(AddOutcome::Rejected(_)),
        ),
        res matches Ok(Some(AddOutcome::Rejected(reason))) ==> {
            &&& final(bridge).history() == old(bridge).history()
            &&& reason@ == if data@.len() == 0 {
                "empty payload"@
            } else {
                "payload exceeds size cap"@
            }
        },
        old(bridge).history().own() ==> (res matches Ok(Some(AddOutcome::Duplicate(id)))
            ==> is_stored(old(bridge).history()@, id, kind, mime@, data@) && only_time_set(
            old(bridge).history()@,
            final(bridge).history()@,
            id,
            now,
        )),
        old(bridge).history().own() ==> (res matches Ok(Some(AddOutcome::Added(id))) ==> {
            &&& forall|other: i64|
                !is_stored(old(bridge).history()@, other, kind, mime@, data@)
            &&& forall|other: i64| #[trigger]
                old(bridge).history()@.contains_key(other) ==> other < id
            &&& only_row_stored(
                old(bridge).history()@,
                final(bridge).history()@,
                id,
                old(bridge).current().history_depth as int,
            )
            &&& final(bridge).history()@.contains_key(id) ==> is_new_row(
                final(bridge).history()@[id],
                kind,
                mime@,
                data@,
                source@,
                now,
            )
        }),
        old(bridge).history().own() && res is Err ==> {
            ||| final(bridge).history()@ == old(bridge).history()@
            ||| exists|id: i64|
                is_stored(old(bridge).history()@, id, kind, mime@, data@)
                    && #[trigger] only_time_set(
                    old(bridge).history()@,
                    final(bridge).history()@,
                    id,
                    now,
                )
            ||| exists|id: i64| #[trigger]
                only_row_stored(
                    old(bridge).history()@,
                    final(bridge).history()@,
                    id,
                    old(bridge).current().history_depth as int,
                )
        },
{
    let opts = AddOptions {
        max_bytes: crate::model::byte_cap(kind, &old(bridge).current()),
        depth: old(bridge).current().history_depth,
        now,
    };
    if old(bridge).history().own() && 0 < data@.len() <= opts.max_bytes {
        lemma_addition(
            old(bridge).history(),
            final(bridge).history(),
            kind,
            mime@,
            data@,
            source@,
            opts,
            match res {
                Ok(outcome) => Ok(outcome->Some_0),
                Err(error) => Err(error),
            },
        );
    }
}

/// Capturing content now keeps to the same rules: nothing in incognito mode, no
/// secrets, no unknown types, nothing from an excluded application.
pub proof fn law_capture_now(
    bridge: &mut Bridge,
    mime: &str,
    data: Vec<u8>,
    source: &str,
    res: Result<Option<AddOutcome>, StoreError>,
    secret: bool,
    kind: Option<Kind>,
    excluded: bool,
)
    requires
        call_ensures(is_sensitive, (mime,), secret),
        call_ensures(classify, (mime,), kind),
        call_ensures(SettingsSnapshot::is_excluded, (&old(bridge).current(), source), excluded),
        call_ensures(Bridge::add_entry, (bridge, mime, data, source), res),
    ensures
        old(bridge).current().incognito || secret || kind is None || excluded <==> res == Ok::<
            Option<AddOutcome>,
            StoreError,
        >(None),
        old(bridge).current().incognito || secret || kind is None || excluded ==> final(
            bridge).history() == old(bridge).history(),
        final(bridge).current() == old(bridge).current(),
        res != Ok::<Option<AddOutcome>, StoreError>(None) ==> (data@.len() == 0 || data@.len()
            > allowed(kind->Some_0, old(bridge).current()) <==> res matches Ok(
            Some(AddOutcome::Rejected(_)),
        )),
        res matches Ok(Some(AddOutcome::Rejected(_))) ==> final(bridge).history() == old(
            bridge).history(),
        old(bridge).history().own() ==> (res matches Ok(Some(AddOutcome::Duplicate(id))) ==> {
            &&& is_stored(old(bridge).history()@, id, kind->Some_0, mime@, data@)
            &&& exists|now: i64|
                call_ensures(now_secs, (), now) && #[trigger] only_time_set(
                    old(bridge).history()@,
                    final(bridge).history()@,
                    id,
                    now,
                )
        }),
        old(bridge).history().own() ==> (res matches Ok(Some(AddOutcome::Added(id))) ==> {
            &&& forall|other: i64|
                !is_stored(old(bridge).history()@, other, kind->Some_0, mime@, data@)
            &&& only_row_stored(
                old(bridge).history()@,
                final(bridge).history()@,
                id,
                old(bridge).current().history_depth as int,
            )
            &&& final(bridge).history()@.contains_key(id) ==> exists|now: i64|
                call_ensures(now_secs, (), now) && #[trigger] is_new_row(
                    final(bridge).history()@[id],
                    kind->Some_0,
                    mime@,
                    data@,
                    source@,
                    now,
                )
        }),
{
    let now = choose|now: i64|
        call_ensures(now_secs, (), now) && #[trigger] crate::dbus::is_capture(
            old(bridge).history(),
            final(bridge).history(),
            old(bridge).current(),
            mime@,
            data@,
            source@,
            now,
            res,
        );
    if old(bridge).history().own() {
        if res matches Ok(Some(outcome)) && !(outcome is Rejected) {
            let opts = AddOptions {
                max_bytes: crate::model::byte_cap(kind->Some_0, &old(bridge).current()),
                depth: old(bridge).current().history_depth,
                now,
            };
            lemma_addition(
                old(bridge).history(),
                final(bridge).history(),
                kind->Some_0,
                mime@,
                data@,
                source@,
                opts,
                Ok(res->Ok_0->Some_0),
            );
        }
    }
}

/// Every entry that could be read, of whatever kind, is handed to the shell extension
/// as it is; nothing else is.
pub proof fn law_read_entry_is_handed_on(
    found: Result<Option<Entry>, StoreError>,
    res: PasteStep,
)
    requires
        call_ensures(paste_found, (found,), res),
    ensures
        found matches Ok(Some(entry)) ==> res == PasteStep::Extension(entry),
        !(found matches Ok(Some(_))) ==> res == PasteStep::Finished(false),
{
}

/// An entry that the extension took is pasted; one that it did not take goes to the
/// toolkit, as it is.
pub proof fn law_toolkit_is_second(entry: Entry, taken: bool, res: PasteStep)
    requires
        call_ensures(paste_answered, (entry, taken), res),
    ensures
        taken ==> res == PasteStep::Finished(true),
        !taken ==> res == PasteStep::Toolkit(entry),
{
}

/// Pasting hands on the entry that the history gives for the id, of whatever kind. It
/// ends with `false` only where there is no such entry or it could not be read.
pub proof fn law_paste(bridge: &Bridge, id: i64, res: PasteStep)
    requires
        call_ensures(Bridge::paste, (bridge, id), res),
    ensures
        !(res is Toolkit),
        res != PasteStep::Finished(true),
        res matches PasteStep::Extension(entry) ==> call_ensures(
            Store::get,
            (&bridge.history(), id),
            Ok::<Option<Entry>, StoreError>(Some(entry)),
        ) && entry.meta.id == id,
        res is Finished ==> exists|read: Result<Option<Entry>, StoreError>| #[trigger]
            call_ensures(Store::get, (&bridge.history(), id), read) && !(read matches Ok(Some(_))),
        bridge.history().own() ==> (res matches PasteStep::Extension(entry) ==> {
            &&& bridge.history()@.contains_key(id)
            &&& entry.data@ == bridge.history()@[id].data
            &&& entry.meta.mime@ == bridge.history()@[id].mime
        }),
        bridge.history().own() && bridge.history()@.contains_key(id) && res is Finished ==> exists|
            error: StoreError,
        | #[trigger]
            call_ensures(
                Store::get,
                (&bridge.history(), id),
                Err::<Option<Entry>, StoreError>(error),
            ),
{
    let read = choose|read: Result<Option<Entry>, StoreError>| #[trigger]
        call_ensures(Store::get, (&bridge.history(), id), read) && res == crate::dbus::first_step(
            read,
        );
    if let Err(error) = read {
        assert(call_ensures(
            Store::get,
            (&bridge.history(), id),
            Err::<Option<Entry>, StoreError>(error),
        ));
    }
}

/// Pasting by path hands on the entry that the path names, of whatever kind. It ends
/// with `false` only where the path names none, there is no such entry, or it could
/// not be read.
pub proof fn law_paste_by_path(bridge: &Bridge, path: &str, named: Option<i64>, res: PasteStep)
    requires
        call_ensures(parse_entry_id, (path,), named),
        call_ensures(Bridge::paste_entry, (bridge, path), res),
    ensures
        named is None ==> res == PasteStep::Finished(false),
        !(res is Toolkit),
        res != PasteStep::Finished(true),
        bridge.history().own() ==> (res matches PasteStep::Extension(entry) ==> {
            &&& bridge.history()@.contains_key(named->Some_0)
            &&& entry.meta.id == named->Some_0
            &&& entry.data@ == bridge.history()@[named->Some_0].data
            &&& entry.meta.mime@ == bridge.history()@[named->Some_0].mime
        }),
        bridge.history().own() && named is Some && bridge.history()@.contains_key(named->Some_0)
            && res is Finished ==> exists|error: StoreError| #[trigger]
            call_ensures(
                Bridge::entry_at,
                (bridge, path),
                Err::<Option<Entry>, StoreError>(error),
            ),
{
    let read = choose|read: Result<Option<Entry>, StoreError>| #[trigger]
        call_ensures(Bridge::entry_at, (bridge, path), read) && res == crate::dbus::first_step(read);
    if let Err(error) = read {
        assert(call_ensures(
            Bridge::entry_at,
            (bridge, path),
            Err::<Option<Entry>, StoreError>(error),
        ));
    }
}

/// A path that names no entry reads none; any other reads the entry with the id that
/// it names.
pub proof fn law_entry_by_path(
    bridge: &Bridge,
    path: &str,
    named: Option<i64>,
    res: Result<Option<Entry>, StoreError>,
)
    requires
        call_ensures(parse_entry_id, (path,), named),
        call_ensures(Bridge::entry_at, (bridge, path), res),
    ensures
        named is None ==> res == Ok::<Option<Entry>, StoreError>(None),
        named is Some && bridge.history().own() ==> (res matches Ok(found) ==> {
            &&& found is Some <==> bridge.history()@.contains_key(named->Some_0)
            &&& found matches Some(entry) ==> entry.meta.id == named->Some_0 && entry.data@
                == bridge.history()@[named->Some_0].data
        }),
{
}

/// A list on the bus has exactly as many entries as were asked for, from 1 to 50, or
/// as there are where these are fewer: the first of the history, in its order.
pub proof fn law_get_recent(bridge: &Bridge, limit: u32, metas: Vec<EntryMeta>)
    requires
        bridge.history().own(),
        call_ensures(
            Bridge::get_recent,
            (bridge, limit),
            Ok::<Vec<EntryMeta>, StoreError>(metas),
        ),
    ensures
        ({
            let rows = bridge.history()@;
            let asked: int = if limit == 0 {
                1
            } else if limit > 50 {
                50
            } else {
                limit as int
            };
            &&& rows.dom().finite()
            &&& asked <= rows.dom().len() ==> metas@.len() == asked
            &&& asked >= rows.dom().len() ==> metas@.len() == rows.dom().len()
            &&& lists_in_order(rows, metas@, asked as nat)
            &&& forall|id: i64| #[trigger]
                rows.contains_key(id) ==> is_listed_or_later(rows, metas@, asked as nat, id)
        }),
{
    let rows = bridge.history()@;
    let asked: nat = if limit == 0 {
        1
    } else if limit > 50 {
        50
    } else {
        limit as nat
    };
    lemma_listing(rows, rows, metas@, asked);
}

/// Lists that the windows show are the first of the history, in its order, as many as
/// were asked for or as there are.
pub proof fn law_bridge_recent(bridge: &Bridge, limit: u32, metas: Vec<EntryMeta>)
    requires
        bridge.history().own(),
        call_ensures(Bridge::recent, (bridge, limit), Ok::<Vec<EntryMeta>, StoreError>(metas)),
    ensures
        limit <= bridge.history()@.dom().len() ==> metas@.len() == limit,
        limit >= bridge.history()@.dom().len() ==> metas@.len() == bridge.history()@.dom().len(),
        lists_in_order(bridge.history()@, metas@, limit as nat),
        forall|id: i64| #[trigger]
            bridge.history()@.contains_key(id) ==> is_listed_or_later(
                bridge.history()@,
                metas@,
                limit as nat,
                id,
            ),
{
    lemma_listing(bridge.history()@, bridge.history()@, metas@, limit as nat);
}

/// Searches find the pinned entries and those whose content contains the query.
pub proof fn law_bridge_search(bridge: &Bridge, query: &str, limit: u32, metas: Vec<EntryMeta>)
    requires
        bridge.history().own(),
        is_valid(bridge.history()@),
        !query@.contains('\0'),
        call_ensures(
            Bridge::search,
            (bridge, query, limit),
            Ok::<Vec<EntryMeta>, StoreError>(metas),
        ),
    ensures
        lists_in_order(bridge.history()@, metas@, limit as nat),
        forall|id: i64| #[trigger]
            bridge.history()@.contains_key(id) && is_searched_for(bridge.history()@[id], query@)
                ==> is_listed_or_later(bridge.history()@, metas@, limit as nat, id),
        forall|i: int|
            0 <= i < metas@.len() && is_clear(bridge.history()@[(#[trigger] metas@[i]).id], query@)
                ==> is_searched_for(bridge.history()@[metas@[i].id], query@),
{
    let rows = bridge.history()@;
    let part = crate::history::found(rows, search_pattern(query@));
    lemma_listing(rows, part, metas@, limit as nat);
    assert forall|id: i64| #[trigger] rows.contains_key(id) && is_searched_for(
        rows[id],
        query@,
    ) implies is_listed_or_later(rows, metas@, limit as nat, id) by {
        lemma_search(rows, query@, id);
        assert(part.contains_key(id));
    }
    assert forall|i: int| 0 <= i < metas@.len() && is_clear(
        rows[(#[trigger] metas@[i]).id],
        query@,
    ) implies is_searched_for(rows[metas@[i].id], query@) by {
        assert(part.contains_key(metas@[i].id));
        lemma_search(rows, query@, metas@[i].id);
    }
}

/// An entry has the path of its id below the prefix, in decimal digits, and that path
/// leads back to it.
pub proof fn law_entry_path(id: i64, digits: String, path: String, view: &str, named: Option<i64>)
    requires
        id >= 0,
        call_ensures(decimal_string, (id as u64,), digits),
        call_ensures(entry_path, (id,), path),
        view@ == path@,
        call_ensures(parse_entry_id, (view,), named),
    ensures
        path@ == "/io/clipway/entries/"@ + digits@,
        named == Some(id),
{
    law_path_names_entry(id);
    reveal_strlit("/io/clipway/entries");
    reveal_strlit("/");
    reveal_strlit("/io/clipway/entries/");
    assert(ENTRY_PATH_PREFIX@ + "/"@ =~= "/io/clipway/entries/"@);
}

/// A path names an entry exactly where it is the prefix, a slash and a number.
pub proof fn law_path_is_prefix_and_number(
    path: &str,
    number: &str,
    parsed: Option<i64>,
    named: Option<i64>,
)
    requires
        call_ensures(parse_entry_id, (path,), named),
        call_ensures(parse_i64, (number,), parsed),
    ensures
        path@ == "/io/clipway/entries/"@ + number@ ==> named == parsed,
        named is Some ==> path@.len() >= 20 && path@.take(20) == "/io/clipway/entries/"@,
{
    reveal_strlit("/io/clipway/entries");
    reveal_strlit("/");
    reveal_strlit("/io/clipway/entries/");
    let lead = ENTRY_PATH_PREFIX@ + "/"@;
    assert(lead =~= "/io/clipway/entries/"@);
    if path@ == "/io/clipway/entries/"@ + number@ {
        assert(path@.take(20) =~= lead);
        assert(path@.skip(20) =~= number@);
    }
    if named is Some {
        assert(lead.is_prefix_of(path@));
        assert(path@.take(20) =~= lead);
    }
}

/// A row on the bus shows the entry: its path, its kind by number, its preview, its
/// source and its pin.
pub proof fn law_row_on_the_bus(meta: &EntryMeta, path: String, number: i64, res: RecentRow)
    requires
        meta.id >= 0,
        call_ensures(entry_path, (meta.id,), path),
        call_ensures(Kind::as_i64, (meta.kind,), number),
        call_ensures(recent_row, (meta,), res),
    ensures
        res.path@ == path@,
        res.kind == number,
        res.preview@ == meta.preview@,
        res.source@ == meta.source@,
        res.pinned == meta.pinned,
{
}

/// Rows on the bus are those of the entries, one for each and in their order; there
/// are none only where an id is negative.
pub proof fn law_rows_on_the_bus(metas: &Vec<EntryMeta>, res: Option<Vec<RecentRow>>)
    requires
        call_ensures(recent_rows, (metas,), res),
    ensures
        res is None <==> exists|i: int| 0 <= i < metas@.len() && (#[trigger] metas@[i]).id < 0,
        res matches Some(rows) ==> rows@.len() == metas@.len() && forall|i: int|
            0 <= i < metas@.len() ==> {
                let row = #[trigger] rows@[i];
                &&& row.path@ == path_of(metas@[i].id)
                &&& row.preview@ == metas@[i].preview@
                &&& row.source@ == metas@[i].source@
                &&& row.pinned == metas@[i].pinned
                &&& row.kind == number_of(metas@[i].kind)
            },
{
    if let Some(rows) = res {
        assert forall|i: int| 0 <= i < metas@.len() implies {
            let row = #[trigger] rows@[i];
            &&& row.path@ == path_of(metas@[i].id)
            &&& row.preview@ == metas@[i].preview@
            &&& row.source@ == metas@[i].source@
            &&& row.pinned == metas@[i].pinned
            &&& row.kind == number_of(metas@[i].kind)
        } by {
            assert(crate::dbus::is_recent_row(rows@[i], metas@[i]));
        }
    }
}

/// The clock's seconds are the time; before the epoch it is 0.
pub proof fn law_clock(elapsed: Option<u64>, res: i64)
    requires
        call_ensures(secs_of, (elapsed,), res),
    ensures
        elapsed is None ==> res == 0,
        elapsed matches Some(seconds) ==> (seconds <= i64::MAX ==> res == seconds),
        elapsed matches Some(seconds) ==> (seconds > i64::MAX ==> res == seconds
            - 0x1_0000_0000_0000_0000),
{
    if let Some(seconds) = elapsed {
        assert(seconds > 0x7fff_ffff_ffff_ffffu64 ==> (seconds as i64) as int == seconds
            - 0x1_0000_0000_0000_0000) by (bit_vector);
    }
}

/// The time is that of a reading of the clock.
pub proof fn law_now(res: i64)
    requires
        call_ensures(now_secs, (), res),
    ensures
        exists|elapsed: Option<u64>| #[trigger]
            is_reading(elapsed) && (elapsed is None ==> res == 0) && (
            elapsed matches Some(seconds) ==> (seconds <= i64::MAX ==> res == seconds)),
{
    let elapsed = choose|elapsed: Option<u64>| #[trigger]
        is_reading(elapsed) && res == crate::dbus::clock_secs(elapsed);
    assert(is_reading(elapsed));
}

/// A new bridge has the history and the settings that it was made with, and new
/// settings take the place of the old ones and change nothing else.
pub proof fn law_settings_are_replaced(
    store: Store,
    first: SettingsSnapshot,
    made: Bridge,
    bridge: &mut Bridge,
    second: SettingsSnapshot,
)
    requires
        call_ensures(Bridge::new, (store, first), made),
        call_ensures(Bridge::update_settings, (bridge, second), ()),
    ensures
        made.history() == store,
        made.current() == first,
        final(bridge).current() == second,
        final(bridge).history() == old(bridge).history(),
{
}

/// What the bridge gives out is the history and the settings that it has.
pub proof fn law_bridge_gives_what_it_has(
    bridge: &Bridge,
    store: &Store,
    settings: SettingsSnapshot,
)
    requires
        call_ensures(Bridge::store, (bridge,), store),
        call_ensures(Bridge::snapshot, (bridge,), settings),
    ensures
        *store == bridge.history(),
        settings.incognito == bridge.current().incognito,
        settings.history_depth == bridge.current().history_depth,
        settings.max_text_bytes == bridge.current().max_text_bytes,
        settings.max_image_bytes == bridge.current().max_image_bytes,
        settings.clear_on_logout == bridge.current().clear_on_logout,
        settings.excluded_apps@.len() == bridge.current().excluded_apps@.len(),
        forall|i: int|
            0 <= i < settings.excluded_apps@.len() ==> (#[trigger] settings.excluded_apps@[i])@
                == bridge.current().excluded_apps@[i]@,
{
    let left = crate::settings::texts(settings.excluded_apps@);
    let right = crate::settings::texts(bridge.current().excluded_apps@);
    assert(left.len() == right.len());
    assert forall|i: int| 0 <= i < settings.excluded_apps@.len() implies (
    #[trigger] settings.excluded_apps@[i])@ == bridge.current().excluded_apps@[i]@ by {
        assert(left[i] == right[i]);
    }
}

/// Clearing drops every entry, or every one that is not pinned, and leaves the
/// settings as they are.
pub proof fn law_bridge_clear(bridge: &mut Bridge, keep_pinned: bool)
    requires
        old(bridge).history().own(),
        call_ensures(Bridge::clear, (bridge, keep_pinned), Ok::<(), StoreError>(())),
    ensures
        final(bridge).current() == old(bridge).current(),
        keep_pinned ==> only_pinned_left(old(bridge).history()@, final(bridge).history()@),
        !keep_pinned ==> forall|id: i64| !(#[trigger] final(bridge).history()@.contains_key(id)),
{
}

/// Pinning and dropping by way of the bridge change the one entry and nothing else.
pub proof fn law_bridge_changes(
    pinning: &mut Bridge,
    deleting: &mut Bridge,
    id: i64,
    pinned: bool,
    there: bool,
    dropped: bool,
)
    requires
        old(pinning).history().own(),
        old(deleting).history().own(),
        call_ensures(Bridge::set_pinned, (pinning, id, pinned), Ok::<bool, StoreError>(there)),
        call_ensures(Bridge::delete, (deleting, id), Ok::<bool, StoreError>(dropped)),
    ensures
        there <==> old(pinning).history()@.contains_key(id),
        only_pin_set(old(pinning).history()@, final(pinning).history()@, id, pinned),
        final(pinning).current() == old(pinning).current(),
        dropped <==> old(deleting).history()@.contains_key(id),
        only_row_dropped(old(deleting).history()@, final(deleting).history()@, id),
        final(deleting).current() == old(deleting).current(),
{
}

/// At the end of a session the entries that are not pinned go, where the settings say
/// so; else nothing changes.
pub proof fn law_session_end(bridge: &mut Bridge, res: Result<(), StoreError>)
    requires
        call_ensures(Bridge::on_session_end, (bridge,), res),
    ensures
        final(bridge).current() == old(bridge).current(),
        !old(bridge).current().clear_on_logout ==> res is Ok && final(bridge).history() == old(
            bridge).history(),
        old(bridge).current().clear_on_logout && old(bridge).history().own() && res is Ok
            ==> only_pinned_left(old(bridge).history()@, final(bridge).history()@),
{
}

} // verus!
