//! Laws on what the windows show and do, and on where the database lies.

use vstd::prelude::*;
use vstd::utf8::{decode_utf8, valid_utf8};

use crate::dbus::Bridge;
use crate::decimal::{decimal_string, parse_i64, signed_decimal_string};
use crate::gui::{Launch, Window};
use crate::history::is_valid;
use crate::laws::content::{lemma_reads, read_as, reads};
use crate::laws::history::{
    is_clear, is_listed_or_later, is_searched_for, lemma_listing, lemma_search, lists_in_order,
    only_row_dropped,
};
use crate::laws::text::{is_bare, is_blank, lemma_trimmed};
use crate::like::search_pattern;
use crate::model::{Entry, EntryMeta, Kind};
use crate::paths::{
    clipway_name, database_path_display, db_path, local_name, share_name, NoDataDirectory,
};
use crate::popup::{
    build_row, content_of, delete_named, delete_row, dropped, entries_for, entries_or_none,
    id_of_row, read_entries, relative_time, row_view, status_text, RowView,
};
use crate::prefs::{add_excluded, count_text, names, remove_excluded, without_name};
use crate::settings::texts;
use crate::store::{Store, StoreError};
use crate::text::{lowered, trimmed};

verus! {

/// The status line counts the entries, one of them in the singular.
pub proof fn law_status(count: usize, digits: String, res: String)
    requires
        call_ensures(decimal_string, (count as u64,), digits),
        call_ensures(status_text, (count,), res),
    ensures
        count == 1 ==> res@ == digits@ + " entry"@,
        count != 1 ==> res@ == digits@ + " entries"@,
{
}

/// A time is told by how many whole minutes, hours or days it is ago, in the largest
/// of these units that it has one of; less than a minute, and the future, is just
/// now, and a week or more is not told in words.
pub proof fn law_relative_time(
    timestamp: i64,
    now: i64,
    count: u64,
    digits: String,
    res: Option<String>,
)
    requires
        call_ensures(decimal_string, (count,), digits),
        call_ensures(relative_time, (timestamp, now), res),
    ensures
        now - timestamp < 60 ==> (res matches Some(words) && words@ == "just now"@),
        60 <= now - timestamp && now - timestamp < 60 * 60 && count * 60 <= now - timestamp && now
            - timestamp < count * 60 + 60 ==> (res matches Some(words) && words@ == digits@
            + " min ago"@),
        60 * 60 <= now - timestamp && now - timestamp < 24 * 60 * 60 && count * 3_600 <= now
            - timestamp && now - timestamp < count * 3_600 + 3_600 ==> (res matches Some(words)
            && words@ == digits@ + " h ago"@),
        24 * 60 * 60 <= now - timestamp && now - timestamp < 7 * 24 * 60 * 60 && count * 86_400
            <= now - timestamp && now - timestamp < count * 86_400 + 86_400 ==> (
        res matches Some(words) && words@ == digits@ + " d ago"@),
        res is None <==> now - timestamp >= 7 * 24 * 60 * 60,
{
    let age = now - timestamp;
    if count * 60 <= age && age < count * 60 + 60 {
        assert(age / 60 == count);
    }
    if count * 3_600 <= age && age < count * 3_600 + 3_600 {
        assert(age / 3_600 == count);
    }
    if count * 86_400 <= age && age < count * 86_400 + 86_400 {
        assert(age / 86_400 == count);
    }
}

/// A row has its entry's id for a name, which leads back to the entry, the preview for
/// a title, and below it the time, with the source before that where there is one.
pub proof fn law_row_texts(
    meta: &EntryMeta,
    data: Option<Vec<u8>>,
    time: &str,
    name: String,
    view: &str,
    named: Option<i64>,
    res: RowView,
)
    requires
        call_ensures(row_view, (meta, data, time), res),
        call_ensures(signed_decimal_string, (meta.id,), name),
        view@ == res.name@,
        call_ensures(id_of_row, (view,), named),
    ensures
        res.name@ == name@,
        named == Some(meta.id),
        res.title@ == meta.preview@,
        meta.source@.len() == 0 ==> res.subtitle@ == time@,
        meta.source@.len() > 0 ==> res.subtitle@ == meta.source@ + " \u{b7} "@ + time@,
        res.pinned == meta.pinned,
        meta.pinned ==> res.pin_icon@ == "starred-symbolic"@,
        !meta.pinned ==> res.pin_icon@ == "non-starred-symbolic"@,
{
    crate::decimal::law_number_round_trip(meta.id);
}

/// A picture is shown as itself, where it could be read, and everything else by the
/// icon of its kind. The content of a text is shown over its row, all of it but the
/// white space around it, unless it is blank, not UTF-8, or could not be read.
pub proof fn law_row_pictures(
    meta: &EntryMeta,
    data: Option<Vec<u8>>,
    time: &str,
    icon: &'static str,
    before: Seq<char>,
    inner: Seq<char>,
    after: Seq<char>,
    res: RowView,
)
    requires
        call_ensures(row_view, (meta, data, time), res),
        call_ensures(Kind::icon_name, (meta.kind,), icon),
        data matches Some(bytes) ==> (valid_utf8(bytes@) ==> decode_utf8(bytes@) == before + inner
            + after),
        is_blank(before),
        is_blank(after),
        is_bare(inner),
    ensures
        meta.kind == Kind::Image <==> res.icon is None,
        meta.kind != Kind::Image ==> res.icon->Some_0@ == icon@,
        res.picture is Some <==> meta.kind == Kind::Image && data is Some,
        res.picture matches Some(picture) ==> picture@ == data->Some_0@,
        res.tooltip is Some <==> meta.kind == Kind::Text && data is Some && valid_utf8(
            data->Some_0@,
        ) && inner.len() > 0,
        res.tooltip matches Some(text) ==> text@ == inner,
{
    lemma_trimmed(before, inner, after);
}

/// A row of the popup shows what reading its entry gave.
pub proof fn law_row_shows_what_was_read(
    bridge: &Bridge,
    meta: &EntryMeta,
    time: &str,
    res: RowView,
)
    requires
        call_ensures(build_row, (bridge, meta, time), res),
    ensures
        res.title@ == meta.preview@,
        meta.source@.len() == 0 ==> res.subtitle@ == time@,
        meta.source@.len() > 0 ==> res.subtitle@ == meta.source@ + " \u{b7} "@ + time@,
        res.icon is Some <==> meta.kind != Kind::Image,
        res.pinned == meta.pinned,
        exists|read: Result<Option<Entry>, StoreError>| #[trigger]
            call_ensures(Store::get, (&bridge.history(), meta.id), read) && (res.picture is Some
                <==> meta.kind == Kind::Image && (read matches Ok(Some(_)))) && (
            res.picture matches Some(picture) ==> picture@ == read->Ok_0->Some_0.data@) && (
            res.tooltip is Some <==> meta.kind == Kind::Text && (read matches Ok(Some(entry))
                && valid_utf8(entry.data@) && trimmed(decode_utf8(entry.data@)).len() > 0)) && (
            res.tooltip matches Some(text) ==> text@ == trimmed(
                decode_utf8(read->Ok_0->Some_0.data@),
            )),
{
    let read = choose|read: Result<Option<Entry>, StoreError>| #[trigger]
        call_ensures(Store::get, (&bridge.history(), meta.id), read) && crate::popup::is_row_view(
            res,
            *meta,
            match read {
                Ok(Some(entry)) => Some(entry.data@),
                _ => None,
            },
            time@,
        );
    assert(call_ensures(Store::get, (&bridge.history(), meta.id), read));
}

/// What was read is listed, as it is; nothing is where it could not be. Content is
/// that of the entry that was read. An entry counts as dropped where it was there.
pub proof fn law_replies(
    list: Result<Vec<EntryMeta>, StoreError>,
    entry: Result<Option<Entry>, StoreError>,
    deleted: Result<bool, StoreError>,
    listed: Vec<EntryMeta>,
    content: Option<Vec<u8>>,
    gone: bool,
)
    requires
        call_ensures(entries_or_none, (list,), listed),
        call_ensures(content_of, (entry,), content),
        call_ensures(dropped, (deleted,), gone),
    ensures
        list matches Ok(metas) ==> listed == metas,
        list is Err ==> listed@.len() == 0,
        entry matches Ok(Some(found)) ==> content == Some(found.data),
        !(entry matches Ok(Some(_))) ==> content is None,
        gone <==> deleted == Ok::<bool, StoreError>(true),
{
}

/// With nothing but white space in the search field the popup lists the first 300
/// entries of the history, or all of them.
pub proof fn law_popup_lists_history(bridge: &Bridge, text: &str, metas: Vec<EntryMeta>)
    requires
        bridge.history().own(),
        is_blank(text@),
        call_ensures(read_entries, (bridge, text), Ok::<Vec<EntryMeta>, StoreError>(metas)),
    ensures
        bridge.history()@.dom().len() >= 300 ==> metas@.len() == 300,
        bridge.history()@.dom().len() <= 300 ==> metas@.len() == bridge.history()@.dom().len(),
        lists_in_order(bridge.history()@, metas@, 300),
        forall|id: i64| #[trigger]
            bridge.history()@.contains_key(id) ==> is_listed_or_later(
                bridge.history()@,
                metas@,
                300,
                id,
            ),
{
    let nothing: Seq<char> = Seq::empty();
    assert(text@ =~= text@ + nothing + nothing);
    lemma_trimmed(text@, nothing, nothing);
    lemma_listing(bridge.history()@, bridge.history()@, metas@, 300);
}

/// With anything else there it lists what a search for that finds, without the white
/// space around it.
pub proof fn law_popup_searches(
    bridge: &Bridge,
    text: &str,
    before: Seq<char>,
    query: Seq<char>,
    after: Seq<char>,
    metas: Vec<EntryMeta>,
)
    requires
        bridge.history().own(),
        is_valid(bridge.history()@),
        text@ == before + query + after,
        is_blank(before),
        is_blank(after),
        is_bare(query),
        query.len() > 0,
        !query.contains('\0'),
        call_ensures(read_entries, (bridge, text), Ok::<Vec<EntryMeta>, StoreError>(metas)),
    ensures
        lists_in_order(bridge.history()@, metas@, 300),
        forall|id: i64| #[trigger]
            bridge.history()@.contains_key(id) && is_searched_for(bridge.history()@[id], query)
                ==> is_listed_or_later(bridge.history()@, metas@, 300, id),
        forall|i: int|
            0 <= i < metas@.len() && is_clear(bridge.history()@[(#[trigger] metas@[i]).id], query)
                ==> is_searched_for(bridge.history()@[metas@[i].id], query),
        forall|i: int|
            0 <= i < metas@.len() && !(#[trigger] metas@[i]).pinned ==> metas@[i].kind
                != Kind::Image,
{
    lemma_trimmed(before, query, after);
    let rows = bridge.history()@;
    let part = crate::history::found(rows, search_pattern(query));
    lemma_listing(rows, part, metas@, 300);
    assert forall|id: i64| #[trigger] rows.contains_key(id) && is_searched_for(
        rows[id],
        query,
    ) implies is_listed_or_later(rows, metas@, 300, id) by {
        lemma_search(rows, query, id);
        assert(part.contains_key(id));
    }
    assert forall|i: int| 0 <= i < metas@.len() implies (is_clear(
        rows[(#[trigger] metas@[i]).id],
        query,
    ) ==> is_searched_for(rows[metas@[i].id], query)) && (!metas@[i].pinned ==> metas@[i].kind
        != Kind::Image) by {
        assert(part.contains_key(metas@[i].id));
        assert(rows.contains_key(metas@[i].id));
        lemma_search(rows, query, metas@[i].id);
    }
}

/// What the popup lists is what was read, or nothing where that failed.
pub proof fn law_popup_lists_what_was_read(bridge: &Bridge, text: &str, metas: Vec<EntryMeta>)
    requires
        call_ensures(entries_for, (bridge, text), metas),
    ensures
        exists|read: Result<Vec<EntryMeta>, StoreError>| #[trigger]
            call_ensures(read_entries, (bridge, text), read) && (read matches Ok(list) ==> metas
                == list) && (read is Err ==> metas@.len() == 0),
        metas@.len() <= 300,
{
}

/// A row's name drops the entry with the id that it writes, and no other; a name that
/// writes none drops nothing.
pub proof fn law_delete_by_name(
    bridge: &mut Bridge,
    name: &str,
    named: Option<i64>,
    res: Result<bool, StoreError>,
)
    requires
        call_ensures(parse_i64, (name,), named),
        call_ensures(delete_named, (bridge, name), res),
    ensures
        final(bridge).current() == old(bridge).current(),
        named is None ==> res == Ok::<bool, StoreError>(false) && *final(bridge) == *old(bridge),
        named is Some && old(bridge).history().own() ==> (res matches Ok(there) ==> {
            &&& there <==> old(bridge).history()@.contains_key(named->Some_0)
            &&& only_row_dropped(
                old(bridge).history()@,
                final(bridge).history()@,
                named->Some_0,
            )
        }),
{
}

/// The popup tells an entry dropped exactly where dropping it by name did.
pub proof fn law_delete_row(bridge: &mut Bridge, name: &str, named: Option<i64>, res: bool)
    requires
        call_ensures(parse_i64, (name,), named),
        call_ensures(delete_row, (bridge, name), res),
    ensures
        named is None ==> !res && *final(bridge) == *old(bridge),
        exists|at: &mut Bridge, deleted: Result<bool, StoreError>| #[trigger]
            call_ensures(delete_named, (at, name), deleted) && *at == *old(bridge) && *final(at)
                == *final(bridge) && (res <==> deleted == Ok::<bool, StoreError>(true)),
        res && old(bridge).history().own() ==> old(bridge).history()@.contains_key(named->Some_0)
            && only_row_dropped(
            old(bridge).history()@,
            final(bridge).history()@,
            named->Some_0,
        ),
{
}

proof fn lemma_names(list: Seq<String>, name: Seq<char>)
    ensures
        names(texts(list), name) <==> exists|i: int|
            0 <= i < list.len() && reads((#[trigger] list[i])@, name),
{
    let known = texts(list);
    if names(known, name) {
        let i = choose|i: int| 0 <= i < known.len() && lowered(#[trigger] known[i]) == lowered(name);
        assert(known[i] == list[i]@);
        lemma_reads(list[i]@, name);
    }
    if exists|i: int| 0 <= i < list.len() && reads((#[trigger] list[i])@, name) {
        let i = choose|i: int| 0 <= i < list.len() && reads((#[trigger] list[i])@, name);
        lemma_reads(list[i]@, name);
        assert(known[i] == list[i]@);
    }
}

/// A name is added at the end of the list, without the white space around it, unless
/// it is blank or the list has it in whatever case.
pub proof fn law_add_excluded(
    list: Vec<String>,
    entry: &str,
    before: Seq<char>,
    name: Seq<char>,
    after: Seq<char>,
    res: Option<Vec<String>>,
)
    requires
        entry@ == before + name + after,
        is_blank(before),
        is_blank(after),
        is_bare(name),
        call_ensures(add_excluded, (list, entry), res),
    ensures
        res is None <==> name.len() == 0 || exists|i: int|
            0 <= i < list@.len() && reads((#[trigger] list@[i])@, name),
        res matches Some(out) ==> {
            &&& out@.len() == list@.len() + 1
            &&& out@[list@.len() as int]@ == name
            &&& forall|i: int| 0 <= i < list@.len() ==> (#[trigger] list@[i])@ == out@[i]@
        },
{
    lemma_trimmed(before, name, after);
    lemma_names(list@, name);
    if let Some(out) = res {
        let more = texts(out@);
        let known = texts(list@);
        assert(more == known.push(name));
        assert(more.len() == out@.len() && known.len() == list@.len());
        assert(more[list@.len() as int] == out@[list@.len() as int]@);
        assert forall|i: int| 0 <= i < list@.len() implies (#[trigger] list@[i])@ == out@[i]@ by {
            assert(more[i] == known[i]);
        }
    }
}

/// A name is taken off the list in whatever case, wherever it stands; the others stay,
/// in their order.
pub proof fn law_remove_excluded(
    list: Vec<String>,
    fewer: Vec<String>,
    name: &str,
    res: Vec<String>,
    rest: Vec<String>,
)
    requires
        list@.len() > 0,
        fewer@ == list@.take(list@.len() - 1),
        call_ensures(remove_excluded, (list, name), res),
        call_ensures(remove_excluded, (fewer, name), rest),
    ensures
        fewer@.len() == 0 ==> rest@.len() == 0,
        forall|i: int| 0 <= i < rest@.len() ==> (#[trigger] rest@[i])@ == res@[i]@,
        reads(list@[list@.len() - 1]@, name@) ==> res@.len() == rest@.len(),
        !reads(list@[list@.len() - 1]@, name@) ==> res@.len() == rest@.len() + 1
            && res@[rest@.len() as int]@ == list@[list@.len() - 1]@,
{
    let all = texts(list@);
    let less = texts(fewer@);
    assert(all.drop_last() =~= less);
    assert(all.last() == list@[list@.len() - 1]@);
    lemma_reads(all.last(), name@);
    let left = texts(res@);
    let right = texts(rest@);
    assert(left == without_name(all, name@) && right == without_name(less, name@));
    assert(left.len() == res@.len() && right.len() == rest@.len());
    assert forall|i: int| 0 <= i < rest@.len() implies (#[trigger] rest@[i])@ == res@[i]@ by {
        assert(right[i] == rest@[i]@);
        assert(left[i] == right[i]);
    }
    if left.len() > right.len() {
        assert(left[right.len() as int] == res@[right.len() as int]@);
    }
}

/// The settings window tells how many entries there are and how many are pinned; none
/// where they could not be counted.
pub proof fn law_count_text(
    counts: Result<(u32, u32), StoreError>,
    total: u32,
    pinned: u32,
    all: String,
    pins: String,
    res: String,
)
    requires
        call_ensures(decimal_string, (total as u64,), all),
        call_ensures(decimal_string, (pinned as u64,), pins),
        call_ensures(count_text, (counts,), res),
    ensures
        counts == Ok::<(u32, u32), StoreError>((total, pinned)) || (counts is Err && total == 0
            && pinned == 0) ==> res@ == all@ + " stored, "@ + pins@ + " pinned"@,
{
}

/// What a command line asks for stays asked for, and of several files the last counts.
pub proof fn law_launch_options(
    launch: &mut Launch,
    preferences: bool,
    background: bool,
    screenshot: Option<String>,
)
    requires
        call_ensures(Launch::take, (launch, preferences, background, screenshot), ()),
    ensures
        final(launch).preferences <==> old(launch).preferences || preferences,
        final(launch).background <==> old(launch).background || background,
        screenshot is Some ==> final(launch).screenshot == screenshot,
        screenshot is None ==> final(launch).screenshot == old(launch).screenshot,
{
}

/// No window is opened in the background; else the settings where they were asked for
/// and the popup where not, and the picture is saved to the file that was named. The
/// program stays unless a picture was asked for. Nothing is asked for at first.
pub proof fn law_launch_opens(
    fresh: Launch,
    launch: &Launch,
    stays: bool,
    res: Option<(Window, Option<String>)>,
)
    requires
        call_ensures(Launch::new, (), fresh),
        call_ensures(Launch::stays, (launch,), stays),
        call_ensures(Launch::activate, (launch,), res),
    ensures
        !fresh.preferences && !fresh.background && fresh.screenshot is None,
        stays <==> launch.screenshot is None,
        res is None <==> launch.background,
        res matches Some(opened) ==> {
            &&& opened.0 == Window::Preferences <==> launch.preferences
            &&& opened.1 is Some <==> launch.screenshot is Some
            &&& opened.1 matches Some(path) ==> path@ == launch.screenshot->Some_0@
        },
{
}

/// The bytes of `clipway/history.db`.
pub open spec fn file_below_data() -> Seq<u8> {
    seq![
        99u8, 108, 105, 112, 119, 97, 121, 47, 104, 105, 115, 116, 111, 114, 121, 46, 100, 98,
    ]
}

/// The bytes of `.local/share/`.
pub open spec fn data_below_home() -> Seq<u8> {
    seq![46u8, 108, 111, 99, 97, 108, 47, 115, 104, 97, 114, 101, 47]
}

/// The directory with a slash at its end, which the empty one does not need.
pub open spec fn with_slash(dir: Seq<u8>) -> Seq<u8> {
    if dir.len() == 0 || dir[dir.len() - 1] == 47 {
        dir
    } else {
        dir.push(47)
    }
}

/// The database lies where it is set to lie; else it is `clipway/history.db` below the
/// data directory, or below `.local/share` in the home directory where no data
/// directory is set. Without either there is no place for it.
pub proof fn law_database_path(
    set: Option<Vec<u8>>,
    data_home: Option<Vec<u8>>,
    home: Option<Vec<u8>>,
    res: Result<Vec<u8>, NoDataDirectory>,
)
    requires
        call_ensures(db_path, (set, data_home, home), res),
    ensures
        res is Err <==> set is None && data_home is None && home is None,
        set matches Some(path) ==> res->Ok_0@ == path@,
        set is None ==> (data_home matches Some(base) ==> res->Ok_0@ == with_slash(base@)
            + file_below_data()),
        set is None && data_home is None ==> (home matches Some(dir) ==> res->Ok_0@ == with_slash(
            dir@,
        ) + data_below_home() + file_below_data()),
{
    if set is None {
        if let Some(base) = data_home {
            let dir = crate::paths::below(base@, clipway_name());
            assert(dir =~= with_slash(base@) + clipway_name());
            assert(dir.last() == 121);
            assert(res->Ok_0@ =~= with_slash(base@) + file_below_data());
        } else if let Some(dir) = home {
            let local = crate::paths::below(dir@, local_name());
            assert(local =~= with_slash(dir@) + local_name());
            assert(local.last() == 108);
            let share = crate::paths::below(local, share_name());
            assert(share =~= local.push(47) + share_name());
            assert(share.last() == 101);
            let clipway = crate::paths::below(share, clipway_name());
            assert(clipway =~= share.push(47) + clipway_name());
            assert(clipway.last() == 121);
            assert(res->Ok_0@ =~= with_slash(dir@) + data_below_home() + file_below_data());
        }
    }
}

/// The path is shown as the text that it encodes.
pub proof fn law_database_path_display(
    set: Option<Vec<u8>>,
    data_home: Option<Vec<u8>>,
    home: Option<Vec<u8>>,
    path: Result<Vec<u8>, NoDataDirectory>,
    res: String,
)
    requires
        call_ensures(db_path, (set, data_home, home), path),
        call_ensures(database_path_display, (set, data_home, home), res),
    ensures
        path is Err ==> res@ == "(unknown)"@,
        path matches Ok(bytes) ==> res@ == read_as(bytes@),
{
}

/// Without a place for the database the error says what to set.
pub proof fn law_no_data_directory(error: NoDataDirectory, res: &'static str)
    requires
        call_ensures(NoDataDirectory::message, (error,), res),
    ensures
        res@ == "cannot determine the data directory; set XDG_DATA_HOME or HOME"@,
{
}

} // verus!
