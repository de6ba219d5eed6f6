//! What the popup window shows.

use vstd::prelude::*;
use vstd::utf8::{decode_utf8, valid_utf8};

use crate::dbus::Bridge;
use crate::decimal::{
    decimal, decimal_string, law_number_round_trip, parse_i64, parsed_i64, signed_decimal,
    signed_decimal_string,
};
use crate::history::{found, Row};
use crate::like::search_pattern;
use crate::model::{kind_icon, Entry, EntryMeta, Kind};
use crate::store::{is_deletion, is_listing, is_same_database, Store, StoreError};
use crate::text::{from_chars, to_chars, trim, trimmed};

verus! {

/// How many entries the popup lists.
pub const RECENT_LIMIT: u32 = 300;

/// The rows among which the popup lists the first: all of them, or those that a
/// search for the text in the search field shows.
pub open spec fn rows_for(rows: Map<i64, Row>, text: Seq<char>) -> Map<i64, Row> {
    if trimmed(text).len() == 0 {
        rows
    } else {
        found(rows, search_pattern(trimmed(text)))
    }
}

/// The entries that were read; none where they could not be.
pub fn entries_or_none(read: Result<Vec<EntryMeta>, StoreError>) -> (res: Vec<EntryMeta>)
    ensures
        match read {
            Ok(entries) => res == entries,
            Err(_) => res@.len() == 0,
        },
{
    match read {
        Ok(entries) => entries,
        Err(_) => Vec::new(),
    }
}

/// Reads the entries that the popup lists for the text in the search field.
pub fn read_entries(bridge: &Bridge, text: &str) -> (res: Result<Vec<EntryMeta>, StoreError>)
    ensures
        res matches Err(error) ==> error is Statement,
        res matches Ok(entries) ==> entries@.len() <= RECENT_LIMIT,
        bridge.history().own() ==> (res matches Ok(entries) ==> is_listing(
            rows_for(bridge.history()@, text@),
            entries@,
            RECENT_LIMIT as nat,
        )),
{
    let chars = to_chars(text);
    let inner = trim(chars.as_slice());
    if inner.len() == 0 {
        bridge.recent(RECENT_LIMIT)
    } else {
        let query = from_chars(inner);
        bridge.search(query.as_str(), RECENT_LIMIT)
    }
}

/// The entries that the popup lists for the text in the search field; none where
/// they could not be read.
pub fn entries_for(bridge: &Bridge, text: &str) -> (res: Vec<EntryMeta>)
    ensures
        exists|read: Result<Vec<EntryMeta>, StoreError>| #[trigger]
            call_ensures(read_entries, (bridge, text), read) && match read {
                Ok(entries) => res == entries,
                Err(_) => res@.len() == 0,
            },
        res@.len() <= RECENT_LIMIT,
        bridge.history().own() ==> res@.len() == 0 || is_listing(
            rows_for(bridge.history()@, text@),
            res@,
            RECENT_LIMIT as nat,
        ),
{
    entries_or_none(read_entries(bridge, text))
}

/// The text of the status line for this many entries.
pub open spec fn status_of(count: nat) -> Seq<char> {
    if count == 1 {
        decimal(count) + " entry"@
    } else {
        decimal(count) + " entries"@
    }
}

/// The status line for this many entries.
pub fn status_text(count: usize) -> (res: String)
    ensures
        res@ == status_of(count as nat),
{
    let mut out = decimal_string(count as u64);
    if count == 1 {
        out.append(" entry");
    } else {
        out.append(" entries");
    }
    out
}

/// How long ago `then` was at the time `now`, as a text; nothing where it was a
/// week ago or more.
pub open spec fn age_text(then: i64, now: i64) -> Option<Seq<char>> {
    let age = now - then;
    if age < 60 {
        Some("just now"@)
    } else if age < 3_600 {
        Some(decimal((age / 60) as nat) + " min ago"@)
    } else if age < 86_400 {
        Some(decimal((age / 3_600) as nat) + " h ago"@)
    } else if age < 604_800 {
        Some(decimal((age / 86_400) as nat) + " d ago"@)
    } else {
        None
    }
}

/// How long ago a time was, in words: what is in the future is just now, and what
/// was a week ago or more is to be told by its date.
pub fn relative_time(timestamp: i64, now: i64) -> (res: Option<String>)
    ensures
        match age_text(timestamp, now) {
            Some(text) => res matches Some(words) && words@ == text,
            None => res is None,
        },
{
    let age: i128 = now as i128 - timestamp as i128;
    if age < 60 {
        return Some("just now".to_owned());
    }
    if age >= 604_800 {
        return None;
    }
    let seconds: u64 = age as u64;
    let mut out: String;
    if seconds < 3_600 {
        out = decimal_string(seconds / 60);
        out.append(" min ago");
    } else if seconds < 86_400 {
        out = decimal_string(seconds / 3_600);
        out.append(" h ago");
    } else {
        out = decimal_string(seconds / 86_400);
        out.append(" d ago");
    }
    Some(out)
}

/// `String::from_utf8` gives the text that bytes encode where they are UTF-8, and
/// an error where they are not.
#[verifier::external_body]
fn utf8_text(bytes: Vec<u8>) -> (res: Option<String>)
    ensures
        res is Some <==> valid_utf8(bytes@),
        res is Some ==> res->Some_0@ == decode_utf8(bytes@),
{
    String::from_utf8(bytes).ok()
}

/// What the popup shows of an entry.
pub struct RowView {
    /// The name by which the row is found again: the entry's id.
    pub name: String,
    pub title: String,
    pub subtitle: String,
    /// The text that is shown over the row.
    pub tooltip: Option<String>,
    /// The encoded picture before the title.
    pub picture: Option<Vec<u8>>,
    /// The name of the icon before the title.
    pub icon: Option<&'static str>,
    /// The name of the icon of the button that pins the entry.
    pub pin_icon: &'static str,
    pub pinned: bool,
}

/// The line below the title: where the entry comes from, and when it was copied.
pub open spec fn subtitle_of(source: Seq<char>, time: Seq<char>) -> Seq<char> {
    if source.len() == 0 {
        time
    } else {
        source + " \u{b7} "@ + time
    }
}

/// The text over the row of an entry of text: its content without the white space
/// around it, where that is UTF-8 and not empty.
pub open spec fn tooltip_of(kind: Kind, data: Option<Seq<u8>>) -> Option<Seq<char>> {
    match data {
        Some(bytes) => if kind == Kind::Text && valid_utf8(bytes) && trimmed(
            decode_utf8(bytes),
        ).len() > 0 {
            Some(trimmed(decode_utf8(bytes)))
        } else {
            None
        },
        None => None,
    }
}

/// Is this what the popup shows of an entry whose content is `data`, where it
/// could be read?
pub open spec fn is_row_view(
    view: RowView,
    meta: EntryMeta,
    data: Option<Seq<u8>>,
    time: Seq<char>,
) -> bool {
    &&& view.name@ == signed_decimal(meta.id as int)
    &&& view.title@ == meta.preview@
    &&& view.subtitle@ == subtitle_of(meta.source@, time)
    &&& match tooltip_of(meta.kind, data) {
        Some(text) => view.tooltip matches Some(shown) && shown@ == text,
        None => view.tooltip is None,
    }
    &&& match data {
        Some(bytes) => if meta.kind == Kind::Image {
            view.picture matches Some(picture) && picture@ == bytes
        } else {
            view.picture is None
        },
        None => view.picture is None,
    }
    &&& if meta.kind == Kind::Image {
        view.icon is None
    } else {
        view.icon matches Some(icon) && icon@ == kind_icon(meta.kind)
    }
    &&& view.pin_icon@ == if meta.pinned {
        "starred-symbolic"@
    } else {
        "non-starred-symbolic"@
    }
    &&& view.pinned == meta.pinned
}

/// What the popup shows of an entry with this content, where it could be read.
pub fn row_view(meta: &EntryMeta, data: Option<Vec<u8>>, time: &str) -> (res: RowView)
    ensures
        is_row_view(
            res,
            *meta,
            match data {
                Some(bytes) => Some(bytes@),
                None => None,
            },
            time@,
        ),
{
    let mut subtitle: String;
    if meta.source.as_str().is_empty() {
        subtitle = time.to_owned();
    } else {
        subtitle = meta.source.clone();
        subtitle.append(" \u{b7} ");
        subtitle.append(time);
    }
    let mut tooltip: Option<String> = None;
    let mut picture: Option<Vec<u8>> = None;
    if let Some(bytes) = data {
        match meta.kind {
            Kind::Image => {
                picture = Some(bytes);
            },
            Kind::Text => {
                if let Some(text) = utf8_text(bytes) {
                    let chars = to_chars(text.as_str());
                    let inner = trim(chars.as_slice());
                    if inner.len() > 0 {
                        tooltip = Some(from_chars(inner));
                    }
                }
            },
            Kind::Files => {},
        }
    }
    let icon: Option<&'static str> = match meta.kind {
        Kind::Image => None,
        kind => Some(kind.icon_name()),
    };
    let pin_icon: &'static str = if meta.pinned {
        "starred-symbolic"
    } else {
        "non-starred-symbolic"
    };
    RowView {
        name: signed_decimal_string(meta.id),
        title: meta.preview.clone(),
        subtitle,
        tooltip,
        picture,
        icon,
        pin_icon,
        pinned: meta.pinned,
    }
}

/// The content of an entry that could be read.
pub fn content_of(read: Result<Option<Entry>, StoreError>) -> (res: Option<Vec<u8>>)
    ensures
        match read {
            Ok(Some(entry)) => res == Some(entry.data),
            Ok(None) => res is None,
            Err(_) => res is None,
        },
{
    match read {
        Ok(Some(entry)) => Some(entry.data),
        Ok(None) => None,
        Err(_) => None,
    }
}

/// What the popup shows of an entry of the history; `time` is when it was copied,
/// in words.
pub fn build_row(bridge: &Bridge, meta: &EntryMeta, time: &str) -> (res: RowView)
    ensures
        exists|read: Result<Option<Entry>, StoreError>| #[trigger]
            call_ensures(Store::get, (&bridge.history(), meta.id), read) && is_row_view(
                res,
                *meta,
                match read {
                    Ok(Some(entry)) => Some(entry.data@),
                    _ => None,
                },
                time@,
            ),
        bridge.history().own() ==> {
            ||| is_row_view(res, *meta, None, time@)
            ||| bridge.history()@.contains_key(meta.id) && is_row_view(
                res,
                *meta,
                Some(bridge.history()@[meta.id].data),
                time@,
            )
        },
{
    row_view(meta, content_of(bridge.store().get(meta.id)), time)
}

/// The id of the entry that a row of this name shows.
pub fn id_of_row(name: &str) -> (res: Option<i64>)
    ensures
        res == parsed_i64(name@),
{
    parse_i64(name)
}

/// The name of an entry's row leads back to the entry.
pub proof fn law_row_name_names_entry(
    view: RowView,
    meta: EntryMeta,
    data: Option<Seq<u8>>,
    time: Seq<char>,
)
    requires
        is_row_view(view, meta, data, time),
    ensures
        parsed_i64(view.name@) == Some(meta.id),
{
    law_number_round_trip(meta.id);
}

/// Did the deletion drop an entry?
pub fn dropped(deleted: Result<bool, StoreError>) -> (res: bool)
    ensures
        res == (deleted matches Ok(there) && there),
{
    match deleted {
        Ok(there) => there,
        Err(_) => false,
    }
}

/// Drops the entry that a row of this name shows; `false` where the name is none or
/// there is no such entry.
pub fn delete_named(bridge: &mut Bridge, name: &str) -> (res: Result<bool, StoreError>)
    ensures
        final(bridge).current() == old(bridge).current(),
        match parsed_i64(name@) {
            None => (res matches Ok(there) && !there) && *final(bridge) == *old(bridge),
            Some(id) => is_deletion(old(bridge).history(), final(bridge).history(), id, res),
        },
{
    match id_of_row(name) {
        Some(id) => bridge.delete(id),
        None => Ok(false),
    }
}

/// Drops the entry that a row of this name shows; says whether it is known to be
/// dropped.
pub fn delete_row(bridge: &mut Bridge, name: &str) -> (res: bool)
    ensures
        exists|at: &mut Bridge, deleted: Result<bool, StoreError>| #[trigger]
            call_ensures(delete_named, (at, name), deleted) && *at == *old(bridge) && *final(at)
                == *final(bridge) && res == (deleted matches Ok(there) && there),
        final(bridge).current() == old(bridge).current(),
        match parsed_i64(name@) {
            None => !res && *final(bridge) == *old(bridge),
            Some(id) => old(bridge).history().own() ==> {
                let before = old(bridge).history()@;
                let after = final(bridge).history()@;
                &&& is_same_database(old(bridge).history(), final(bridge).history())
                &&& final(bridge).history().top_id() == old(bridge).history().top_id()
                &&& !before.contains_key(id) ==> !res && after == before
                &&& res ==> after == before.remove(id)
                &&& after == before || after == before.remove(id)
            },
        },
{
    dropped(delete_named(bridge, name))
}

} // verus!
