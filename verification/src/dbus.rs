//! What the clipboard service does with the requests that reach it: which content
//! it captures, how entries are named on the bus, and what it answers.

use vstd::prelude::*;

use crate::decimal::{
    decimal, is_digit, law_number_round_trip, lemma_decimal_value, parse_i64, parsed_i64,
    signed_decimal, signed_decimal_string,
};
use crate::history::{found, is_valid, Row};
use crate::like::search_pattern;
use crate::model::{
    byte_cap, classified, classify, is_sensitive, kind_number, max_bytes_for, sensitive, Entry,
    EntryMeta,
};
use crate::settings::{app_key, app_keys, law_exclusion_by_key, texts, SettingsSnapshot};
use crate::store::{
    is_addition, is_clearing, is_deletion, is_entry, is_listing, is_pinning, shows, AddOptions,
    AddOutcome, Store, StoreError,
};
use crate::text::{from_chars, to_chars};

verus! {

/// The name of the service on the session bus.
pub const BUS_NAME: &'static str = "io.clipway.ClipboardManager";

/// The path of the service's object.
pub const OBJECT_PATH: &'static str = "/io/clipway/ClipboardManager";

/// The path below which entries are named.
pub const ENTRY_PATH_PREFIX: &'static str = "/io/clipway/entries";

/// The name of the shell extension on the session bus.
pub const EXTENSION_BUS_NAME: &'static str = "io.clipway.Extension";

/// The path of the shell extension's object.
pub const EXTENSION_OBJECT_PATH: &'static str = "/io/clipway/Extension";

/// May the character stand in an element of an object path?
pub open spec fn is_element_char(c: char) -> bool {
    ('a' <= c && c <= 'z') || ('A' <= c && c <= 'Z') || ('0' <= c && c <= '9') || c == '_'
}

/// Is the text an object path: a slash alone, or elements that are not empty, each
/// with a slash before it?
pub open spec fn is_object_path(text: Seq<char>) -> bool {
    &&& text.len() > 0
    &&& text[0] == '/'
    &&& forall|i: int|
        0 <= i < text.len() ==> #[trigger] text[i] == '/' || is_element_char(text[i])
    &&& text.len() > 1 ==> text.last() != '/'
    &&& forall|i: int, j: int|
        0 <= i && j == i + 1 && j < text.len() ==> !(#[trigger] text[i] == '/'
            && #[trigger] text[j] == '/')
}

/// `zbus::zvariant::ObjectPath::try_from` takes the texts that are object paths,
/// and these alone, and keeps their characters.
#[verifier::external_body]
fn checked_path(text: &str) -> (res: Option<String>)
    ensures
        res is Some <==> is_object_path(text@),
        res is Some ==> res->Some_0@ == text@,
{
    zbus::zvariant::ObjectPath::try_from(text).ok().map(|path| path.as_str().to_owned())
}

/// The path that names an entry.
pub open spec fn path_of(id: i64) -> Seq<char> {
    ENTRY_PATH_PREFIX@ + "/"@ + signed_decimal(id as int)
}

proof fn lemma_path_of(id: i64)
    requires
        id >= 0,
    ensures
        is_object_path(path_of(id)),
{
    reveal_strlit("/io/clipway/entries");
    reveal_strlit("/");
    lemma_decimal_value(id as nat);
    let digits = signed_decimal(id as int);
    let lead = ENTRY_PATH_PREFIX@ + "/"@;
    let text = path_of(id);
    assert(lead.len() == 20);
    assert(digits == decimal(id as nat));
    assert(digits.len() > 0);
    assert forall|i: int| 0 <= i < text.len() implies #[trigger] text[i] == '/' || is_element_char(
        text[i],
    ) by {
        if i >= 20 {
            assert(text[i] == digits[i - 20]);
            assert(is_digit(digits[i - 20]));
        } else {
            assert(text[i] == lead[i]);
        }
    }
    assert(is_digit(digits[0]));
    assert(is_digit(digits[digits.len() - 1]));
    assert(text.last() == digits[digits.len() - 1]);
    assert forall|i: int, j: int| 0 <= i && j == i + 1 && j < text.len() implies !(#[trigger] text[i]
        == '/' && #[trigger] text[j] == '/') by {
        if j >= 20 {
            assert(text[j] == digits[j - 20]);
            assert(is_digit(digits[j - 20]));
        } else {
            assert(text[i] == lead[i]);
            assert(text[j] == lead[j]);
        }
    }
}

/// The object path of an entry, whose id is not negative: a negative number is no
/// element of an object path.
pub fn entry_path(id: i64) -> (res: String)
    requires
        id >= 0,
    ensures
        res@ == path_of(id),
        is_object_path(res@),
{
    let mut text = ENTRY_PATH_PREFIX.to_owned();
    text.append("/");
    let number = signed_decimal_string(id);
    text.append(number.as_str());
    proof {
        lemma_path_of(id);
        assert(text@ == path_of(id));
    }
    checked_path(text.as_str()).unwrap()
}

/// The id in an entry's path.
pub open spec fn id_in(path: Seq<char>) -> Option<i64> {
    let lead = ENTRY_PATH_PREFIX@ + "/"@;
    if lead.is_prefix_of(path) {
        parsed_i64(path.skip(lead.len() as int))
    } else {
        None
    }
}

/// The id in an entry's path, where it is one.
pub fn parse_entry_id(path: &str) -> (res: Option<i64>)
    ensures
        res == id_in(path@),
{
    let mut prefix = ENTRY_PATH_PREFIX.to_owned();
    prefix.append("/");
    let lead = to_chars(prefix.as_str());
    let chars = to_chars(path);
    if chars.len() < lead.len() {
        return None;
    }
    let mut i: usize = 0;
    while i < lead.len()
        invariant
            i <= lead@.len() <= chars@.len(),
            forall|j: int| 0 <= j < i ==> chars@[j] == lead@[j],
            lead@ == ENTRY_PATH_PREFIX@ + "/"@,
            chars@ == path@,
        decreases lead@.len() - i,
    {
        if chars[i] != lead[i] {
            return None;
        }
        i += 1;
    }
    let mut rest: Vec<char> = Vec::new();
    while i < chars.len()
        invariant
            lead@.len() <= i <= chars@.len(),
            rest@ == chars@.subrange(lead@.len() as int, i as int),
        decreases chars@.len() - i,
    {
        rest.push(chars[i]);
        i += 1;
        proof {
            assert(rest@ =~= chars@.subrange(lead@.len() as int, i as int));
        }
    }
    let number = from_chars(rest.as_slice());
    proof {
        assert(lead@ =~= path@.take(lead@.len() as int));
        assert(number@ =~= path@.skip(lead@.len() as int));
    }
    parse_i64(number.as_str())
}

/// The path of an entry names that entry and no other.
pub proof fn law_path_names_entry(id: i64)
    ensures
        id_in(path_of(id)) == Some(id),
{
    let lead = ENTRY_PATH_PREFIX@ + "/"@;
    law_number_round_trip(id);
    assert(path_of(id).take(lead.len() as int) =~= lead);
    assert(path_of(id).skip(lead.len() as int) =~= signed_decimal(id as int));
}

/// `std::time::SystemTime::elapsed` on the Unix epoch gives the time since then, or
/// an error where the clock stands before it. The result is in whole seconds.
/// Nothing is said of it: it is the machine's clock that decides.
#[verifier::external_body]
fn since_epoch() -> (res: Option<u64>) {
    std::time::UNIX_EPOCH.elapsed().ok().map(|elapsed| elapsed.as_secs())
}

/// The time in seconds, from what the clock gives; 0 where it stands before the
/// epoch.
pub open spec fn clock_secs(elapsed: Option<u64>) -> i64 {
    match elapsed {
        Some(seconds) => seconds as i64,
        None => 0,
    }
}

/// The time in seconds, from what the clock gives.
pub fn secs_of(elapsed: Option<u64>) -> (res: i64)
    ensures
        res == clock_secs(elapsed),
{
    match elapsed {
        Some(seconds) => #[verifier::truncate]
        (seconds as i64),
        None => 0,
    }
}

/// Can the machine's clock give this reading?
pub closed spec fn is_reading(elapsed: Option<u64>) -> bool {
    call_ensures(since_epoch, (), elapsed)
}

/// The time in seconds since the Unix epoch.
pub fn now_secs() -> (res: i64)
    ensures
        exists|elapsed: Option<u64>| #[trigger] is_reading(elapsed) && res == clock_secs(elapsed),
{
    let elapsed = since_epoch();
    proof {
        assert(is_reading(elapsed));
    }
    secs_of(elapsed)
}

/// Is content of this type captured from this application? Not where it is marked
/// as a secret, of an unknown type, in incognito mode, or from an application that
/// is excluded.
pub open spec fn is_captured(
    mime: Seq<char>,
    source: Seq<char>,
    settings: SettingsSnapshot,
) -> bool {
    &&& !sensitive(mime)
    &&& classified(mime) is Some
    &&& !settings.incognito
    &&& !settings.lists(app_key(source))
}

/// What a capture does to a history and gives back: nothing, where the content is
/// not captured; else what an addition does, with the limits of the settings.
pub open spec fn is_capture(
    before: Store,
    after: Store,
    settings: SettingsSnapshot,
    mime: Seq<char>,
    data: Seq<u8>,
    source: Seq<char>,
    now: i64,
    res: Result<Option<AddOutcome>, StoreError>,
) -> bool {
    if is_captured(mime, source, settings) {
        let kind = classified(mime)->Some_0;
        let opts = AddOptions {
            max_bytes: byte_cap(kind, &settings),
            depth: settings.history_depth,
            now,
        };
        match res {
            Ok(Some(outcome)) => is_addition(
                before,
                after,
                kind,
                mime,
                data,
                source,
                opts,
                Ok(outcome),
            ),
            Ok(None) => false,
            Err(error) => is_addition(before, after, kind, mime, data, source, opts, Err(error)),
        }
    } else {
        after == before && res matches Ok(None)
    }
}

/// Nothing is captured from an application that the settings name, in whatever case
/// and with whatever white space around it.
pub proof fn law_excluded_is_not_captured(
    names: Seq<Seq<char>>,
    settings: SettingsSnapshot,
    mime: Seq<char>,
    source: Seq<char>,
    i: int,
)
    requires
        texts(settings.excluded_apps@) == app_keys(names),
        0 <= i < names.len(),
        app_key(names[i]) == app_key(source),
        app_key(source).len() > 0,
    ensures
        !is_captured(mime, source, settings),
{
    law_exclusion_by_key(names, source);
}

/// What is to be done next to put an entry on the clipboard.
pub enum PasteStep {
    /// Hand the entry to the shell extension.
    Extension(Entry),
    /// Hand the entry to the window toolkit.
    Toolkit(Entry),
    /// Nothing more; this says whether the entry is on the clipboard.
    Finished(bool),
}

/// The first step for what reading the entry gave: one that could be read goes to
/// the shell extension.
pub open spec fn first_step(read: Result<Option<Entry>, StoreError>) -> PasteStep {
    match read {
        Ok(Some(entry)) => PasteStep::Extension(entry),
        Ok(None) => PasteStep::Finished(false),
        Err(_) => PasteStep::Finished(false),
    }
}

/// The first step: an entry that could be read goes to the shell extension.
pub fn paste_found(found: Result<Option<Entry>, StoreError>) -> (res: PasteStep)
    ensures
        res == first_step(found),
{
    match found {
        Ok(Some(entry)) => PasteStep::Extension(entry),
        Ok(None) => PasteStep::Finished(false),
        Err(_) => PasteStep::Finished(false),
    }
}

/// The step after the shell extension's answer: an entry that it did not take goes
/// to the window toolkit.
pub fn paste_answered(entry: Entry, taken: bool) -> (res: PasteStep)
    ensures
        taken ==> res == PasteStep::Finished(true),
        !taken ==> res == PasteStep::Toolkit(entry),
{
    if taken {
        PasteStep::Finished(true)
    } else {
        PasteStep::Toolkit(entry)
    }
}

/// How many entries a list on the bus has, for the number that was asked for: from
/// 1 to 50.
pub open spec fn row_limit(limit: u32) -> u32 {
    if limit < 1 {
        1
    } else if limit > 50 {
        50
    } else {
        limit
    }
}

/// An entry in a list on the bus.
pub struct RecentRow {
    pub path: String,
    pub kind: i64,
    pub preview: String,
    pub source: String,
    pub pinned: bool,
}

/// Does the row show what `meta` shows?
pub open spec fn is_recent_row(row: RecentRow, meta: EntryMeta) -> bool {
    &&& row.path@ == path_of(meta.id)
    &&& row.kind == kind_number(meta.kind)
    &&& row.preview@ == meta.preview@
    &&& row.source@ == meta.source@
    &&& row.pinned == meta.pinned
}

/// An entry as a list on the bus shows it.
pub fn recent_row(meta: &EntryMeta) -> (res: RecentRow)
    requires
        meta.id >= 0,
    ensures
        is_recent_row(res, *meta),
{
    RecentRow {
        path: entry_path(meta.id),
        kind: meta.kind.as_i64(),
        preview: meta.preview.clone(),
        source: meta.source.clone(),
        pinned: meta.pinned,
    }
}

/// The entries as a list on the bus shows them; nothing where one has a negative id,
/// which no path names.
pub fn recent_rows(metas: &Vec<EntryMeta>) -> (res: Option<Vec<RecentRow>>)
    ensures
        res is Some <==> forall|i: int| 0 <= i < metas@.len() ==> (#[trigger] metas@[i]).id >= 0,
        res matches Some(rows) ==> {
            &&& rows@.len() == metas@.len()
            &&& forall|i: int|
                0 <= i < rows@.len() ==> is_recent_row(#[trigger] rows@[i], metas@[i])
        },
{
    let mut rows: Vec<RecentRow> = Vec::new();
    let mut i: usize = 0;
    while i < metas.len()
        invariant
            i <= metas@.len(),
            rows@.len() == i,
            forall|j: int| 0 <= j < i ==> (#[trigger] metas@[j]).id >= 0,
            forall|j: int| 0 <= j < i ==> is_recent_row(#[trigger] rows@[j], metas@[j]),
        decreases metas@.len() - i,
    {
        if metas[i].id < 0 {
            return None;
        }
        rows.push(recent_row(&metas[i]));
        i += 1;
    }
    Some(rows)
}

/// Every entry that a valid history lists has an id that a path can name.
pub proof fn law_listed_entries_have_paths(
    rows: Map<i64, Row>,
    metas: Seq<EntryMeta>,
    limit: nat,
    i: int,
)
    requires
        is_valid(rows),
        is_listing(rows, metas, limit),
        0 <= i < metas.len(),
    ensures
        metas[i].id > 0,
        is_object_path(path_of(metas[i].id)),
{
    assert(rows.contains_key(metas[i].id));
    lemma_path_of(metas[i].id);
}

/// The history together with the settings that capture goes by.
pub struct Bridge {
    store: Store,
    settings: SettingsSnapshot,
}

impl Bridge {
    /// The history.
    pub closed spec fn history(&self) -> Store {
        self.store
    }

    /// The settings.
    pub closed spec fn current(&self) -> SettingsSnapshot {
        self.settings
    }

    /// A history with the settings to start with.
    pub fn new(store: Store, settings: SettingsSnapshot) -> (res: Self)
        ensures
            res.history() == store,
            res.current() == settings,
    {
        Bridge { store, settings }
    }

    /// Puts new settings in place of the present ones.
    pub fn update_settings(&mut self, settings: SettingsSnapshot)
        ensures
            final(self).current() == settings,
            final(self).history() == old(self).history(),
    {
        self.settings = settings;
    }

    /// The present settings.
    pub fn snapshot(&self) -> (res: SettingsSnapshot)
        ensures
            res.same_as(&self.current()),
    {
        self.settings.clone()
    }

    /// The history.
    pub fn store(&self) -> (res: &Store)
        ensures
            *res == self.history(),
    {
        &self.store
    }

    /// The first entries of the history, up to `limit` of them.
    pub fn recent(&self, limit: u32) -> (res: Result<Vec<EntryMeta>, StoreError>)
        ensures
            res matches Err(error) ==> error is Statement,
            res matches Ok(metas) ==> metas@.len() <= limit,
            self.history().own() ==> (res matches Ok(metas) ==> is_listing(
                self.history()@,
                metas@,
                limit as nat,
            )),
    {
        self.store.recent(limit)
    }

    /// The first entries that a search for `query` shows, up to `limit` of them.
    pub fn search(&self, query: &str, limit: u32) -> (res: Result<Vec<EntryMeta>, StoreError>)
        ensures
            res matches Err(error) ==> error is Statement,
            res matches Ok(metas) ==> metas@.len() <= limit,
            self.history().own() ==> (res matches Ok(metas) ==> is_listing(
                found(self.history()@, search_pattern(query@)),
                metas@,
                limit as nat,
            )),
    {
        self.store.search(query, limit)
    }

    /// Captures content at a time. Nothing is given back where the content is not
    /// captured.
    pub fn add_entry_at(
        &mut self,
        mime: &str,
        data: Vec<u8>,
        source_app: &str,
        now: i64,
    ) -> (res: Result<Option<AddOutcome>, StoreError>)
        ensures
            final(self).current() == old(self).current(),
            is_capture(
                old(self).history(),
                final(self).history(),
                old(self).current(),
                mime@,
                data@,
                source_app@,
                now,
                res,
            ),
    {
        if is_sensitive(mime) {
            return Ok(None);
        }
        let kind = match classify(mime) {
            Some(kind) => kind,
            None => return Ok(None),
        };
        if self.settings.incognito || self.settings.is_excluded(source_app) {
            return Ok(None);
        }
        let opts = AddOptions {
            max_bytes: max_bytes_for(kind, &self.settings),
            depth: self.settings.history_depth,
            now,
        };
        match self.store.add(kind, mime, data, source_app, &opts) {
            Ok(outcome) => Ok(Some(outcome)),
            Err(error) => Err(error),
        }
    }

    /// Captures content now.
    pub fn add_entry(&mut self, mime: &str, data: Vec<u8>, source_app: &str) -> (res: Result<
        Option<AddOutcome>,
        StoreError,
    >)
        ensures
            final(self).current() == old(self).current(),
            exists|now: i64|
                call_ensures(now_secs, (), now) && #[trigger] is_capture(
                    old(self).history(),
                    final(self).history(),
                    old(self).current(),
                    mime@,
                    data@,
                    source_app@,
                    now,
                    res,
                ),
    {
        let now = now_secs();
        self.add_entry_at(mime, data, source_app, now)
    }

    /// Drops every entry, or every one that is not pinned.
    pub fn clear(&mut self, keep_pinned: bool) -> (res: Result<(), StoreError>)
        ensures
            final(self).current() == old(self).current(),
            is_clearing(old(self).history(), final(self).history(), keep_pinned, res),
    {
        if keep_pinned {
            self.store.clear_unpinned()
        } else {
            self.store.clear()
        }
    }

    /// Pins an entry or takes its pin away; `false` where there is no such entry.
    pub fn set_pinned(&mut self, id: i64, pinned: bool) -> (res: Result<bool, StoreError>)
        ensures
            final(self).current() == old(self).current(),
            is_pinning(old(self).history(), final(self).history(), id, pinned, res),
    {
        self.store.set_pinned(id, pinned)
    }

    /// Drops an entry, pinned or not; `false` where there is no such entry.
    pub fn delete(&mut self, id: i64) -> (res: Result<bool, StoreError>)
        ensures
            final(self).current() == old(self).current(),
            is_deletion(old(self).history(), final(self).history(), id, res),
    {
        self.store.delete(id)
    }

    /// At the end of a session, drops every entry that is not pinned, where the
    /// settings say so.
    pub fn on_session_end(&mut self) -> (res: Result<(), StoreError>)
        ensures
            final(self).current() == old(self).current(),
            if old(self).current().clear_on_logout {
                is_clearing(old(self).history(), final(self).history(), true, res)
            } else {
                res is Ok && final(self).history() == old(self).history()
            },
    {
        if !self.settings.clear_on_logout {
            return Ok(());
        }
        self.store.clear_unpinned()
    }

    /// The first step to put an entry on the clipboard.
    pub fn paste(&self, id: i64) -> (res: PasteStep)
        ensures
            exists|read: Result<Option<Entry>, StoreError>| #[trigger]
                call_ensures(Store::get, (&self.history(), id), read) && res == first_step(read),
            res is Extension || res == PasteStep::Finished(false),
            res matches PasteStep::Extension(entry) ==> is_entry(entry, id),
            self.history().own() && !self.history()@.contains_key(id) ==> res
                == PasteStep::Finished(false),
            self.history().own() ==> (res matches PasteStep::Extension(entry) ==> {
                &&& shows(entry.meta, id, self.history()@[id])
                &&& entry.data@ == self.history()@[id].data
            }),
    {
        paste_found(self.store.get(id))
    }

    /// The entry that a path names.
    pub fn entry_at(&self, path: &str) -> (res: Result<Option<Entry>, StoreError>)
        ensures
            match id_in(path@) {
                None => res matches Ok(None),
                Some(id) => {
                    &&& res matches Err(error) ==> error is Statement
                    &&& res matches Ok(Some(entry)) ==> is_entry(entry, id)
                    &&& self.history().own() ==> match res {
                        Ok(Some(entry)) => {
                            &&& self.history()@.contains_key(id)
                            &&& shows(entry.meta, id, self.history()@[id])
                            &&& entry.data@ == self.history()@[id].data
                        },
                        Ok(None) => !self.history()@.contains_key(id),
                        Err(_) => true,
                    }
                },
            },
    {
        match parse_entry_id(path) {
            Some(id) => self.store.get(id),
            None => Ok(None),
        }
    }

    /// The first step to put the entry on the clipboard that a path names.
    pub fn paste_entry(&self, path: &str) -> (res: PasteStep)
        ensures
            exists|read: Result<Option<Entry>, StoreError>| #[trigger]
                call_ensures(Bridge::entry_at, (self, path), read) && res == first_step(read),
            res is Extension || res == PasteStep::Finished(false),
            match id_in(path@) {
                None => res == PasteStep::Finished(false),
                Some(id) => {
                    &&& res matches PasteStep::Extension(entry) ==> is_entry(entry, id)
                    &&& self.history().own() && !self.history()@.contains_key(id) ==> res
                        == PasteStep::Finished(false)
                    &&& self.history().own() ==> (res matches PasteStep::Extension(entry) ==> {
                        &&& shows(entry.meta, id, self.history()@[id])
                        &&& entry.data@ == self.history()@[id].data
                    })
                },
            },
    {
        paste_found(self.entry_at(path))
    }

    /// The entries that a list on the bus has, for the number that was asked for.
    pub fn get_recent(&self, limit: u32) -> (res: Result<Vec<EntryMeta>, StoreError>)
        ensures
            res matches Err(error) ==> error is Statement,
            res matches Ok(metas) ==> metas@.len() <= row_limit(limit),
            self.history().own() ==> (res matches Ok(metas) ==> is_listing(
                self.history()@,
                metas@,
                row_limit(limit) as nat,
            )),
    {
        let count: u32 = if limit < 1 {
            1
        } else if limit > 50 {
            50
        } else {
            limit
        };
        self.store.recent(count)
    }
}

} // verus!
