//! The settings that capture and retention go by.

use vstd::prelude::*;

use crate::text::{from_chars, same_chars, to_chars, trim, trimmed};

verus! {

/// What `str::to_lowercase` makes of a text.
pub uninterp spec fn lowercase(text: Seq<char>) -> Seq<char>;

/// `str::to_lowercase` gives the lower case form of a text, by the Unicode rules.
/// The result depends on the text alone; which characters it holds is left to
/// those rules.
#[verifier::external_body]
fn to_lowercase(text: &str) -> (res: String)
    ensures
        res@ == lowercase(text@),
{
    text.to_lowercase()
}

/// The form in which application names are compared: no white space around
/// them, and lower case. A blank name has an empty one.
pub open spec fn app_key(name: Seq<char>) -> Seq<char> {
    if trimmed(name).len() == 0 {
        Seq::empty()
    } else {
        lowercase(trimmed(name))
    }
}

fn app_key_of(name: &str) -> (res: String)
    ensures
        res@ == app_key(name@),
{
    let chars = to_chars(name);
    let inner = trim(chars.as_slice());
    if inner.len() == 0 {
        return String::new();
    }
    let name = from_chars(inner);
    to_lowercase(name.as_str())
}

/// The views of a vector of strings.
pub open spec fn texts(strings: Seq<String>) -> Seq<Seq<char>> {
    strings.map_values(|string: String| string@)
}

/// The keys of the names that have one.
pub open spec fn app_keys(names: Seq<Seq<char>>) -> Seq<Seq<char>>
    decreases names.len(),
{
    if names.len() == 0 {
        Seq::empty()
    } else {
        let head = app_keys(names.drop_last());
        let key = app_key(names.last());
        if key.len() == 0 {
            head
        } else {
            head.push(key)
        }
    }
}

/// `value`, or the bound that it lies beyond.
pub open spec fn clamped(value: u32, low: u32, high: u32) -> u32 {
    if value < low {
        low
    } else if value > high {
        high
    } else {
        value
    }
}

fn clamp(value: u32, low: u32, high: u32) -> (res: u32)
    requires
        low <= high,
    ensures
        res == clamped(value, low, high),
{
    if value < low {
        low
    } else if value > high {
        high
    } else {
        value
    }
}

/// The settings as the user's configuration holds them.
#[derive(Debug)]
pub struct Settings {
    incognito: bool,
    excluded_apps: Vec<String>,
    history_depth: u32,
    max_text_bytes: u32,
    max_image_bytes: u32,
    clear_on_logout: bool,
}

impl Settings {
    /// The configured incognito switch.
    pub closed spec fn raw_incognito(&self) -> bool {
        self.incognito
    }

    /// The configured application names.
    pub closed spec fn raw_excluded_apps(&self) -> Seq<Seq<char>> {
        texts(self.excluded_apps@)
    }

    /// The configured depth.
    pub closed spec fn raw_history_depth(&self) -> u32 {
        self.history_depth
    }

    /// The configured text cap.
    pub closed spec fn raw_max_text_bytes(&self) -> u32 {
        self.max_text_bytes
    }

    /// The configured image cap.
    pub closed spec fn raw_max_image_bytes(&self) -> u32 {
        self.max_image_bytes
    }

    /// The configured logout switch.
    pub closed spec fn raw_clear_on_logout(&self) -> bool {
        self.clear_on_logout
    }

    /// Takes the values that the configuration holds.
    pub fn new(
        incognito: bool,
        excluded_apps: Vec<String>,
        history_depth: u32,
        max_text_bytes: u32,
        max_image_bytes: u32,
        clear_on_logout: bool,
    ) -> (res: Self)
        ensures
            res.raw_incognito() == incognito,
            res.raw_excluded_apps() == texts(excluded_apps@),
            res.raw_history_depth() == history_depth,
            res.raw_max_text_bytes() == max_text_bytes,
            res.raw_max_image_bytes() == max_image_bytes,
            res.raw_clear_on_logout() == clear_on_logout,
    {
        Settings {
            incognito,
            excluded_apps,
            history_depth,
            max_text_bytes,
            max_image_bytes,
            clear_on_logout,
        }
    }

    /// Is nothing to be captured?
    pub fn incognito(&self) -> (res: bool)
        ensures
            res == self.raw_incognito(),
    {
        self.incognito
    }

    /// The keys of the excluded applications; names without a key are left out.
    pub fn excluded_apps(&self) -> (res: Vec<String>)
        ensures
            texts(res@) == app_keys(self.raw_excluded_apps()),
    {
        let mut out: Vec<String> = Vec::new();
        let ghost names = texts(self.excluded_apps@);
        let mut i: usize = 0;
        while i < self.excluded_apps.len()
            invariant
                i <= self.excluded_apps@.len(),
                names == texts(self.excluded_apps@),
                texts(out@) == app_keys(names.take(i as int)),
            decreases self.excluded_apps@.len() - i,
        {
            let key = app_key_of(self.excluded_apps[i].as_str());
            let ghost before = out@;
            proof {
                assert(names.take(i + 1).drop_last() =~= names.take(i as int));
                assert(names.take(i + 1).last() == self.excluded_apps@[i as int]@);
            }
            if !key.as_str().is_empty() {
                out.push(key);
                proof {
                    assert(texts(out@) =~= texts(before).push(key@));
                }
            }
            i += 1;
        }
        proof {
            assert(names.take(i as int) =~= names);
        }
        out
    }

    /// How many entries the history keeps: from 25 to 10 000.
    pub fn history_depth(&self) -> (res: u32)
        ensures
            res == clamped(self.raw_history_depth(), 25, 10_000),
    {
        clamp(self.history_depth, 25, 10_000)
    }

    /// The most bytes of a text entry: from 1 KiB to 64 MiB.
    pub fn max_text_bytes(&self) -> (res: usize)
        ensures
            res == clamped(self.raw_max_text_bytes(), 1024, 67_108_864),
    {
        clamp(self.max_text_bytes, 1024, 67_108_864) as usize
    }

    /// The most bytes of an image entry: from 1 KiB to 128 MiB.
    pub fn max_image_bytes(&self) -> (res: usize)
        ensures
            res == clamped(self.raw_max_image_bytes(), 1024, 134_217_728),
    {
        clamp(self.max_image_bytes, 1024, 134_217_728) as usize
    }

    /// Is the history to be cleared at the end of the session?
    pub fn clear_on_logout(&self) -> (res: bool)
        ensures
            res == self.raw_clear_on_logout(),
    {
        self.clear_on_logout
    }

    /// The settings in the form that capture goes by.
    pub fn snapshot(&self) -> (res: SettingsSnapshot)
        ensures
            res.incognito == self.raw_incognito(),
            res.history_depth == clamped(self.raw_history_depth(), 25, 10_000),
            res.max_text_bytes == clamped(self.raw_max_text_bytes(), 1024, 67_108_864),
            res.max_image_bytes == clamped(self.raw_max_image_bytes(), 1024, 134_217_728),
            res.clear_on_logout == self.raw_clear_on_logout(),
            texts(res.excluded_apps@) == app_keys(self.raw_excluded_apps()),
    {
        SettingsSnapshot {
            incognito: self.incognito(),
            history_depth: self.history_depth(),
            max_text_bytes: self.max_text_bytes(),
            max_image_bytes: self.max_image_bytes(),
            clear_on_logout: self.clear_on_logout(),
            excluded_apps: self.excluded_apps(),
        }
    }
}

/// The settings at one moment.
#[derive(Debug)]
pub struct SettingsSnapshot {
    pub incognito: bool,
    pub history_depth: u32,
    pub max_text_bytes: usize,
    pub max_image_bytes: usize,
    pub clear_on_logout: bool,
    pub excluded_apps: Vec<String>,
}

impl Clone for SettingsSnapshot {
    fn clone(&self) -> (res: Self)
        ensures
            res.same_as(self),
    {
        let excluded_apps = self.excluded_apps.clone();
        proof {
            assert(texts(excluded_apps@) =~= texts(self.excluded_apps@));
        }
        SettingsSnapshot {
            incognito: self.incognito,
            history_depth: self.history_depth,
            max_text_bytes: self.max_text_bytes,
            max_image_bytes: self.max_image_bytes,
            clear_on_logout: self.clear_on_logout,
            excluded_apps,
        }
    }
}

impl SettingsSnapshot {
    /// Do the two hold the same settings?
    pub open spec fn same_as(&self, other: &Self) -> bool {
        &&& self.incognito == other.incognito
        &&& self.history_depth == other.history_depth
        &&& self.max_text_bytes == other.max_text_bytes
        &&& self.max_image_bytes == other.max_image_bytes
        &&& self.clear_on_logout == other.clear_on_logout
        &&& texts(self.excluded_apps@) == texts(other.excluded_apps@)
    }

    /// Does the list of excluded applications hold `key`, which is not empty?
    pub open spec fn lists(&self, key: Seq<char>) -> bool {
        key.len() > 0 && texts(self.excluded_apps@).contains(key)
    }

    /// Is `key`, in the form in which names are compared, not empty and listed?
    pub fn is_key_excluded(&self, key: &str) -> (res: bool)
        ensures
            res == self.lists(key@),
    {
        let needle = to_chars(key);
        if needle.len() == 0 {
            return false;
        }
        let ghost names = texts(self.excluded_apps@);
        let mut i: usize = 0;
        while i < self.excluded_apps.len()
            invariant
                i <= self.excluded_apps@.len(),
                names == texts(self.excluded_apps@),
                needle@ == key@,
                needle@.len() > 0,
                forall|j: int| 0 <= j < i ==> names[j] != key@,
            decreases self.excluded_apps@.len() - i,
        {
            let name = to_chars(self.excluded_apps[i].as_str());
            if same_chars(name.as_slice(), needle.as_slice()) {
                proof {
                    assert(names[i as int] == key@);
                }
                return true;
            }
            i += 1;
        }
        false
    }

    /// Is nothing to be captured from this application?
    pub fn is_excluded(&self, source_app: &str) -> (res: bool)
        ensures
            res == self.lists(app_key(source_app@)),
            trimmed(source_app@).len() == 0 ==> !res,
    {
        let key = app_key_of(source_app);
        self.is_key_excluded(key.as_str())
    }
}

/// An application is excluded exactly where some configured name has the same
/// key, and that key is not empty.
pub proof fn law_exclusion_by_key(names: Seq<Seq<char>>, source_app: Seq<char>)
    ensures
        app_key(source_app).len() > 0 && app_keys(names).contains(app_key(source_app)) <==> (
        app_key(source_app).len() > 0 && exists|i: int|
            0 <= i < names.len() && app_key(#[trigger] names[i]) == app_key(source_app)),
    decreases names.len(),
{
    let key = app_key(source_app);
    if names.len() > 0 {
        let rest = names.drop_last();
        law_exclusion_by_key(rest, source_app);
        let last = app_key(names.last());
        let head = app_keys(rest);
        if key.len() > 0 && app_keys(names).contains(key) {
            if last.len() > 0 {
                let j = choose|j: int| 0 <= j < head.push(last).len() && head.push(last)[j] == key;
                if j < head.len() {
                    assert(head[j] == key);
                    let i = choose|i: int|
                        0 <= i < rest.len() && app_key(#[trigger] rest[i]) == key;
                    assert(app_key(names[i]) == key);
                } else {
                    assert(app_key(names[names.len() - 1]) == key);
                }
            } else {
                let i = choose|i: int| 0 <= i < rest.len() && app_key(#[trigger] rest[i]) == key;
                assert(app_key(names[i]) == key);
            }
        }
        if key.len() > 0 && exists|i: int|
            0 <= i < names.len() && app_key(#[trigger] names[i]) == key {
            let i = choose|i: int| 0 <= i < names.len() && app_key(#[trigger] names[i]) == key;
            if i < rest.len() {
                assert(app_key(rest[i]) == key);
                let j = choose|j: int| 0 <= j < head.len() && head[j] == key;
                assert(app_keys(names)[j] == key);
            } else {
                assert(app_keys(names)[head.len() as int] == key);
            }
        }
    }
}

} // verus!
