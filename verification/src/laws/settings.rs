//! Laws on the settings and on excluded applications.

use vstd::prelude::*;

use crate::settings::{
    app_key, app_keys, law_exclusion_by_key, lowercase, texts, Settings, SettingsSnapshot,
};
use crate::text::trimmed;

verus! {

/// The settings count as they are configured, but the depth is at least 25 and at
/// most 10 000, and the caps are at least 1 KiB and at most 64 MiB for texts and
/// 128 MiB for pictures.
pub proof fn law_settings_count_within_bounds(
    incognito: bool,
    apps: Vec<String>,
    depth: u32,
    text_bytes: u32,
    image_bytes: u32,
    clear: bool,
    settings: Settings,
    res: SettingsSnapshot,
)
    requires
        call_ensures(
            Settings::new,
            (incognito, apps, depth, text_bytes, image_bytes, clear),
            settings,
        ),
        call_ensures(Settings::snapshot, (&settings,), res),
    ensures
        res.incognito == incognito,
        res.clear_on_logout == clear,
        25 <= res.history_depth && res.history_depth <= 10_000,
        25 <= depth && depth <= 10_000 ==> res.history_depth == depth,
        depth < 25 ==> res.history_depth == 25,
        depth > 10_000 ==> res.history_depth == 10_000,
        1024 <= res.max_text_bytes && res.max_text_bytes <= 64 * 1024 * 1024,
        1024 <= text_bytes && text_bytes <= 64 * 1024 * 1024 ==> res.max_text_bytes == text_bytes,
        text_bytes < 1024 ==> res.max_text_bytes == 1024,
        text_bytes > 64 * 1024 * 1024 ==> res.max_text_bytes == 64 * 1024 * 1024,
        1024 <= res.max_image_bytes && res.max_image_bytes <= 128 * 1024 * 1024,
        1024 <= image_bytes && image_bytes <= 128 * 1024 * 1024 ==> res.max_image_bytes
            == image_bytes,
        image_bytes < 1024 ==> res.max_image_bytes == 1024,
        image_bytes > 128 * 1024 * 1024 ==> res.max_image_bytes == 128 * 1024 * 1024,
{
}

/// Each setting that is read alone is the one in the snapshot.
pub proof fn law_settings_agree_with_snapshot(
    settings: &Settings,
    res: SettingsSnapshot,
    incognito: bool,
    apps: Vec<String>,
    depth: u32,
    text_bytes: usize,
    image_bytes: usize,
    clear: bool,
)
    requires
        call_ensures(Settings::snapshot, (settings,), res),
        call_ensures(Settings::incognito, (settings,), incognito),
        call_ensures(Settings::excluded_apps, (settings,), apps),
        call_ensures(Settings::history_depth, (settings,), depth),
        call_ensures(Settings::max_text_bytes, (settings,), text_bytes),
        call_ensures(Settings::max_image_bytes, (settings,), image_bytes),
        call_ensures(Settings::clear_on_logout, (settings,), clear),
    ensures
        res.incognito == incognito,
        res.history_depth == depth,
        res.max_text_bytes == text_bytes,
        res.max_image_bytes == image_bytes,
        res.clear_on_logout == clear,
        res.excluded_apps@.len() == apps@.len(),
        forall|i: int| 0 <= i < apps@.len() ==> (#[trigger] apps@[i])@ == res.excluded_apps@[i]@,
{
    let left = texts(res.excluded_apps@);
    let right = texts(apps@);
    assert(left.len() == res.excluded_apps@.len() && right.len() == apps@.len());
    assert forall|i: int| 0 <= i < apps@.len() implies (#[trigger] apps@[i])@
        == res.excluded_apps@[i]@ by {
        assert(left[i] == right[i]);
    }
}

/// A copy of a snapshot holds the same settings.
pub proof fn law_snapshot_copy(settings: &SettingsSnapshot, res: SettingsSnapshot)
    requires
        call_ensures(SettingsSnapshot::clone, (settings,), res),
    ensures
        res.incognito == settings.incognito,
        res.history_depth == settings.history_depth,
        res.max_text_bytes == settings.max_text_bytes,
        res.max_image_bytes == settings.max_image_bytes,
        res.clear_on_logout == settings.clear_on_logout,
        res.excluded_apps@.len() == settings.excluded_apps@.len(),
        forall|i: int|
            0 <= i < res.excluded_apps@.len() ==> (#[trigger] res.excluded_apps@[i])@
                == settings.excluded_apps@[i]@,
{
    let left = texts(res.excluded_apps@);
    let right = texts(settings.excluded_apps@);
    assert(left.len() == res.excluded_apps@.len());
    assert(right.len() == settings.excluded_apps@.len());
    assert forall|i: int| 0 <= i < res.excluded_apps@.len() implies (
    #[trigger] res.excluded_apps@[i])@ == settings.excluded_apps@[i]@ by {
        assert(left[i] == right[i]);
    }
}

/// The excluded applications are listed in the order in which they are configured,
/// each without white space around it and in lower case; blank ones are left out.
pub proof fn law_excluded_applications_in_order(
    incognito: bool,
    apps: Vec<String>,
    fewer: Vec<String>,
    depth: u32,
    text_bytes: u32,
    image_bytes: u32,
    clear: bool,
    settings: Settings,
    smaller: Settings,
    res: Vec<String>,
    before: Vec<String>,
)
    requires
        apps@.len() > 0,
        fewer@ == apps@.take(apps@.len() - 1),
        call_ensures(
            Settings::new,
            (incognito, apps, depth, text_bytes, image_bytes, clear),
            settings,
        ),
        call_ensures(
            Settings::new,
            (incognito, fewer, depth, text_bytes, image_bytes, clear),
            smaller,
        ),
        call_ensures(Settings::excluded_apps, (&settings,), res),
        call_ensures(Settings::excluded_apps, (&smaller,), before),
    ensures
        fewer@.len() == 0 ==> before@.len() == 0,
        forall|i: int| 0 <= i < before@.len() ==> (#[trigger] before@[i])@ == res@[i]@,
        ({
            let name = trimmed(apps@[apps@.len() - 1]@);
            if name.len() == 0 || lowercase(name).len() == 0 {
                res@.len() == before@.len()
            } else {
                res@.len() == before@.len() + 1 && res@[before@.len() as int]@ == lowercase(name)
            }
        }),
{
    let all = texts(apps@);
    let less = texts(fewer@);
    assert(all.drop_last() =~= less);
    assert(all.last() == apps@[apps@.len() - 1]@);
    let right = texts(res@);
    let left = texts(before@);
    assert(right == app_keys(all) && left == app_keys(less));
    assert(right.len() == res@.len() && left.len() == before@.len());
    assert forall|i: int| 0 <= i < before@.len() implies (#[trigger] before@[i])@ == res@[i]@ by {
        assert(left[i] == before@[i]@);
        assert(right[i] == left[i]);
    }
    if right.len() > left.len() {
        assert(right[left.len() as int] == res@[left.len() as int]@);
    }
}

/// An application is excluded exactly where one of the configured names is its own,
/// but for white space around it and case; one without a name never is.
pub proof fn law_excluded_by_name(
    incognito: bool,
    apps: Vec<String>,
    depth: u32,
    text_bytes: u32,
    image_bytes: u32,
    clear: bool,
    settings: Settings,
    snapshot: SettingsSnapshot,
    source: &str,
    res: bool,
)
    requires
        call_ensures(
            Settings::new,
            (incognito, apps, depth, text_bytes, image_bytes, clear),
            settings,
        ),
        call_ensures(Settings::snapshot, (&settings,), snapshot),
        call_ensures(SettingsSnapshot::is_excluded, (&snapshot, source), res),
    ensures
        res <==> {
            &&& trimmed(source@).len() > 0
            &&& lowercase(trimmed(source@)).len() > 0
            &&& exists|i: int|
                0 <= i < apps@.len() && trimmed((#[trigger] apps@[i])@).len() > 0 && lowercase(
                    trimmed(apps@[i]@),
                ) == lowercase(trimmed(source@))
        },
{
    let names = texts(apps@);
    law_exclusion_by_key(names, source@);
    let key = app_key(source@);
    if res {
        let i = choose|i: int| 0 <= i < names.len() && app_key(#[trigger] names[i]) == key;
        assert(names[i] == apps@[i]@);
    }
    if trimmed(source@).len() > 0 && lowercase(trimmed(source@)).len() > 0 && exists|i: int|
        0 <= i < apps@.len() && trimmed((#[trigger] apps@[i])@).len() > 0 && lowercase(
            trimmed(apps@[i]@),
        ) == lowercase(trimmed(source@)) {
        let i = choose|i: int|
            0 <= i < apps@.len() && trimmed((#[trigger] apps@[i])@).len() > 0 && lowercase(
                trimmed(apps@[i]@),
            ) == lowercase(trimmed(source@));
        assert(names[i] == apps@[i]@);
        assert(app_key(names[i]) == key);
    }
}

/// A name in the form in which names are compared is excluded exactly where the list
/// has it; the empty one never is.
pub proof fn law_excluded_by_key(settings: &SettingsSnapshot, key: &str, res: bool)
    requires
        call_ensures(SettingsSnapshot::is_key_excluded, (settings, key), res),
    ensures
        res <==> key@.len() > 0 && exists|i: int|
            0 <= i < settings.excluded_apps@.len() && (#[trigger] settings.excluded_apps@[i])@
                == key@,
{
    let known = texts(settings.excluded_apps@);
    if res {
        let i = choose|i: int| 0 <= i < known.len() && known[i] == key@;
        assert(settings.excluded_apps@[i]@ == key@);
    }
    if exists|i: int|
        0 <= i < settings.excluded_apps@.len() && (#[trigger] settings.excluded_apps@[i])@ == key@ {
        let i = choose|i: int|
            0 <= i < settings.excluded_apps@.len() && (#[trigger] settings.excluded_apps@[i])@
                == key@;
        assert(known[i] == key@);
    }
}

} // verus!
