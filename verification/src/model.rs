//! What a clipboard entry is: its kind, its text and how it is previewed.

use vstd::prelude::*;
use vstd::utf8::*;

use crate::decimal::{decimal, decimal_string};
use crate::settings::SettingsSnapshot;
use crate::text::{
    collapse, collapsed, from_chars, lines, lines_of, lower_chars, lowered, same,
    same_ignoring_case, to_chars, trim, trimmed, views,
};

verus! {

/// The MIME types of text.
pub const TEXT_MIMES: [&'static str; 5] = [
    "text/plain;charset=utf-8",
    "text/plain",
    "UTF8_STRING",
    "STRING",
    "text/plain;charset=utf-8",
];

/// The MIME types of images.
pub const IMAGE_MIMES: [&'static str; 2] = ["image/png", "image/jpeg"];

/// The MIME type of a list of files.
pub const FILES_MIME: &'static str = "x-special/gnome-copied-files";

/// The MIME type by which a password manager marks what it copies.
pub const SENSITIVE_MIME: &'static str = "x-kde-passwordManagerHint";

/// The kinds of entries.
#[derive(Clone, Copy, Debug, PartialEq, Eq, Structural)]
pub enum Kind {
    Text,
    Image,
    Files,
}

/// The number by which a kind is stored.
pub open spec fn kind_number(kind: Kind) -> i64 {
    match kind {
        Kind::Text => 0,
        Kind::Image => 1,
        Kind::Files => 2,
    }
}

/// The kind that is stored by a number.
pub open spec fn kind_of_number(value: i64) -> Option<Kind> {
    if value == 0 {
        Some(Kind::Text)
    } else if value == 1 {
        Some(Kind::Image)
    } else if value == 2 {
        Some(Kind::Files)
    } else {
        None
    }
}

/// The kind that a stored number stands for; text, where it stands for none.
pub open spec fn stored_kind(number: i64) -> Kind {
    match kind_of_number(number) {
        Some(kind) => kind,
        None => Kind::Text,
    }
}

/// The name of the icon for entries of a kind.
pub open spec fn kind_icon(kind: Kind) -> Seq<char> {
    match kind {
        Kind::Text => "format-text-symbolic"@,
        Kind::Image => "image-x-generic-symbolic"@,
        Kind::Files => "folder-symbolic"@,
    }
}

impl Kind {
    /// The number by which the kind is stored.
    pub fn as_i64(self) -> (res: i64)
        ensures
            res == kind_number(self),
    {
        match self {
            Kind::Text => 0,
            Kind::Image => 1,
            Kind::Files => 2,
        }
    }

    /// The kind that is stored by `value`, if one is.
    pub fn from_i64(value: i64) -> (res: Option<Self>)
        ensures
            res == kind_of_number(value),
    {
        match value {
            0 => Some(Kind::Text),
            1 => Some(Kind::Image),
            2 => Some(Kind::Files),
            _ => None,
        }
    }

    /// The name of the icon for entries of this kind.
    pub fn icon_name(self) -> (res: &'static str)
        ensures
            res@ == kind_icon(self),
    {
        match self {
            Kind::Text => "format-text-symbolic",
            Kind::Image => "image-x-generic-symbolic",
            Kind::Files => "folder-symbolic",
        }
    }
}

/// A kind is read back from the number by which it is stored, and no other number
/// stands for it.
pub proof fn law_kind_round_trip(kind: Kind, value: i64)
    ensures
        kind_of_number(kind_number(kind)) == Some(kind),
        kind_of_number(value) == Some(kind) ==> value == kind_number(kind),
{
}

/// A MIME type without white space around it and in lower case.
pub open spec fn mime_key(mime: Seq<char>) -> Seq<char> {
    lowered(trimmed(mime))
}

/// Does `list` hold the text?
pub open spec fn listed(list: Seq<&str>, text: Seq<char>) -> bool {
    exists|i: int| 0 <= i < list.len() && (#[trigger] list[i])@ == text
}

/// The kind of entry that content of a MIME type makes.
pub open spec fn classified(mime: Seq<char>) -> Option<Kind> {
    let key = mime_key(mime);
    if listed(TEXT_MIMES@, key) {
        Some(Kind::Text)
    } else if listed(IMAGE_MIMES@, key) {
        Some(Kind::Image)
    } else if key == FILES_MIME@ {
        Some(Kind::Files)
    } else {
        None
    }
}

fn in_list(list: &[&str], text: &[char]) -> (res: bool)
    ensures
        res == listed(list@, text@),
{
    let mut i: usize = 0;
    while i < list.len()
        invariant
            i <= list@.len(),
            forall|j: int| 0 <= j < i ==> (#[trigger] list@[j])@ != text@,
        decreases list@.len() - i,
    {
        if same(text, list[i]) {
            return true;
        }
        i += 1;
    }
    false
}

/// The kind of entry that content of this MIME type makes, if it makes one.
pub fn classify(mime: &str) -> (res: Option<Kind>)
    ensures
        res == classified(mime@),
{
    let chars = to_chars(mime);
    let key = lower_chars(trim(chars.as_slice()));
    if in_list(&TEXT_MIMES, key.as_slice()) {
        Some(Kind::Text)
    } else if in_list(&IMAGE_MIMES, key.as_slice()) {
        Some(Kind::Image)
    } else if same(key.as_slice(), FILES_MIME) {
        Some(Kind::Files)
    } else {
        None
    }
}

/// Does the MIME type mark secret content?
pub open spec fn sensitive(mime: Seq<char>) -> bool {
    mime_key(mime) == lowered(SENSITIVE_MIME@)
}

/// Does the MIME type mark secret content?
pub fn is_sensitive(mime: &str) -> (res: bool)
    ensures
        res == sensitive(mime@),
{
    let chars = to_chars(mime);
    let hint = to_chars(SENSITIVE_MIME);
    same_ignoring_case(trim(chars.as_slice()), hint.as_slice())
}

/// Content that is marked as secret makes no entry of any kind.
pub proof fn law_sensitive_is_not_classified(mime: Seq<char>)
    requires
        sensitive(mime),
    ensures
        classified(mime) is None,
{
    reveal_strlit("text/plain;charset=utf-8");
    reveal_strlit("text/plain");
    reveal_strlit("UTF8_STRING");
    reveal_strlit("STRING");
    reveal_strlit("image/png");
    reveal_strlit("image/jpeg");
    reveal_strlit("x-special/gnome-copied-files");
    reveal_strlit("x-kde-passwordManagerHint");
    assert(mime_key(mime).len() == 25);
}

/// What `String::from_utf8_lossy` makes of bytes that are not UTF-8.
pub uninterp spec fn lossy(bytes: Seq<u8>) -> Seq<char>;

/// The text that bytes stand for: what they encode, where they are UTF-8.
pub open spec fn text_in(bytes: Seq<u8>) -> Seq<char> {
    if valid_utf8(bytes) {
        decode_utf8(bytes)
    } else {
        lossy(bytes)
    }
}

/// `String::from_utf8_lossy` reads bytes as UTF-8 and puts replacement characters
/// where they are not. Bytes that are UTF-8 give the text that they encode. For
/// other bytes the result depends on the bytes alone; where the replacements fall
/// is not said.
#[verifier::external_body]
pub(crate) fn to_text(bytes: &[u8]) -> (res: String)
    ensures
        valid_utf8(bytes@) ==> res@ == decode_utf8(bytes@),
        !valid_utf8(bytes@) ==> res@ == lossy(bytes@),
{
    String::from_utf8_lossy(bytes).into_owned()
}

/// The text by which an entry is found: that of texts and of lists of files.
pub open spec fn searchable(kind: Kind, data: Seq<u8>) -> Option<Seq<char>> {
    match kind {
        Kind::Image => None,
        _ => Some(text_in(data)),
    }
}

/// The view of an optional string.
pub open spec fn optional_text(text: Option<String>) -> Option<Seq<char>> {
    match text {
        Some(string) => Some(string@),
        None => None,
    }
}

/// The text by which an entry is found; images have none.
pub fn text_of(kind: Kind, data: &[u8]) -> (res: Option<String>)
    ensures
        optional_text(res) == searchable(kind, data@),
{
    match kind {
        Kind::Text | Kind::Files => Some(to_text(data)),
        Kind::Image => None,
    }
}

/// The most bytes that an entry of the kind may have.
pub open spec fn byte_cap(kind: Kind, settings: &SettingsSnapshot) -> usize {
    match kind {
        Kind::Text => settings.max_text_bytes,
        Kind::Image => settings.max_image_bytes,
        Kind::Files => 65_536,
    }
}

/// The most bytes that an entry of this kind may have.
pub fn max_bytes_for(kind: Kind, settings: &SettingsSnapshot) -> (res: usize)
    ensures
        res == byte_cap(kind, settings),
{
    match kind {
        Kind::Text => settings.max_text_bytes,
        Kind::Image => settings.max_image_bytes,
        Kind::Files => 65_536,
    }
}

/// The first `limit` characters of a text, the last of them an ellipsis where the
/// text is longer.
pub open spec fn shortened(text: Seq<char>, limit: nat) -> Seq<char> {
    if text.len() <= limit {
        text
    } else {
        text.take(if limit == 0 { 0 } else { limit - 1 }).push('\u{2026}')
    }
}

/// Shortens a text to `limit` characters.
pub fn truncate(text: &[char], limit: usize) -> (res: String)
    ensures
        res@ == shortened(text@, limit as nat),
{
    if text.len() <= limit {
        from_chars(text)
    } else {
        let keep: usize = limit.saturating_sub(1);
        let mut out = from_chars(vstd::slice::slice_subrange(text, 0, keep));
        out.push('\u{2026}');
        proof {
            assert(out@ =~= shortened(text@, limit as nat));
        }
        out
    }
}

/// The first of the lines that is not blank, without the white space around it;
/// nothing where all are blank.
pub open spec fn first_written(lines: Seq<Seq<char>>) -> Seq<char>
    decreases lines.len(),
{
    if lines.len() == 0 {
        Seq::empty()
    } else if trimmed(lines[0]).len() > 0 {
        trimmed(lines[0])
    } else {
        first_written(lines.skip(1))
    }
}

/// The preview of a text: the words of its first line that is not blank, in at
/// most 120 characters.
pub open spec fn text_preview(text: Seq<char>) -> Seq<char> {
    shortened(collapsed(first_written(lines_of(text))), 120)
}

/// The preview of a text.
pub fn preview_text(text: &str) -> (res: String)
    ensures
        res@ == text_preview(text@),
{
    let chars = to_chars(text);
    let all = lines(chars.as_slice());
    let ghost whole = lines_of(text@);
    let mut i: usize = 0;
    proof {
        assert(whole.skip(0) =~= whole);
    }
    while i < all.len()
        invariant
            i <= all@.len(),
            views(all@) == whole,
            whole == lines_of(text@),
            first_written(whole) == first_written(whole.skip(i as int)),
        decreases all@.len() - i,
    {
        let line = trim(all[i]);
        proof {
            assert(whole[i as int] == all@[i as int]@);
            assert(whole.skip(i as int).skip(1) =~= whole.skip(i + 1));
        }
        if line.len() > 0 {
            let words = collapse(line);
            return truncate(words.as_slice(), 120);
        }
        i += 1;
    }
    let nothing: Vec<char> = Vec::new();
    let words = collapse(nothing.as_slice());
    proof {
        assert(nothing@ =~= first_written(whole));
    }
    truncate(words.as_slice(), 120)
}

/// The lines that are not blank.
pub open spec fn written(lines: Seq<Seq<char>>) -> Seq<Seq<char>>
    decreases lines.len(),
{
    if lines.len() == 0 {
        Seq::empty()
    } else {
        let head = written(lines.drop_last());
        if trimmed(lines.last()).len() > 0 {
            head.push(lines.last())
        } else {
            head
        }
    }
}

/// The position after the last slash, or 0 where there is none.
pub open spec fn name_start(path: Seq<char>) -> nat
    decreases path.len(),
{
    if path.len() == 0 {
        0
    } else if path.last() == '/' {
        path.len()
    } else {
        name_start(path.drop_last())
    }
}

/// The last component of a path, or the whole path where that is empty.
pub open spec fn file_name(path: Seq<char>) -> Seq<char> {
    let inner = trimmed(path);
    let name = inner.skip(name_start(inner) as int);
    if name.len() == 0 {
        inner
    } else {
        name
    }
}

/// The last component of a path, or the whole path where that is empty.
pub fn basename(path: &[char]) -> (res: String)
    ensures
        res@ == file_name(path@),
{
    let inner = trim(path);
    let mut start: usize = inner.len();
    proof {
        assert(inner@.take(start as int) =~= inner@);
    }
    while start > 0 && inner[start - 1] != '/'
        invariant
            start <= inner@.len(),
            name_start(inner@) == name_start(inner@.take(start as int)),
        decreases start,
    {
        proof {
            assert(inner@.take(start as int).drop_last() =~= inner@.take(start - 1));
        }
        start -= 1;
    }
    proof {
        assert(start > 0 ==> inner@.take(start as int).last() == '/');
        assert(name_start(inner@) == start);
        assert(inner@.skip(start as int) =~= inner@.subrange(start as int, inner@.len() as int));
    }
    if start == inner.len() {
        from_chars(inner)
    } else {
        from_chars(vstd::slice::slice_subrange(inner, start, inner.len()))
    }
}

/// How many lines stand before the first file of a copied list: one, which says
/// that the files were copied or cut, or none.
pub open spec fn verb_lines(lines: Seq<Seq<char>>) -> nat {
    if lines.len() > 0 && (trimmed(lines[0]) == "copy"@ || trimmed(lines[0]) == "cut"@) {
        1
    } else {
        0
    }
}

/// The preview of a list of files: the name of the first, and how many follow.
pub open spec fn files_preview(data: Seq<char>) -> Seq<char> {
    let lines = written(lines_of(data));
    let at = verb_lines(lines) as int;
    if lines.len() <= at {
        "No files"@
    } else {
        let name = file_name(lines[at]);
        let extra = lines.len() - at - 1;
        if extra == 0 {
            name
        } else {
            name + " +"@ + decimal(extra as nat) + " more"@
        }
    }
}

/// The preview of a list of files.
pub fn preview_files(data: &str) -> (res: String)
    ensures
        res@ == files_preview(data@),
{
    let chars = to_chars(data);
    let all = lines(chars.as_slice());
    let ghost whole = lines_of(data@);
    let mut kept: Vec<&[char]> = Vec::new();
    let mut i: usize = 0;
    while i < all.len()
        invariant
            i <= all@.len(),
            views(all@) == whole,
            views(kept@) == written(whole.take(i as int)),
        decreases all@.len() - i,
    {
        let line = all[i];
        let ghost before = kept@;
        proof {
            assert(whole.take(i + 1).drop_last() =~= whole.take(i as int));
            assert(whole.take(i + 1).last() == line@);
        }
        if trim(line).len() > 0 {
            kept.push(line);
            proof {
                assert(views(kept@) =~= views(before).push(line@));
            }
        }
        i += 1;
    }
    let ghost lines = written(whole);
    proof {
        assert(whole.take(i as int) =~= whole);
        assert(views(kept@) == lines);
        assert(kept@.len() == lines.len());
    }
    let mut at: usize = 0;
    if kept.len() > 0 {
        let verb = trim(kept[0]);
        proof {
            assert(lines[0] == kept@[0]@);
        }
        if same(verb, "copy") || same(verb, "cut") {
            at = 1;
        }
    }
    if kept.len() <= at {
        return "No files".to_owned();
    }
    proof {
        assert(lines[at as int] == kept@[at as int]@);
    }
    let mut out = basename(kept[at]);
    let extra: usize = kept.len() - at - 1;
    if extra > 0 {
        out.append(" +");
        let count = decimal_string(extra as u64);
        out.append(count.as_str());
        out.append(" more");
    }
    out
}

/// How a list entry shows content of the kind.
pub open spec fn preview_of(kind: Kind, data: Seq<u8>) -> Seq<char> {
    match kind {
        Kind::Text => text_preview(text_in(data)),
        Kind::Files => files_preview(text_in(data)),
        Kind::Image => decimal(((data.len() + 1023) / 1024) as nat) + " KB image"@,
    }
}

/// How a list entry shows this content.
pub fn preview(kind: Kind, data: &[u8]) -> (res: String)
    ensures
        res@ == preview_of(kind, data@),
{
    match kind {
        Kind::Text => {
            let text = to_text(data);
            preview_text(text.as_str())
        },
        Kind::Files => {
            let text = to_text(data);
            preview_files(text.as_str())
        },
        Kind::Image => {
            let kib: usize = if data.len() % 1024 == 0 {
                data.len() / 1024
            } else {
                data.len() / 1024 + 1
            };
            let mut out = decimal_string(kib as u64);
            out.append(" KB image");
            out
        },
    }
}

/// A text preview has at most 120 characters.
pub proof fn law_text_preview_is_short(text: Seq<char>)
    ensures
        text_preview(text).len() <= 120,
{
}

/// What a list shows of an entry.
#[derive(Clone, Debug)]
pub struct EntryMeta {
    pub id: i64,
    pub kind: Kind,
    pub mime: String,
    pub preview: String,
    pub source: String,
    pub ts: i64,
    pub pinned: bool,
}

/// An entry with its content.
#[derive(Clone, Debug)]
pub struct Entry {
    pub meta: EntryMeta,
    pub data: Vec<u8>,
}

} // verus!
