//! Laws on content: its kind, its text, its size and its preview.

use vstd::prelude::*;
use vstd::utf8::{decode_utf8, valid_utf8};

use crate::decimal::decimal_string;
use crate::laws::text::{
    is_bare, is_blank, is_one_line, is_word, lemma_first_line, lemma_first_word, lemma_no_words,
    lemma_one_line, lemma_trim_split, lemma_trimmed, lemma_words_of_trimmed,
    lemma_words_without_cr,
};
use crate::model::{
    basename, classify, file_name, first_written, is_sensitive, lossy, max_bytes_for, name_start,
    preview, preview_files, preview_text, text_of, truncate, written, Kind,
};
use crate::settings::SettingsSnapshot;
use crate::text::{
    collapse, is_white, joined, lines, lines_of, lower, lowered, trim, trimmed, views,
    without_cr, words_of,
};

verus! {

/// Is the text this one, but for the case of ASCII letters?
pub open spec fn reads(text: Seq<char>, name: Seq<char>) -> bool {
    text.len() == name.len() && forall|i: int|
        0 <= i < text.len() ==> lower(#[trigger] text[i]) == lower(name[i])
}

/// Texts read the same where they are the same in lower case.
pub proof fn lemma_reads(text: Seq<char>, name: Seq<char>)
    ensures
        reads(text, name) <==> lowered(text) == lowered(name),
{
    if lowered(text) == lowered(name) {
        assert(lowered(text).len() == lowered(name).len());
        assert forall|i: int| 0 <= i < text.len() implies lower(#[trigger] text[i]) == lower(
            name[i],
        ) by {
            assert(lowered(text)[i] == lowered(name)[i]);
        }
    }
    if reads(text, name) {
        assert(lowered(text) =~= lowered(name));
    }
}

/// Kinds are stored under the numbers 0, 1 and 2, in this order: text, image, files;
/// no other number stands for a kind.
pub proof fn law_kind_numbers(kind: Kind, number: i64, value: i64, read: Option<Kind>)
    requires
        call_ensures(Kind::as_i64, (kind,), number),
        call_ensures(Kind::from_i64, (value,), read),
    ensures
        number == match kind {
            Kind::Text => 0int,
            Kind::Image => 1,
            Kind::Files => 2,
        },
        read == Some(kind) <==> value == number,
        read is None <==> value < 0 || value > 2,
{
}

/// The kinds have three different icons.
pub proof fn law_icons(kind: Kind, icon: &'static str)
    requires
        call_ensures(Kind::icon_name, (kind,), icon),
    ensures
        icon@ == match kind {
            Kind::Text => "format-text-symbolic"@,
            Kind::Image => "image-x-generic-symbolic"@,
            Kind::Files => "folder-symbolic"@,
        },
{
}

/// Content is text where its type is plain text, with or without the UTF-8 charset,
/// an image where it is PNG or JPEG, and a list of files where it is that of copied
/// files; anything else is not captured. White space around the type and the case
/// of its letters do not count.
pub proof fn law_classification(
    mime: &str,
    before: Seq<char>,
    name: Seq<char>,
    after: Seq<char>,
    res: Option<Kind>,
)
    requires
        mime@ == before + name + after,
        is_blank(before),
        is_blank(after),
        is_bare(name),
        call_ensures(classify, (mime,), res),
    ensures
        res == Some(Kind::Text) <==> reads(name, "text/plain"@) || reads(
            name,
            "text/plain;charset=utf-8"@,
        ),
        res == Some(Kind::Image) <==> reads(name, "image/png"@) || reads(name, "image/jpeg"@),
        res == Some(Kind::Files) <==> reads(name, "x-special/gnome-copied-files"@),
{
    lemma_trimmed(before, name, after);
    reveal_strlit("text/plain;charset=utf-8");
    reveal_strlit("text/plain");
    reveal_strlit("UTF8_STRING");
    reveal_strlit("STRING");
    reveal_strlit("image/png");
    reveal_strlit("image/jpeg");
    reveal_strlit("x-special/gnome-copied-files");
    let key = lowered(name);
    assert(key.len() > 0 ==> key[0] == lower(name[0]));
    assert(key != "UTF8_STRING"@) by {
        if key == "UTF8_STRING"@ {
            assert("UTF8_STRING"@[0] == 'U');
            assert(lower(name[0]) == 'U');
        }
    }
    assert(key != "STRING"@) by {
        if key == "STRING"@ {
            assert("STRING"@[0] == 'S');
            assert(lower(name[0]) == 'S');
        }
    }
    assert(lowered("text/plain;charset=utf-8"@) =~= "text/plain;charset=utf-8"@);
    assert(lowered("text/plain"@) =~= "text/plain"@);
    assert(lowered("image/png"@) =~= "image/png"@);
    assert(lowered("image/jpeg"@) =~= "image/jpeg"@);
    assert(lowered("x-special/gnome-copied-files"@) =~= "x-special/gnome-copied-files"@);
    lemma_reads(name, "text/plain;charset=utf-8"@);
    lemma_reads(name, "text/plain"@);
    lemma_reads(name, "image/png"@);
    lemma_reads(name, "image/jpeg"@);
    lemma_reads(name, "x-special/gnome-copied-files"@);
    let texts = crate::model::TEXT_MIMES@;
    let images = crate::model::IMAGE_MIMES@;
    assert(texts[0]@ == "text/plain;charset=utf-8"@);
    assert(texts[1]@ == "text/plain"@);
    assert(images[0]@ == "image/png"@);
    assert(images[1]@ == "image/jpeg"@);
    assert("text/plain"@.len() == 10);
    assert("text/plain;charset=utf-8"@.len() == 24);
    assert("image/png"@.len() == 9);
    assert("image/jpeg"@.len() == 10);
    assert("image/jpeg"@[0] == 'i' && "text/plain"@[0] == 't');
    assert("x-special/gnome-copied-files"@.len() == 28);
}

/// Content is marked as secret by the password manager hint, with or without white
/// space around it and in whatever case.
pub proof fn law_secret_hint(
    mime: &str,
    before: Seq<char>,
    name: Seq<char>,
    after: Seq<char>,
    res: bool,
)
    requires
        mime@ == before + name + after,
        is_blank(before),
        is_blank(after),
        is_bare(name),
        call_ensures(is_sensitive, (mime,), res),
    ensures
        res <==> reads(name, "x-kde-passwordManagerHint"@),
{
    lemma_trimmed(before, name, after);
    lemma_reads(name, "x-kde-passwordManagerHint"@);
}

/// The text that bytes are read as: what they encode, where they are UTF-8, and with
/// replacement characters where they are not.
pub open spec fn read_as(bytes: Seq<u8>) -> Seq<char> {
    if valid_utf8(bytes) {
        decode_utf8(bytes)
    } else {
        lossy(bytes)
    }
}

/// A text, or a list of files, is found by all that its bytes encode; a picture is
/// found by nothing.
pub proof fn law_found_by_whole_content(kind: Kind, data: &[u8], res: Option<String>)
    requires
        call_ensures(text_of, (kind, data), res),
    ensures
        kind == Kind::Image <==> res is None,
        kind != Kind::Image && valid_utf8(data@) ==> res->Some_0@ == decode_utf8(data@),
        kind != Kind::Image && !valid_utf8(data@) ==> res->Some_0@ == lossy(data@),
{
}

/// The text that content is found by depends on its bytes alone: it is the same for
/// a text and for a list of files.
pub proof fn law_found_by_bytes(
    data: &[u8],
    as_text: Option<String>,
    as_files: Option<String>,
)
    requires
        call_ensures(text_of, (Kind::Text, data), as_text),
        call_ensures(text_of, (Kind::Files, data), as_files),
    ensures
        as_text is Some,
        as_files is Some,
        as_text->Some_0@ == as_files->Some_0@,
{
}

/// Texts and pictures are as large as the settings allow, lists of files 64 KiB.
pub proof fn law_caps(kind: Kind, settings: &SettingsSnapshot, res: usize)
    requires
        call_ensures(max_bytes_for, (kind, settings), res),
    ensures
        kind == Kind::Text ==> res == settings.max_text_bytes,
        kind == Kind::Image ==> res == settings.max_image_bytes,
        kind == Kind::Files ==> res == 64 * 1024,
{
}

/// A text that fits stays as it is; of a longer one the first characters stay, and
/// an ellipsis is the last of as many as fit.
pub proof fn law_truncation(text: &[char], limit: usize, res: String)
    requires
        call_ensures(truncate, (text, limit), res),
    ensures
        text@.len() <= limit ==> res@ == text@,
        text@.len() > limit && limit > 0 ==> {
            &&& res@.len() == limit
            &&& res@[limit - 1] == '\u{2026}'
            &&& forall|i: int| 0 <= i < limit - 1 ==> #[trigger] res@[i] == text@[i]
        },
        text@.len() > limit && limit == 0 ==> res@ == seq!['\u{2026}'],
{
    if text@.len() > limit && limit == 0 {
        assert(text@.take(0).push('\u{2026}') =~= seq!['\u{2026}']);
    }
}

proof fn lemma_blank_trims(s: Seq<char>)
    requires
        is_blank(s),
    ensures
        trimmed(s).len() == 0,
{
    let nothing: Seq<char> = Seq::empty();
    assert(s =~= s + nothing + nothing);
    lemma_trimmed(s, nothing, nothing);
}

proof fn lemma_written_trims(s: Seq<char>, at: int)
    requires
        0 <= at < s.len(),
        !is_white(s[at]),
    ensures
        trimmed(s).len() > 0,
{
    let (before, after) = lemma_trim_split(s);
    if trimmed(s).len() == 0 {
        assert(s =~= before + after);
        if at < before.len() {
            assert(s[at] == before[at]);
        } else {
            assert(s[at] == after[at - before.len()]);
        }
    }
}

/// The first line feed of a text that has one.
proof fn lemma_find_feed(s: Seq<char>) -> (n: int)
    requires
        !is_one_line(s),
    ensures
        0 <= n < s.len(),
        s[n] == '\n',
        is_one_line(s.take(n)),
    decreases s.len(),
{
    if s[0] == '\n' {
        0
    } else {
        let bad = choose|i: int| 0 <= i < s.len() && #[trigger] s[i] == '\n';
        assert(s.skip(1)[bad - 1] == '\n');
        let m = lemma_find_feed(s.skip(1));
        assert forall|i: int| 0 <= i < m + 1 implies #[trigger] s.take(m + 1)[i] != '\n' by {
            if i > 0 {
                assert(s.skip(1).take(m)[i - 1] == s[i]);
            }
        }
        m + 1
    }
}

proof fn lemma_blank_cr(s: Seq<char>)
    requires
        is_blank(s),
    ensures
        is_blank(without_cr(s)),
{
}

/// Blank lines are passed over.
proof fn lemma_first_written_after(before: Seq<char>, s: Seq<char>)
    requires
        is_blank(before),
        before.len() > 0 ==> before[before.len() - 1] == '\n',
    ensures
        first_written(lines_of(before + s)) == first_written(lines_of(s)),
    decreases before.len(),
{
    if before.len() == 0 {
        assert(before + s =~= s);
    } else {
        assert(!is_one_line(before)) by {
            assert(before[before.len() - 1] == '\n');
        }
        let n = lemma_find_feed(before);
        let head = before.take(n);
        let more = before.skip(n + 1);
        assert(before + s =~= head + seq!['\n'] + (more + s));
        lemma_first_line(head, more + s);
        assert(is_blank(head));
        lemma_blank_cr(head);
        lemma_blank_trims(without_cr(head));
        let all = lines_of(before + s);
        assert(all.skip(1) =~= lines_of(more + s));
        assert(all[0] == without_cr(head));
        lemma_first_written_after(more, s);
    }
}

proof fn lemma_no_written_line(s: Seq<char>)
    requires
        is_blank(s),
    ensures
        first_written(lines_of(s)).len() == 0,
    decreases s.len(),
{
    if is_one_line(s) {
        lemma_one_line(s);
        if s.len() > 0 {
            lemma_blank_trims(s);
            assert(seq![s].skip(1) =~= Seq::empty());
            assert(first_written(seq![s].skip(1)).len() == 0);
        }
    } else {
        let n = lemma_find_feed(s);
        let head = s.take(n);
        let tail = s.skip(n + 1);
        assert(s =~= head + seq!['\n'] + tail);
        lemma_first_line(head, tail);
        assert(is_blank(head));
        lemma_blank_cr(head);
        lemma_blank_trims(without_cr(head));
        let all = lines_of(s);
        assert(all.skip(1) =~= lines_of(tail));
        assert(all[0] == without_cr(head));
        lemma_no_written_line(tail);
    }
}

/// The first line that is not blank, as far as its words go.
proof fn lemma_first_written_line(before: Seq<char>, line: Seq<char>, after: Seq<char>, at: int)
    requires
        is_blank(before),
        before.len() > 0 ==> before[before.len() - 1] == '\n',
        is_one_line(line),
        0 <= at < line.len(),
        !is_white(line[at]),
        after.len() > 0 ==> after[0] == '\n',
    ensures
        words_of(first_written(lines_of(before + line + after))) == words_of(line),
{
    assert(before + line + after =~= before + (line + after));
    lemma_first_written_after(before, line + after);
    if after.len() == 0 {
        assert(line + after =~= line);
        lemma_one_line(line);
        lemma_written_trims(line, at);
        lemma_words_of_trimmed(line);
    } else {
        let tail = after.skip(1);
        assert(line + after =~= line + seq!['\n'] + tail);
        lemma_first_line(line, tail);
        let shown = without_cr(line);
        assert(lines_of(line + after)[0] == shown);
        assert(at < shown.len()) by {
            if line.last() == '\r' {
                assert(is_white('\r'));
            }
        }
        assert(shown[at] == line[at]);
        lemma_written_trims(shown, at);
        lemma_words_of_trimmed(shown);
        lemma_words_without_cr(line);
    }
}

/// The preview of a text is the words of its first line that is not blank, with one
/// space between each two; where these are more than 120 characters, the first 119
/// and an ellipsis.
pub proof fn law_text_preview(
    text: &str,
    before: Seq<char>,
    line: &[char],
    after: Seq<char>,
    at: int,
    words: Vec<char>,
    res: String,
)
    requires
        text@ == before + line@ + after,
        is_blank(before),
        before.len() > 0 ==> before[before.len() - 1] == '\n',
        is_one_line(line@),
        0 <= at < line@.len(),
        !is_white(line@[at]),
        after.len() > 0 ==> after[0] == '\n',
        call_ensures(collapse, (line,), words),
        call_ensures(preview_text, (text,), res),
    ensures
        words@.len() <= 120 ==> res@ == words@,
        words@.len() > 120 ==> res@ == words@.take(119).push('\u{2026}'),
{
    lemma_first_written_line(before, line@, after, at);
}

/// A text whose first line is one word of at most 120 characters has that word for
/// its preview, whatever follows.
pub proof fn law_first_word_is_preview(text: &str, word: Seq<char>, after: Seq<char>, res: String)
    requires
        text@ == word + after,
        is_word(word),
        word.len() <= 120,
        after.len() > 0 ==> after[0] == '\n',
        call_ensures(preview_text, (text,), res),
    ensures
        res@ == word,
{
    assert forall|i: int| 0 <= i < word.len() implies #[trigger] word[i] != '\n' by {
        assert(!is_white(word[i]));
        assert(is_white('\n'));
    }
    let nothing: Seq<char> = Seq::empty();
    assert(nothing + word + after =~= word + after);
    assert(!is_white(word[0]));
    lemma_first_written_line(nothing, word, after, 0);
    assert(word + nothing =~= word);
    lemma_first_word(word, nothing);
    lemma_no_words(nothing);
    assert(seq![word] + Seq::<Seq<char>>::empty() =~= seq![word]);
    assert(joined(seq![word]) == word);
}

/// A blank text has an empty preview.
pub proof fn law_blank_text_preview(text: &str, res: String)
    requires
        is_blank(text@),
        call_ensures(preview_text, (text,), res),
    ensures
        res@.len() == 0,
{
    lemma_no_written_line(text@);
    let first = first_written(lines_of(text@));
    assert(is_blank(first));
    lemma_no_words(first);
}

/// Content is shown as what it is: a text by the preview of the text that it encodes,
/// a list of files by that of the list, a picture by its size in KiB, rounded up.
pub proof fn law_preview_by_kind(
    data: &[u8],
    text: &str,
    kib: u64,
    of_text: String,
    of_files: String,
    size: String,
    as_text: String,
    as_files: String,
    as_image: String,
)
    requires
        kib * 1024 >= data@.len(),
        kib * 1024 < data@.len() + 1024,
        call_ensures(preview_text, (text,), of_text),
        call_ensures(preview_files, (text,), of_files),
        call_ensures(decimal_string, (kib,), size),
        call_ensures(preview, (Kind::Text, data), as_text),
        call_ensures(preview, (Kind::Files, data), as_files),
        call_ensures(preview, (Kind::Image, data), as_image),
    ensures
        text@ == read_as(data@) ==> as_text@ == of_text@ && as_files@ == of_files@,
        as_image@ == size@ + " KB image"@,
{
    assert((data@.len() + 1023) / 1024 == kib);
}

proof fn lemma_name_start(dir: Seq<char>, name: Seq<char>)
    requires
        forall|i: int| 0 <= i < name.len() ==> #[trigger] name[i] != '/',
        dir.len() > 0 ==> dir[dir.len() - 1] == '/',
    ensures
        name_start(dir + name) == dir.len(),
    decreases name.len(),
{
    let all = dir + name;
    if name.len() > 0 {
        assert(all.last() == name[name.len() - 1]);
        assert(all.drop_last() =~= dir + name.drop_last());
        assert forall|i: int| 0 <= i < name.drop_last().len() implies #[trigger] name.drop_last()[i]
            != '/' by {
            assert(name.drop_last()[i] == name[i]);
        }
        lemma_name_start(dir, name.drop_last());
    } else {
        assert(all =~= dir);
    }
}

/// The name of a file is what follows the last slash of its path; a path that ends
/// with a slash is shown whole. White space around the path does not count.
pub proof fn law_file_name(
    path: &[char],
    before: Seq<char>,
    dir: Seq<char>,
    name: Seq<char>,
    after: Seq<char>,
    res: String,
)
    requires
        path@ == before + (dir + name) + after,
        is_blank(before),
        is_blank(after),
        is_bare(dir + name),
        dir.len() > 0 ==> dir[dir.len() - 1] == '/',
        forall|i: int| 0 <= i < name.len() ==> #[trigger] name[i] != '/',
        call_ensures(basename, (path,), res),
    ensures
        name.len() > 0 ==> res@ == name,
        name.len() == 0 ==> res@ == dir,
{
    lemma_trimmed(before, dir + name, after);
    lemma_name_start(dir, name);
    assert((dir + name).skip(dir.len() as int) =~= name);
    if name.len() == 0 {
        assert(dir + name =~= dir);
    }
}

proof fn lemma_written(all: Seq<Seq<char>>, at: Seq<int>)
    requires
        forall|i: int| 0 <= i < at.len() ==> 0 <= #[trigger] at[i] < all.len(),
        forall|i: int, j: int| 0 <= i < j < at.len() ==> at[i] < at[j],
        forall|k: int| 0 <= k < all.len() ==> (at.contains(k) <==> trimmed(#[trigger] all[k]).len() > 0),
    ensures
        written(all) == at.map_values(|k: int| all[k]),
    decreases all.len(),
{
    let picked = at.map_values(|k: int| all[k]);
    if all.len() > 0 {
        let last = all.len() - 1;
        let head = all.drop_last();
        if trimmed(all[last]).len() > 0 {
            assert(at.contains(last));
            let p = choose|p: int| 0 <= p < at.len() && at[p] == last;
            assert(p == at.len() - 1) by {
                if p < at.len() - 1 {
                    assert(at[p] < at[at.len() - 1]);
                }
            }
            let less = at.drop_last();
            assert forall|k: int| 0 <= k < head.len() implies (less.contains(k) <==> trimmed(
                #[trigger] head[k],
            ).len() > 0) by {
                assert(head[k] == all[k]);
                if at.contains(k) {
                    let q = choose|q: int| 0 <= q < at.len() && at[q] == k;
                    assert(less[q] == k);
                }
                if less.contains(k) {
                    let q = choose|q: int| 0 <= q < less.len() && less[q] == k;
                    assert(at[q] == k);
                }
            }
            assert forall|i: int| 0 <= i < less.len() implies 0 <= #[trigger] less[i] < head.len() by {
                assert(at[i] < at[at.len() - 1]);
            }
            lemma_written(head, less);
            assert(picked =~= less.map_values(|k: int| head[k]).push(all[last]));
        } else {
            assert(!at.contains(last));
            assert forall|i: int| 0 <= i < at.len() implies 0 <= #[trigger] at[i] < head.len() by {
                assert(at.contains(at[i]));
            }
            assert forall|k: int| 0 <= k < head.len() implies (at.contains(k) <==> trimmed(
                #[trigger] head[k],
            ).len() > 0) by {
                assert(head[k] == all[k]);
            }
            lemma_written(head, at);
            assert(picked =~= at.map_values(|k: int| head[k]));
        }
    } else {
        assert(at.len() == 0) by {
            if at.len() > 0 {
                assert(0 <= at[0] < all.len());
            }
        }
        assert(picked =~= Seq::empty());
    }
}

/// The preview of a list of files goes by its lines that are not blank, whose places
/// are `at`. A first one that says `copy` or `cut` is no file. The name of the first
/// file is shown, and how many files follow it.
pub proof fn law_files_preview(
    data: &str,
    chars: &[char],
    all: Vec<&[char]>,
    at: Seq<int>,
    verb: &[char],
    name: String,
    second: String,
    extra: u64,
    count: String,
    res: String,
)
    requires
        chars@ == data@,
        call_ensures(lines, (chars,), all),
        forall|i: int| 0 <= i < at.len() ==> 0 <= #[trigger] at[i] < all@.len(),
        forall|i: int, j: int| 0 <= i < j < at.len() ==> at[i] < at[j],
        forall|k: int| 0 <= k < all@.len() ==> (at.contains(k) <==> !is_blank((#[trigger] all@[k])@)),
        at.len() > 0 ==> call_ensures(trim, (all@[at[0]],), verb),
        at.len() > 0 ==> call_ensures(basename, (all@[at[0]],), name),
        at.len() > 1 ==> call_ensures(basename, (all@[at[1]],), second),
        call_ensures(decimal_string, (extra,), count),
        call_ensures(preview_files, (data,), res),
    ensures
        at.len() == 0 ==> res@ == "No files"@,
        at.len() > 0 && verb@ != "copy"@ && verb@ != "cut"@ ==> {
            &&& at.len() == 1 ==> res@ == name@
            &&& at.len() > 1 && extra == at.len() - 1 ==> res@ == name@ + " +"@ + count@ + " more"@
        },
        at.len() > 0 && (verb@ == "copy"@ || verb@ == "cut"@) ==> {
            &&& at.len() == 1 ==> res@ == "No files"@
            &&& at.len() == 2 ==> res@ == second@
            &&& at.len() > 2 && extra == at.len() - 2 ==> res@ == second@ + " +"@ + count@
                + " more"@
        },
{
    let whole = views(all@);
    assert(whole == lines_of(data@));
    assert(whole.len() == all@.len());
    assert forall|k: int| 0 <= k < whole.len() implies (at.contains(k) <==> trimmed(
        #[trigger] whole[k],
    ).len() > 0) by {
        let line = all@[k]@;
        assert(whole[k] == line);
        if is_blank(line) {
            lemma_blank_trims(line);
        } else {
            let i = choose|i: int| 0 <= i < line.len() && !is_white(#[trigger] line[i]);
            lemma_written_trims(line, i);
        }
    }
    lemma_written(whole, at);
    let shown = written(whole);
    assert(shown.len() == at.len());
    if at.len() > 0 {
        assert(shown[0] == whole[at[0]]);
        assert(whole[at[0]] == all@[at[0]]@);
        assert(verb@ == trimmed(shown[0]));
        assert(name@ == file_name(shown[0]));
    }
    if at.len() > 1 {
        assert(shown[1] == whole[at[1]]);
        assert(whole[at[1]] == all@[at[1]]@);
        assert(second@ == file_name(shown[1]));
    }
}

} // verus!
