//! Text as sequences of characters: white space, lines, words and ASCII case.

use vstd::prelude::*;

verus! {

/// `String::push` appends one character to the string.
pub assume_specification[ String::push ](string: &mut String, ch: char)
    ensures
        final(string)@ == old(string)@.push(ch),
;

/// The characters with the Unicode property `White_Space`.
pub open spec fn is_white(c: char) -> bool {
    ||| '\u{9}' <= c <= '\u{d}'
    ||| c == ' '
    ||| c == '\u{85}'
    ||| c == '\u{a0}'
    ||| c == '\u{1680}'
    ||| '\u{2000}' <= c <= '\u{200a}'
    ||| c == '\u{2028}'
    ||| c == '\u{2029}'
    ||| c == '\u{202f}'
    ||| c == '\u{205f}'
    ||| c == '\u{3000}'
}

/// Is `c` white space?
pub fn white(c: char) -> (res: bool)
    ensures
        res == is_white(c),
{
    ('\u{9}' <= c && c <= '\u{d}') || c == ' ' || c == '\u{85}' || c == '\u{a0}' || c
        == '\u{1680}' || ('\u{2000}' <= c && c <= '\u{200a}') || c == '\u{2028}' || c
        == '\u{2029}' || c == '\u{202f}' || c == '\u{205f}' || c == '\u{3000}'
}

/// `s` without the white space that it starts with.
pub open spec fn trimmed_start(s: Seq<char>) -> Seq<char>
    decreases s.len(),
{
    if s.len() > 0 && is_white(s[0]) {
        trimmed_start(s.skip(1))
    } else {
        s
    }
}

/// `s` without the white space that it ends with.
pub open spec fn trimmed_end(s: Seq<char>) -> Seq<char>
    decreases s.len(),
{
    if s.len() > 0 && is_white(s.last()) {
        trimmed_end(s.drop_last())
    } else {
        s
    }
}

/// `s` without the white space around it.
pub open spec fn trimmed(s: Seq<char>) -> Seq<char> {
    trimmed_end(trimmed_start(s))
}

/// The characters of a string.
pub fn to_chars(text: &str) -> (res: Vec<char>)
    ensures
        res@ == text@,
{
    let mut out: Vec<char> = Vec::new();
    for c in it: text.chars()
        invariant
            it.seq() == text@,
            out@ == text@.take(it.index() as int),
    {
        proof {
            assert(text@.take(it.index() as int).push(c) =~= text@.take(it.index() as int + 1));
        }
        out.push(c);
    }
    proof {
        assert(text@.take(text@.len() as int) =~= text@);
    }
    out
}

/// The string that the characters make.
pub fn from_chars(chars: &[char]) -> (res: String)
    ensures
        res@ == chars@,
{
    let mut out = String::new();
    let mut i: usize = 0;
    while i < chars.len()
        invariant
            i <= chars@.len(),
            out@ == chars@.take(i as int),
        decreases chars@.len() - i,
    {
        proof {
            assert(chars@.take(i as int).push(chars@[i as int]) =~= chars@.take(i + 1));
        }
        out.push(chars[i]);
        i += 1;
    }
    proof {
        assert(chars@.take(i as int) =~= chars@);
    }
    out
}

/// The characters without the white space around them.
pub fn trim(chars: &[char]) -> (res: &[char])
    ensures
        res@ == trimmed(chars@),
{
    let mut start: usize = 0;
    proof {
        assert(chars@.skip(0) =~= chars@);
    }
    while start < chars.len() && white(chars[start])
        invariant
            start <= chars@.len(),
            trimmed_start(chars@) == trimmed_start(chars@.skip(start as int)),
        decreases chars@.len() - start,
    {
        proof {
            assert(chars@.skip(start as int).skip(1) =~= chars@.skip(start + 1));
        }
        start += 1;
    }
    let mut end: usize = chars.len();
    let ghost inner = chars@.skip(start as int);
    proof {
        assert(chars@.subrange(start as int, end as int) =~= inner);
        assert(trimmed_start(chars@) == inner);
    }
    while end > start && white(chars[end - 1])
        invariant
            start <= end <= chars@.len(),
            trimmed_end(inner) == trimmed_end(chars@.subrange(start as int, end as int)),
        decreases end,
    {
        proof {
            assert(chars@.subrange(start as int, end as int).drop_last() =~= chars@.subrange(
                start as int,
                end - 1,
            ));
        }
        end -= 1;
    }
    vstd::slice::slice_subrange(chars, start, end)
}

/// The position of the first line feed in `s`, or its length where it has none.
pub open spec fn line_feed(s: Seq<char>) -> nat
    decreases s.len(),
{
    if s.len() == 0 || s[0] == '\n' {
        0
    } else {
        1 + line_feed(s.skip(1))
    }
}

/// `s` without the carriage return that it ends with, if it ends with one.
pub open spec fn without_cr(s: Seq<char>) -> Seq<char> {
    if s.len() > 0 && s.last() == '\r' {
        s.drop_last()
    } else {
        s
    }
}

/// The lines of `s`: each ends at a line feed, with or without a carriage
/// return before it, or at the end of `s`; neither is part of the line.
pub open spec fn lines_of(s: Seq<char>) -> Seq<Seq<char>>
    decreases s.len(),
{
    if s.len() == 0 {
        Seq::empty()
    } else {
        let end = line_feed(s) as int;
        if end >= s.len() {
            seq![s]
        } else {
            seq![without_cr(s.take(end))] + lines_of(s.skip(end + 1))
        }
    }
}

proof fn lemma_line_feed_at(s: Seq<char>, n: int)
    requires
        0 <= n <= s.len(),
        forall|i: int| 0 <= i < n ==> s[i] != '\n',
        n < s.len() ==> s[n] == '\n',
    ensures
        line_feed(s) == n,
    decreases n,
{
    if n > 0 {
        let rest = s.skip(1);
        assert forall|i: int| 0 <= i < n - 1 implies rest[i] != '\n' by {
            assert(rest[i] == s[i + 1]);
        }
        lemma_line_feed_at(rest, n - 1);
    }
}

/// The views of a vector of slices.
pub open spec fn views<'a>(parts: Seq<&'a [char]>) -> Seq<Seq<char>> {
    parts.map_values(|part: &'a [char]| part@)
}

/// The lines of a text.
pub fn lines(chars: &[char]) -> (res: Vec<&[char]>)
    ensures
        views(res@) == lines_of(chars@),
{
    let mut out: Vec<&[char]> = Vec::new();
    let mut start: usize = 0;
    proof {
        assert(chars@.skip(0) =~= chars@);
    }
    while start < chars.len()
        invariant
            start <= chars@.len(),
            lines_of(chars@) =~= views(out@) + lines_of(chars@.skip(start as int)),
        decreases chars@.len() - start,
    {
        let mut end: usize = start;
        while end < chars.len() && chars[end] != '\n'
            invariant
                start <= end <= chars@.len(),
                forall|i: int| start <= i < end ==> chars@[i] != '\n',
            decreases chars@.len() - end,
        {
            end += 1;
        }
        let ghost rest = chars@.skip(start as int);
        proof {
            lemma_line_feed_at(rest, end - start);
        }
        let ghost before = out@;
        if end == chars.len() {
            let line = vstd::slice::slice_subrange(chars, start, end);
            out.push(line);
            proof {
                assert(line@ =~= rest);
                assert(views(out@) =~= views(before).push(line@));
                assert(lines_of(chars@.skip(end as int)) =~= Seq::empty());
            }
            start = end;
        } else {
            let stop = if end > start && chars[end - 1] == '\r' {
                end - 1
            } else {
                end
            };
            let line = vstd::slice::slice_subrange(chars, start, stop);
            out.push(line);
            proof {
                let full = rest.take(end - start);
                assert(full =~= chars@.subrange(start as int, end as int));
                assert(line@ =~= without_cr(full));
                assert(views(out@) =~= views(before).push(line@));
                assert(rest.skip(end - start + 1) =~= chars@.skip(end + 1));
            }
            start = end + 1;
        }
    }
    proof {
        assert(lines_of(chars@.skip(start as int)) =~= Seq::empty());
    }
    out
}

/// The length of the first run of characters of `s` that are not white space.
pub open spec fn word_len(s: Seq<char>) -> nat
    decreases s.len(),
{
    if s.len() == 0 || is_white(s[0]) {
        0
    } else {
        1 + word_len(s.skip(1))
    }
}

proof fn lemma_word_len_at(s: Seq<char>, n: int)
    requires
        0 <= n <= s.len(),
        forall|i: int| 0 <= i < n ==> !is_white(s[i]),
        n < s.len() ==> is_white(s[n]),
    ensures
        word_len(s) == n,
    decreases n,
{
    if n > 0 {
        let rest = s.skip(1);
        assert forall|i: int| 0 <= i < n - 1 implies !is_white(rest[i]) by {
            assert(rest[i] == s[i + 1]);
        }
        lemma_word_len_at(rest, n - 1);
    }
}

/// A word is no longer than the text, and not empty where the text starts with it.
pub proof fn lemma_word_len_bound(s: Seq<char>)
    ensures
        word_len(s) <= s.len(),
        s.len() > 0 && !is_white(s[0]) ==> word_len(s) > 0,
    decreases s.len(),
{
    if s.len() > 0 {
        lemma_word_len_bound(s.skip(1));
    }
}

/// What trimming the start leaves is no longer than the text, and starts with no
/// white space.
pub proof fn lemma_trimmed_start_len(s: Seq<char>)
    ensures
        trimmed_start(s).len() <= s.len(),
        trimmed_start(s).len() > 0 ==> !is_white(trimmed_start(s)[0]),
    decreases s.len(),
{
    if s.len() > 0 && is_white(s[0]) {
        lemma_trimmed_start_len(s.skip(1));
    }
}

/// The words of `s`: its longest runs of characters that are not white space.
pub open spec fn words_of(s: Seq<char>) -> Seq<Seq<char>>
    decreases s.len(),
{
    let rest = trimmed_start(s);
    if rest.len() == 0 {
        Seq::empty()
    } else {
        proof {
            lemma_trimmed_start_len(s);
            lemma_word_len_bound(rest);
        }
        seq![rest.take(word_len(rest) as int)] + words_of(rest.skip(word_len(rest) as int))
    }
}

/// The words with one space between each two.
pub open spec fn joined(words: Seq<Seq<char>>) -> Seq<char>
    decreases words.len(),
{
    if words.len() == 0 {
        Seq::empty()
    } else if words.len() == 1 {
        words[0]
    } else {
        joined(words.drop_last()).push(' ') + words.last()
    }
}

/// `s` with every run of white space in it made one space, and none around it.
pub open spec fn collapsed(s: Seq<char>) -> Seq<char> {
    joined(words_of(s))
}

/// The words of a text with one space between each two.
pub fn collapse(chars: &[char]) -> (res: Vec<char>)
    ensures
        res@ == collapsed(chars@),
{
    let mut out: Vec<char> = Vec::new();
    let ghost mut done: Seq<Seq<char>> = Seq::empty();
    let mut at: usize = 0;
    proof {
        assert(chars@.skip(0) =~= chars@);
    }
    while at < chars.len()
        invariant
            at <= chars@.len(),
            words_of(chars@) =~= done + words_of(chars@.skip(at as int)),
            out@ == joined(done),
            done.len() == 0 ==> out@.len() == 0,
            done.len() > 0 ==> out@.len() > 0,
        decreases chars@.len() - at,
    {
        if white(chars[at]) {
            proof {
                let rest = chars@.skip(at as int);
                assert(rest.skip(1) =~= chars@.skip(at + 1));
                assert(trimmed_start(rest) == trimmed_start(rest.skip(1)));
                assert(words_of(rest) == words_of(rest.skip(1)));
            }
            at += 1;
        } else {
            let ghost rest = chars@.skip(at as int);
            let ghost before = out@;
            let start = at;
            if out.len() > 0 {
                out.push(' ');
            }
            let ghost lead = out@;
            while at < chars.len() && !white(chars[at])
                invariant
                    start <= at <= chars@.len(),
                    forall|i: int| start <= i < at ==> !is_white(chars@[i]),
                    out@ == lead + chars@.subrange(start as int, at as int),
                decreases chars@.len() - at,
            {
                proof {
                    assert(chars@.subrange(start as int, at as int).push(chars@[at as int])
                        =~= chars@.subrange(start as int, at + 1));
                }
                out.push(chars[at]);
                at += 1;
            }
            proof {
                let n = at - start;
                lemma_word_len_at(rest, n);
                let word = rest.take(n);
                assert(word =~= chars@.subrange(start as int, at as int));
                assert(rest.skip(n) =~= chars@.skip(at as int));
                assert(trimmed_start(rest) == rest);
                assert(words_of(rest) =~= seq![word] + words_of(rest.skip(n)));
                let next = done.push(word);
                assert(next.drop_last() =~= done);
                assert(out@ =~= joined(next)) by {
                    if done.len() == 0 {
                        assert(lead =~= Seq::empty());
                    } else {
                        assert(lead =~= before.push(' '));
                    }
                }
                assert(done + (seq![word] + words_of(rest.skip(n))) =~= next + words_of(
                    rest.skip(n),
                ));
                done = next;
            }
        }
    }
    proof {
        assert(chars@.skip(at as int) =~= Seq::empty());
        assert(words_of(chars@) =~= done);
    }
    out
}

/// Are the two texts the same?
pub fn same(a: &[char], b: &str) -> (res: bool)
    ensures
        res == (a@ == b@),
{
    let other = to_chars(b);
    same_chars(a, other.as_slice())
}

/// Are the two texts the same?
pub fn same_chars(a: &[char], b: &[char]) -> (res: bool)
    ensures
        res == (a@ == b@),
{
    if a.len() != b.len() {
        return false;
    }
    let mut i: usize = 0;
    while i < a.len()
        invariant
            a@.len() == b@.len(),
            i <= a@.len(),
            forall|j: int| 0 <= j < i ==> a@[j] == b@[j],
        decreases a@.len() - i,
    {
        if a[i] != b[i] {
            return false;
        }
        i += 1;
    }
    proof {
        assert(a@ =~= b@);
    }
    true
}

/// `c`, or the lower case letter where `c` is an ASCII capital.
pub open spec fn lower(c: char) -> char {
    if 'A' <= c <= 'Z' {
        (c as u8 + 32) as char
    } else {
        c
    }
}

/// `s` with its ASCII capitals in lower case.
pub open spec fn lowered(s: Seq<char>) -> Seq<char> {
    s.map_values(|c: char| lower(c))
}

/// `c`, or the lower case letter where `c` is an ASCII capital.
pub fn lower_char(c: char) -> (res: char)
    ensures
        res == lower(c),
{
    if 'A' <= c && c <= 'Z' {
        (c as u8 + 32) as char
    } else {
        c
    }
}

/// The characters with the ASCII capitals in lower case.
pub fn lower_chars(chars: &[char]) -> (res: Vec<char>)
    ensures
        res@ == lowered(chars@),
{
    let mut out: Vec<char> = Vec::new();
    let mut i: usize = 0;
    while i < chars.len()
        invariant
            i <= chars@.len(),
            out@ == lowered(chars@.take(i as int)),
        decreases chars@.len() - i,
    {
        out.push(lower_char(chars[i]));
        i += 1;
        proof {
            assert(out@ =~= lowered(chars@.take(i as int)));
        }
    }
    proof {
        assert(chars@.take(i as int) =~= chars@);
    }
    out
}

/// Do the two texts differ in ASCII case at most?
pub fn same_ignoring_case(a: &[char], b: &[char]) -> (res: bool)
    ensures
        res == (lowered(a@) == lowered(b@)),
{
    let left = lower_chars(a);
    let right = lower_chars(b);
    same_chars(left.as_slice(), right.as_slice())
}

} // verus!
