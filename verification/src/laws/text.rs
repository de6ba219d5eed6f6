//! Laws on characters, lines, words and numbers.

use vstd::prelude::*;

use crate::decimal::{
    all_digits, decimal, decimal_string, digits_value, has_sign, is_digit, law_number_round_trip,
    magnitude, parse_i64, signed_decimal_string,
};
use crate::text::{
    collapse, collapsed, is_white, joined, lemma_trimmed_start_len, lemma_word_len_bound,
    line_feed, lines, lines_of, lower, lower_char, lower_chars, lowered, same, same_chars,
    same_ignoring_case, trim, trimmed, trimmed_end, trimmed_start, views, white, without_cr,
    word_len, words_of,
};

verus! {

/// Is every character white space?
pub open spec fn is_blank(s: Seq<char>) -> bool {
    forall|i: int| 0 <= i < s.len() ==> is_white(#[trigger] s[i])
}

/// Does the text have no white space at either end?
pub open spec fn is_bare(s: Seq<char>) -> bool {
    s.len() > 0 ==> !is_white(s[0]) && !is_white(s[s.len() - 1])
}

/// Has the text no white space in it, and is it not empty?
pub open spec fn is_word(s: Seq<char>) -> bool {
    s.len() > 0 && forall|i: int| 0 <= i < s.len() ==> !is_white(#[trigger] s[i])
}

/// Has the text no line feed?
pub open spec fn is_one_line(s: Seq<char>) -> bool {
    forall|i: int| 0 <= i < s.len() ==> #[trigger] s[i] != '\n'
}

/// White space is the tab, line feed, vertical tab, form feed, carriage return, the
/// space, and the other characters that Unicode counts to it.
pub proof fn law_white_space(c: char, res: bool)
    requires
        call_ensures(white, (c,), res),
    ensures
        res == is_white(c),
        c <= '\u{7f}' ==> (res <==> c == ' ' || ('\u{9}' <= c && c <= '\u{d}')),
{
}

proof fn lemma_trimmed_start_of(before: Seq<char>, s: Seq<char>)
    requires
        is_blank(before),
    ensures
        trimmed_start(before + s) == trimmed_start(s),
    decreases before.len(),
{
    let all = before + s;
    if before.len() > 0 {
        assert(is_white(before[0]));
        assert(all.skip(1) =~= before.skip(1) + s);
        assert(is_blank(before.skip(1)));
        lemma_trimmed_start_of(before.skip(1), s);
    } else {
        assert(all =~= s);
    }
}

proof fn lemma_trimmed_end_of(s: Seq<char>, after: Seq<char>)
    requires
        is_blank(after),
    ensures
        trimmed_end(s + after) == trimmed_end(s),
    decreases after.len(),
{
    let all = s + after;
    if after.len() > 0 {
        assert(all.last() == after[after.len() - 1]);
        assert(all.drop_last() =~= s + after.drop_last());
        assert(is_blank(after.drop_last()));
        lemma_trimmed_end_of(s, after.drop_last());
    } else {
        assert(all =~= s);
    }
}

/// What trimming leaves of a text with white space around it.
pub proof fn lemma_trimmed(before: Seq<char>, inner: Seq<char>, after: Seq<char>)
    requires
        is_blank(before),
        is_blank(after),
        is_bare(inner),
    ensures
        trimmed(before + inner + after) == inner,
{
    assert(before + inner + after =~= before + (inner + after));
    lemma_trimmed_start_of(before, inner + after);
    if inner.len() == 0 {
        assert(inner + after =~= after);
        lemma_trimmed_start_of(after, Seq::empty());
        assert(after + Seq::<char>::empty() =~= after);
        assert(trimmed_start(after) =~= Seq::empty());
        assert(inner =~= Seq::empty());
    } else {
        assert((inner + after)[0] == inner[0]);
        assert(trimmed_start(inner + after) == inner + after);
        lemma_trimmed_end_of(inner, after);
        assert(trimmed_end(inner) == inner);
    }
}

proof fn lemma_start_split(s: Seq<char>) -> (n: int)
    ensures
        0 <= n <= s.len(),
        is_blank(s.take(n)),
        trimmed_start(s) == s.skip(n),
        n < s.len() ==> !is_white(s[n]),
    decreases s.len(),
{
    if s.len() > 0 && is_white(s[0]) {
        let m = lemma_start_split(s.skip(1));
        assert(s.skip(1).skip(m) =~= s.skip(m + 1));
        assert forall|i: int| 0 <= i < m + 1 implies is_white(#[trigger] s.take(m + 1)[i]) by {
            if i > 0 {
                assert(s.skip(1).take(m)[i - 1] == s[i]);
            }
        }
        if m + 1 < s.len() {
            assert(s.skip(1)[m] == s[m + 1]);
        }
        m + 1
    } else {
        assert(s.skip(0) =~= s);
        0
    }
}

proof fn lemma_end_split(s: Seq<char>) -> (n: int)
    ensures
        0 <= n <= s.len(),
        is_blank(s.skip(n)),
        trimmed_end(s) == s.take(n),
        n > 0 ==> !is_white(s[n - 1]),
    decreases s.len(),
{
    if s.len() > 0 && is_white(s.last()) {
        let m = lemma_end_split(s.drop_last());
        assert(s.drop_last().take(m) =~= s.take(m));
        assert forall|i: int| 0 <= i < s.skip(m).len() implies is_white(#[trigger] s.skip(m)[i]) by {
            if i < s.len() - 1 - m {
                assert(s.drop_last().skip(m)[i] == s[m + i]);
            }
        }
        m
    } else {
        assert(s.take(s.len() as int) =~= s);
        s.len() as int
    }
}

/// Every text is white space, what trimming leaves of it, and white space again.
pub proof fn lemma_trim_split(s: Seq<char>) -> (parts: (Seq<char>, Seq<char>))
    ensures
        is_blank(parts.0),
        is_blank(parts.1),
        is_bare(trimmed(s)),
        s == parts.0 + trimmed(s) + parts.1,
{
    let n = lemma_start_split(s);
    let rest = s.skip(n);
    let m = lemma_end_split(rest);
    assert(s =~= s.take(n) + rest.take(m) + rest.skip(m));
    if m > 0 {
        assert(rest.take(m)[0] == s[n]);
        assert(rest.take(m)[m - 1] == rest[m - 1]);
    }
    (s.take(n), rest.skip(m))
}

/// Trimming takes away the white space around a text, all of it and nothing else.
pub proof fn law_trim(
    chars: &[char],
    before: Seq<char>,
    inner: Seq<char>,
    after: Seq<char>,
    res: &[char],
)
    requires
        chars@ == before + inner + after,
        is_blank(before),
        is_blank(after),
        is_bare(inner),
        call_ensures(trim, (chars,), res),
    ensures
        res@ == inner,
{
    lemma_trimmed(before, inner, after);
}

/// A text without a line feed is one line, or none where it is empty.
pub proof fn law_one_line(chars: &[char], res: Vec<&[char]>)
    requires
        is_one_line(chars@),
        call_ensures(lines, (chars,), res),
    ensures
        chars@.len() == 0 ==> res@.len() == 0,
        chars@.len() > 0 ==> res@.len() == 1 && res@[0]@ == chars@,
{
    lemma_one_line(chars@);
    let all = views(res@);
    assert(all.len() == res@.len());
    if chars@.len() > 0 {
        assert(all[0] == res@[0]@);
    }
}

proof fn lemma_line_feed(s: Seq<char>, n: int)
    requires
        0 <= n <= s.len(),
        forall|i: int| 0 <= i < n ==> s[i] != '\n',
        n < s.len() ==> s[n] == '\n',
    ensures
        line_feed(s) == n,
    decreases n,
{
    if n > 0 {
        assert forall|i: int| 0 <= i < n - 1 implies s.skip(1)[i] != '\n' by {
            assert(s.skip(1)[i] == s[i + 1]);
        }
        lemma_line_feed(s.skip(1), n - 1);
    }
}

/// The lines of a text without a line feed.
pub proof fn lemma_one_line(s: Seq<char>)
    requires
        is_one_line(s),
    ensures
        s.len() == 0 ==> lines_of(s) == Seq::<Seq<char>>::empty(),
        s.len() > 0 ==> lines_of(s) == seq![s],
{
    lemma_line_feed(s, s.len() as int);
}

/// The lines of a text with a line feed.
pub proof fn lemma_first_line(head: Seq<char>, tail: Seq<char>)
    requires
        is_one_line(head),
    ensures
        lines_of(head + seq!['\n'] + tail) == seq![without_cr(head)] + lines_of(tail),
{
    let s = head + seq!['\n'] + tail;
    assert forall|i: int| 0 <= i < head.len() implies s[i] != '\n' by {
        assert(s[i] == head[i]);
    }
    lemma_line_feed(s, head.len() as int);
    assert(s.take(head.len() as int) =~= head);
    assert(s.skip(head.len() as int + 1) =~= tail);
}

/// A line ends at the first line feed, and a carriage return before that is no part
/// of it; the other lines are those of what follows.
pub proof fn law_first_line(
    chars: &[char],
    head: Seq<char>,
    tail: &[char],
    res: Vec<&[char]>,
    rest: Vec<&[char]>,
)
    requires
        chars@ == head + seq!['\n'] + tail@,
        is_one_line(head),
        call_ensures(lines, (chars,), res),
        call_ensures(lines, (tail,), rest),
    ensures
        res@.len() == rest@.len() + 1,
        head.len() > 0 && head[head.len() - 1] == '\r' ==> res@[0]@ == head.take(head.len() - 1),
        !(head.len() > 0 && head[head.len() - 1] == '\r') ==> res@[0]@ == head,
        forall|i: int| 0 <= i < rest@.len() ==> (#[trigger] rest@[i])@ == res@[i + 1]@,
{
    lemma_first_line(head, tail@);
    let all = views(res@);
    let more = views(rest@);
    assert(all == seq![without_cr(head)] + more);
    assert(all.len() == res@.len());
    assert(more.len() == rest@.len());
    assert(all[0] == res@[0]@);
    if head.len() > 0 {
        assert(head.drop_last() =~= head.take(head.len() - 1));
    }
    assert forall|i: int| 0 <= i < rest@.len() implies (#[trigger] rest@[i])@ == res@[i + 1]@ by {
        assert(more[i] == rest@[i]@);
        assert(all[i + 1] == more[i]);
        assert(all[i + 1] == res@[i + 1]@);
    }
}

/// White space before a text adds no word.
pub proof fn lemma_words_after_blank(before: Seq<char>, s: Seq<char>)
    requires
        is_blank(before),
    ensures
        words_of(before + s) == words_of(s),
{
    lemma_trimmed_start_of(before, s);
}

/// White space has no words.
pub proof fn lemma_no_words(s: Seq<char>)
    requires
        is_blank(s),
    ensures
        words_of(s) == Seq::<Seq<char>>::empty(),
{
    assert(s + Seq::<char>::empty() =~= s);
    lemma_trimmed_start_of(s, Seq::empty());
}

proof fn lemma_word_len(word: Seq<char>, tail: Seq<char>)
    requires
        forall|i: int| 0 <= i < word.len() ==> !is_white(#[trigger] word[i]),
        tail.len() > 0 ==> is_white(tail[0]),
    ensures
        word_len(word + tail) == word.len(),
    decreases word.len(),
{
    let all = word + tail;
    if word.len() > 0 {
        assert(!is_white(word[0]));
        assert(all.skip(1) =~= word.skip(1) + tail);
        assert forall|i: int| 0 <= i < word.skip(1).len() implies !is_white(
            #[trigger] word.skip(1)[i],
        ) by {
            assert(word.skip(1)[i] == word[i + 1]);
        }
        lemma_word_len(word.skip(1), tail);
    } else {
        assert(all =~= tail);
    }
}

/// The words of a text that starts with one.
pub proof fn lemma_first_word(word: Seq<char>, tail: Seq<char>)
    requires
        is_word(word),
        tail.len() > 0 ==> is_white(tail[0]),
    ensures
        words_of(word + tail) == seq![word] + words_of(tail),
{
    let all = word + tail;
    assert(!is_white(word[0]));
    assert(all[0] == word[0]);
    assert(trimmed_start(all) == all);
    lemma_word_len(word, tail);
    assert(all.take(word.len() as int) =~= word);
    assert(all.skip(word.len() as int) =~= tail);
}

proof fn lemma_joined_front(word: Seq<char>, words: Seq<Seq<char>>)
    ensures
        joined(seq![word] + words) == if words.len() == 0 {
            word
        } else {
            word + seq![' '] + joined(words)
        },
    decreases words.len(),
{
    let all = seq![word] + words;
    if words.len() > 0 {
        lemma_joined_front(word, words.drop_last());
        assert(all.drop_last() =~= seq![word] + words.drop_last());
        assert(all.last() == words.last());
        if words.len() == 1 {
            assert(joined(words) == words[0]);
            assert(word.push(' ') + words[0] =~= word + seq![' '] + words[0]);
        } else {
            let inner = joined(words.drop_last());
            assert((word + seq![' '] + inner).push(' ') + words.last() =~= word + seq![' '] + (
            inner.push(' ') + words.last()));
        }
    }
}

/// Words are not empty.
proof fn lemma_words_not_empty(s: Seq<char>)
    ensures
        forall|i: int| 0 <= i < words_of(s).len() ==> (#[trigger] words_of(s)[i]).len() > 0,
        words_of(s).len() == 0 ==> collapsed(s).len() == 0,
        words_of(s).len() > 0 ==> collapsed(s).len() > 0,
    decreases s.len(),
{
    let rest = trimmed_start(s);
    if rest.len() > 0 {
        lemma_trimmed_start_len(s);
        lemma_word_len_bound(rest);
        let n = word_len(rest) as int;
        lemma_words_not_empty(rest.skip(n));
        let more = words_of(rest.skip(n));
        let all = words_of(s);
        assert(all == seq![rest.take(n)] + more);
        assert forall|i: int| 0 <= i < all.len() implies (#[trigger] all[i]).len() > 0 by {
            if i > 0 {
                assert(all[i] == more[i - 1]);
            }
        }
        lemma_joined_front(rest.take(n), more);
    }
}

/// White space alone has no words.
pub proof fn law_blank_collapses_to_nothing(chars: &[char], res: Vec<char>)
    requires
        is_blank(chars@),
        call_ensures(collapse, (chars,), res),
    ensures
        res@.len() == 0,
{
    lemma_no_words(chars@);
}

/// A text is collapsed word by word: the white space before a word goes, and one
/// space stands between it and the next, if there is one.
pub proof fn law_collapse(
    chars: &[char],
    before: Seq<char>,
    word: Seq<char>,
    tail: &[char],
    res: Vec<char>,
    rest: Vec<char>,
)
    requires
        chars@ == before + word + tail@,
        is_blank(before),
        is_word(word),
        tail@.len() > 0 ==> is_white(tail@[0]),
        call_ensures(collapse, (chars,), res),
        call_ensures(collapse, (tail,), rest),
    ensures
        rest@.len() == 0 ==> res@ == word,
        rest@.len() > 0 ==> res@ == word + seq![' '] + rest@,
{
    assert(before + word + tail@ =~= before + (word + tail@));
    lemma_words_after_blank(before, word + tail@);
    lemma_first_word(word, tail@);
    lemma_joined_front(word, words_of(tail@));
    lemma_words_not_empty(tail@);
}

proof fn lemma_words_before_white(s: Seq<char>, c: char)
    requires
        is_white(c),
    ensures
        words_of(s.push(c)) == words_of(s),
    decreases s.len(),
{
    let n = lemma_start_split(s);
    let rest = s.skip(n);
    let all = s.push(c);
    assert(all =~= s.take(n) + rest.push(c));
    assert(s =~= s.take(n) + rest);
    lemma_words_after_blank(s.take(n), rest.push(c));
    lemma_words_after_blank(s.take(n), rest);
    if rest.len() == 0 {
        assert(is_blank(rest.push(c)));
        lemma_no_words(rest.push(c));
        lemma_no_words(rest);
    } else {
        assert(rest[0] == s[n]);
        lemma_word_len_bound(rest);
        let m = lemma_word_split(rest);
        let word = rest.take(m);
        let tail = rest.skip(m);
        assert(rest =~= word + tail);
        assert(rest.push(c) =~= word + tail.push(c));
        lemma_first_word(word, tail);
        lemma_first_word(word, tail.push(c));
        lemma_words_before_white(tail, c);
    }
}

/// A text that does not start with white space starts with a word.
proof fn lemma_word_split(s: Seq<char>) -> (n: int)
    requires
        s.len() > 0,
        !is_white(s[0]),
    ensures
        0 < n <= s.len(),
        is_word(s.take(n)),
        n < s.len() ==> is_white(s[n]),
    decreases s.len(),
{
    if s.len() == 1 || is_white(s[1]) {
        1
    } else {
        let m = lemma_word_split(s.skip(1));
        assert forall|i: int| 0 <= i < m + 1 implies !is_white(#[trigger] s.take(m + 1)[i]) by {
            if i > 0 {
                assert(s.skip(1).take(m)[i - 1] == s[i]);
            }
        }
        m + 1
    }
}

proof fn lemma_words_before_blank(s: Seq<char>, after: Seq<char>)
    requires
        is_blank(after),
    ensures
        words_of(s + after) == words_of(s),
    decreases after.len(),
{
    if after.len() > 0 {
        let head = after.drop_last();
        assert(is_blank(head));
        lemma_words_before_blank(s, head);
        assert(is_white(after[after.len() - 1]));
        lemma_words_before_white(s + head, after.last());
        assert((s + head).push(after.last()) =~= s + after);
    } else {
        assert(s + after =~= s);
    }
}

/// The words of a text are those of what trimming leaves of it.
pub proof fn lemma_words_of_trimmed(s: Seq<char>)
    ensures
        words_of(trimmed(s)) == words_of(s),
{
    let (before, after) = lemma_trim_split(s);
    let inner = trimmed(s);
    assert(before + inner + after =~= before + (inner + after));
    lemma_words_after_blank(before, inner + after);
    lemma_words_before_blank(inner, after);
}

/// The carriage return at the end of a line is no part of a word.
pub proof fn lemma_words_without_cr(s: Seq<char>)
    ensures
        words_of(without_cr(s)) == words_of(s),
{
    if s.len() > 0 && s.last() == '\r' {
        assert(s.drop_last().push('\r') =~= s);
        lemma_words_before_white(s.drop_last(), '\r');
    }
}

/// Lower case changes the ASCII capitals alone, each to its own letter, and is the
/// same for a text as for each of its characters.
pub proof fn law_lower_case(chars: &[char], res: Vec<char>, i: int, c: char)
    requires
        call_ensures(lower_chars, (chars,), res),
        0 <= i < chars@.len(),
        call_ensures(lower_char, (chars@[i],), c),
    ensures
        res@.len() == chars@.len(),
        res@[i] == c,
        'A' <= chars@[i] && chars@[i] <= 'Z' ==> c as int == chars@[i] as int + 32,
        !('A' <= chars@[i] && chars@[i] <= 'Z') ==> c == chars@[i],
{
    assert(lowered(chars@)[i] == lower(chars@[i]));
}

/// Texts are the same where their characters are, and the same but for case where
/// their characters are in lower case.
pub proof fn law_comparison(
    a: &[char],
    b: &[char],
    text: &str,
    equal: bool,
    equal_text: bool,
    alike: bool,
)
    requires
        call_ensures(same_chars, (a, b), equal),
        call_ensures(same, (a, text), equal_text),
        call_ensures(same_ignoring_case, (a, b), alike),
    ensures
        equal <==> a@ == b@,
        equal_text <==> a@ == text@,
        alike <==> a@.len() == b@.len() && forall|i: int|
            0 <= i < a@.len() ==> lower(#[trigger] a@[i]) == lower(b@[i]),
{
    let left = lowered(a@);
    let right = lowered(b@);
    if alike {
        assert(left.len() == right.len());
        assert forall|i: int| 0 <= i < a@.len() implies lower(#[trigger] a@[i]) == lower(b@[i]) by {
            assert(left[i] == right[i]);
        }
    }
    if a@.len() == b@.len() && forall|i: int|
        0 <= i < a@.len() ==> lower(#[trigger] a@[i]) == lower(b@[i]) {
        assert(left =~= right);
    }
}

/// A number below ten is written with one digit; any other with the digits of its
/// tenth part and one more.
pub proof fn law_digits(n: u64, res: String, tenth: String)
    requires
        call_ensures(decimal_string, (n,), res),
        call_ensures(decimal_string, (n / 10,), tenth),
    ensures
        res@.len() > 0,
        res@[res@.len() - 1] as int == '0' as int + n % 10,
        n < 10 ==> res@.len() == 1,
        n >= 10 ==> res@.take(res@.len() - 1) == tenth@,
{
    if n >= 10 {
        let head = decimal(n as nat / 10);
        assert(res@ == head.push(((48 + (n as nat % 10)) as int) as char));
        assert(res@.take(res@.len() - 1) =~= head);
    }
}

/// A negative number is written with a minus sign, and every number is read back
/// from what it is written as.
pub proof fn law_number_written_and_read(n: i64, text: String, view: &str, back: Option<i64>)
    requires
        call_ensures(signed_decimal_string, (n,), text),
        view@ == text@,
        call_ensures(parse_i64, (view,), back),
    ensures
        back == Some(n),
        n < 0 <==> text@.len() > 0 && text@[0] == '-',
        text@.len() > 0,
{
    law_number_round_trip(n);
    if n >= 0 {
        crate::decimal::lemma_decimal_value(n as nat);
        assert(is_digit(text@[0]));
    }
}

proof fn lemma_all_digits_push(head: Seq<char>, c: char)
    requires
        head.len() > 0,
    ensures
        all_digits(head.push(c)) <==> all_digits(head) && is_digit(c),
        is_digit(c) ==> digits_value(head.push(c)) == digits_value(head) * 10 + (c as int - '0' as int),
{
    let all = head.push(c);
    assert(all.drop_last() =~= head);
    if all_digits(all) {
        assert forall|i: int| 0 <= i < head.len() implies is_digit(#[trigger] head[i]) by {
            assert(all[i] == head[i]);
        }
        assert(is_digit(all[head.len() as int]));
    }
    if all_digits(head) && is_digit(c) {
        assert forall|i: int| 0 <= i < all.len() implies is_digit(#[trigger] all[i]) by {
            if i < head.len() {
                assert(all[i] == head[i]);
            }
        }
    }
}

/// A number is read digit by digit: a digit more makes it ten times as far from zero
/// and the digit further, as long as that is a 64 bit number; anything but a digit,
/// and no digit at all, makes it none.
pub proof fn law_number_is_read_by_digits(
    text: &str,
    head: &str,
    c: char,
    res: Option<i64>,
    before: Option<i64>,
)
    requires
        text@ == head@.push(c),
        call_ensures(parse_i64, (text,), res),
        call_ensures(parse_i64, (head,), before),
    ensures
        head@.len() == 0 ==> before is None,
        head@ == seq!['+'] || head@ == seq!['-'] ==> before is None,
        !('0' <= c && c <= '9') ==> res is None,
        '0' <= c && c <= '9' && (head@.len() == 0 || head@ == seq!['+']) ==> res == Some(
            (c as int - '0' as int) as i64,
        ),
        '0' <= c && c <= '9' && head@ == seq!['-'] ==> res == Some(('0' as int - c as int) as i64),
        head@.len() > 0 && head@ != seq!['+'] && head@ != seq!['-'] && before is None ==> res is None,
        '0' <= c && c <= '9' && before is Some ==> {
            let digit = c as int - '0' as int;
            let value = if head@[0] == '-' {
                before->Some_0 * 10 - digit
            } else {
                before->Some_0 * 10 + digit
            };
            if i64::MIN <= value && value <= i64::MAX {
                res == Some(value as i64)
            } else {
                res is None
            }
        },
{
    let all = text@;
    let old = head@;
    if old.len() == 0 {
        assert(all =~= seq![c]);
        if has_sign(all) {
            assert(all.skip(1) =~= Seq::empty());
        } else if is_digit(c) {
            assert(all.drop_last() =~= Seq::empty());
            assert(digits_value(all.drop_last()) == 0);
            assert(digits_value(all) == c as int - '0' as int);
            assert(all_digits(all));
        } else {
            assert(!is_digit(all[0]));
        }
        assert(magnitude(old) =~= Seq::empty());
    } else {
        assert(all[0] == old[0]);
        let inner = magnitude(old);
        if has_sign(old) {
            assert(all.skip(1) =~= old.skip(1).push(c));
        }
        assert(magnitude(all) =~= inner.push(c));
        if inner.len() == 0 {
            assert(old =~= seq![old[0]]);
            let one = inner.push(c);
            assert(one.drop_last() =~= Seq::empty());
            assert(digits_value(one.drop_last()) == 0);
            if is_digit(c) {
                assert(digits_value(one) == c as int - '0' as int);
                assert(all_digits(one));
            } else {
                assert(!is_digit(one[0]));
            }
        } else {
            lemma_all_digits_push(inner, c);
            if old.len() == 1 {
                assert(inner == old);
                assert(!(old =~= seq!['+']));
                assert(!(old =~= seq!['-']));
            }
        }
    }
}

} // verus!
