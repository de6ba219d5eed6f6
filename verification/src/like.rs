//! Patterns for SQLite's `LIKE` operator, and what a pattern for a search finds.

use vstd::prelude::*;

use crate::text::{lower, lowered, to_chars};

verus! {

/// The form in which `LIKE` compares a character: ASCII letters in lower case, and
/// the two noncharacters that end the first plane as the replacement character.
pub open spec fn like_form(c: char) -> char {
    if c == '\u{fffe}' || c == '\u{ffff}' {
        '\u{fffd}'
    } else {
        lower(c)
    }
}

/// Does `LIKE` take the two characters for the same?
pub open spec fn like_same(a: char, b: char) -> bool {
    like_form(a) == like_form(b)
}

/// Does `text LIKE pattern ESCAPE '\'` hold? In a pattern `%` stands for any
/// characters, `_` for any one, a backslash and a character for that character,
/// and any other character for itself.
pub open spec fn like(pattern: Seq<char>, text: Seq<char>) -> bool
    decreases pattern.len(),
{
    if pattern.len() == 0 {
        text.len() == 0
    } else if pattern[0] == '%' {
        exists|n: int| 0 <= n <= text.len() && like(pattern.skip(1), #[trigger] text.skip(n))
    } else if pattern[0] == '\\' {
        &&& pattern.len() > 1
        &&& text.len() > 0
        &&& like_same(pattern[1], text[0])
        &&& like(pattern.skip(2), text.skip(1))
    } else {
        &&& text.len() > 0
        &&& pattern[0] == '_' || like_same(pattern[0], text[0])
        &&& like(pattern.skip(1), text.skip(1))
    }
}

/// `text` up to its first NUL character, where `LIKE` takes it to end.
pub open spec fn until_nul(text: Seq<char>) -> Seq<char>
    decreases text.len(),
{
    if text.len() == 0 || text[0] == '\0' {
        Seq::empty()
    } else {
        seq![text[0]] + until_nul(text.skip(1))
    }
}

/// Does a stored text match the pattern? A missing text matches none.
pub open spec fn text_matches(pattern: Seq<char>, text: Option<Seq<char>>) -> bool {
    match text {
        Some(t) => like(until_nul(pattern), until_nul(t)),
        None => false,
    }
}

/// Has the character a meaning of its own in a pattern?
pub open spec fn is_special(c: char) -> bool {
    c == '\\' || c == '%' || c == '_'
}

/// The pattern that stands for one character.
pub open spec fn escaped_char(c: char) -> Seq<char> {
    if is_special(c) {
        seq!['\\', c]
    } else {
        seq![c]
    }
}

/// The pattern that stands for `text` itself.
pub open spec fn escaped(text: Seq<char>) -> Seq<char>
    decreases text.len(),
{
    if text.len() == 0 {
        Seq::empty()
    } else {
        escaped(text.drop_last()) + escaped_char(text.last())
    }
}

/// The pattern for the texts that hold `query`.
pub open spec fn search_pattern(query: Seq<char>) -> Seq<char> {
    seq!['%'] + escaped(query) + seq!['%']
}

/// Writes a text as the pattern that stands for it.
pub fn escape_like(text: &str) -> (res: String)
    ensures
        res@ == escaped(text@),
{
    let chars = to_chars(text);
    let mut out = String::new();
    let mut i: usize = 0;
    while i < chars.len()
        invariant
            i <= chars@.len(),
            out@ == escaped(chars@.take(i as int)),
        decreases chars@.len() - i,
    {
        let c = chars[i];
        let ghost before = out@;
        proof {
            assert(chars@.take(i + 1).drop_last() =~= chars@.take(i as int));
        }
        if c == '\\' || c == '%' || c == '_' {
            out.push('\\');
        }
        out.push(c);
        proof {
            assert(out@ =~= before + escaped_char(c));
        }
        i += 1;
    }
    proof {
        assert(chars@.take(i as int) =~= chars@);
    }
    out
}

/// The pattern for the texts that hold the query.
pub fn pattern_for(query: &str) -> (res: String)
    ensures
        res@ == search_pattern(query@),
{
    let inner = escape_like(query);
    let mut out = String::new();
    out.push('%');
    out.append(inner.as_str());
    out.push('%');
    proof {
        assert(out@ =~= search_pattern(query@));
    }
    out
}

/// Do the characters of `text` from `at` on start with `query`, but for ASCII case?
pub open spec fn occurs_at(query: Seq<char>, text: Seq<char>, at: int) -> bool {
    &&& 0 <= at
    &&& at + query.len() <= text.len()
    &&& forall|i: int| 0 <= i < query.len() ==> like_same(#[trigger] query[i], text[at + i])
}

/// Does `text` hold `query` somewhere, but for ASCII case?
pub open spec fn holds(query: Seq<char>, text: Seq<char>) -> bool {
    exists|at: int| occurs_at(query, text, at)
}

proof fn lemma_escaped_front(text: Seq<char>)
    requires
        text.len() > 0,
    ensures
        escaped(text) =~= escaped_char(text[0]) + escaped(text.skip(1)),
    decreases text.len(),
{
    if text.len() == 1 {
        assert(text.drop_last() =~= Seq::empty());
        assert(text.skip(1) =~= Seq::empty());
    } else {
        lemma_escaped_front(text.drop_last());
        assert(text.drop_last().skip(1) =~= text.skip(1).drop_last());
        assert(text.skip(1).last() == text.last());
    }
}

/// A text matches the pattern of `query` and anything after it exactly where it
/// starts with `query`.
proof fn lemma_like_prefix(query: Seq<char>, text: Seq<char>)
    ensures
        like(escaped(query) + seq!['%'], text) <==> occurs_at(query, text, 0),
    decreases query.len(),
{
    let pattern = escaped(query) + seq!['%'];
    if query.len() == 0 {
        assert(pattern =~= seq!['%']);
        let rest = text.skip(text.len() as int);
        assert(rest =~= Seq::empty());
        assert(pattern.skip(1) =~= Seq::empty());
        assert(like(pattern.skip(1), rest));
    } else {
        let c = query[0];
        let tail = query.skip(1);
        lemma_escaped_front(query);
        assert(pattern =~= escaped_char(c) + (escaped(tail) + seq!['%']));
        let rest = pattern.skip(escaped_char(c).len() as int);
        assert(rest =~= escaped(tail) + seq!['%']);
        if text.len() > 0 {
            lemma_like_prefix(tail, text.skip(1));
            if occurs_at(query, text, 0) {
                assert(like_same(query[0], text[0int + 0]));
                assert forall|i: int| 0 <= i < tail.len() implies like_same(
                    #[trigger] tail[i],
                    text.skip(1)[0 + i],
                ) by {
                    assert(like_same(query[i + 1], text[0 + (i + 1)]));
                }
                assert(occurs_at(tail, text.skip(1), 0));
            }
            if like_same(c, text[0]) && occurs_at(tail, text.skip(1), 0) {
                assert forall|i: int| 0 <= i < query.len() implies like_same(
                    #[trigger] query[i],
                    text[0 + i],
                ) by {
                    if i > 0 {
                        assert(like_same(tail[i - 1], text.skip(1)[0 + (i - 1)]));
                    }
                }
            }
        }
    }
}

proof fn lemma_until_nul_same(text: Seq<char>)
    requires
        forall|i: int| 0 <= i < text.len() ==> #[trigger] text[i] != '\0',
    ensures
        until_nul(text) =~= text,
    decreases text.len(),
{
    if text.len() > 0 {
        assert(text[0] != '\0');
        lemma_until_nul_same(text.skip(1));
    }
}

proof fn lemma_escaped_no_nul(text: Seq<char>)
    requires
        !text.contains('\0'),
    ensures
        !escaped(text).contains('\0'),
    decreases text.len(),
{
    if text.len() > 0 {
        let head = text.drop_last();
        assert(!head.contains('\0')) by {
            if head.contains('\0') {
                let i = choose|i: int| 0 <= i < head.len() && head[i] == '\0';
                assert(text[i] == '\0');
            }
        }
        lemma_escaped_no_nul(head);
        assert(text[text.len() - 1] != '\0');
        let whole = escaped(head) + escaped_char(text.last());
        if whole.contains('\0') {
            let i = choose|i: int| 0 <= i < whole.len() && whole[i] == '\0';
            if i < escaped(head).len() {
                assert(escaped(head)[i] == '\0');
            } else {
                assert(escaped_char(text.last())[i - escaped(head).len()] == '\0');
            }
        }
    }
}

/// A search is literal: whatever characters a query holds (wildcards and
/// backslashes too), its pattern matches exactly the texts in which the query
/// occurs, but for ASCII case. `LIKE` takes texts to end at a NUL character, so
/// the query holds none, and nothing beyond the first one of a text is searched.
pub proof fn law_search_is_literal(query: Seq<char>, text: Seq<char>)
    requires
        !query.contains('\0'),
    ensures
        text_matches(search_pattern(query), Some(text)) <==> holds(query, until_nul(text)),
{
    let pattern = search_pattern(query);
    let t = until_nul(text);
    lemma_escaped_no_nul(query);
    assert forall|i: int| 0 <= i < pattern.len() implies #[trigger] pattern[i] != '\0' by {
        if 0 < i <= escaped(query).len() {
            assert(pattern[i] == escaped(query)[i - 1]);
        }
    }
    lemma_until_nul_same(pattern);
    let rest = pattern.skip(1);
    assert(rest =~= escaped(query) + seq!['%']);
    if like(pattern, t) {
        let n = choose|n: int| 0 <= n <= t.len() && like(rest, #[trigger] t.skip(n));
        lemma_like_prefix(query, t.skip(n));
        assert forall|i: int| 0 <= i < query.len() implies like_same(
            #[trigger] query[i],
            t[n + i],
        ) by {
            assert(like_same(query[i], t.skip(n)[0 + i]));
        }
        assert(occurs_at(query, t, n));
    }
    if holds(query, t) {
        let at = choose|at: int| occurs_at(query, t, at);
        assert forall|i: int| 0 <= i < query.len() implies like_same(
            #[trigger] query[i],
            t.skip(at)[0 + i],
        ) by {
            assert(like_same(query[i], t[at + i]));
        }
        assert(occurs_at(query, t.skip(at), 0));
        lemma_like_prefix(query, t.skip(at));
        assert(like(rest, t.skip(at)));
    }
}

/// Does `text` hold the characters of `query` one after the other, but for ASCII
/// case?
pub open spec fn contains_text(text: Seq<char>, query: Seq<char>) -> bool {
    exists|at: int|
        0 <= at && at + query.len() <= text.len() && lowered(
            #[trigger] text.subrange(at, at + query.len()),
        ) == lowered(query)
}

/// `LIKE` tells every character of the one from every character of the other, but
/// for ASCII case. It fails to where one is U+FFFE or U+FFFF and the other another
/// of these two or U+FFFD.
pub open spec fn told_apart(query: Seq<char>, text: Seq<char>) -> bool {
    forall|i: int, j: int|
        0 <= i < query.len() && 0 <= j < text.len() && like_same(
            #[trigger] query[i],
            #[trigger] text[j],
        ) ==> lower(query[i]) == lower(text[j])
}

/// Where `LIKE` tells their characters apart, a text without NUL characters holds a
/// query for `LIKE` exactly where it contains it.
pub proof fn law_holds_is_containment(query: Seq<char>, text: Seq<char>)
    requires
        !text.contains('\0'),
        told_apart(query, text),
    ensures
        holds(query, until_nul(text)) <==> contains_text(text, query),
{
    assert forall|i: int| 0 <= i < text.len() implies #[trigger] text[i] != '\0' by {
        assert(text.contains(text[i]));
    }
    lemma_until_nul_same(text);
    if holds(query, text) {
        let at = choose|at: int| occurs_at(query, text, at);
        let part = text.subrange(at, at + query.len());
        assert forall|i: int| 0 <= i < query.len() implies lower(part[i]) == lower(
            #[trigger] query[i],
        ) by {
            assert(like_same(query[i], text[at + i]));
        }
        assert(lowered(part) =~= lowered(query));
    }
    if contains_text(text, query) {
        let at = choose|at: int|
            0 <= at && at + query.len() <= text.len() && lowered(
                #[trigger] text.subrange(at, at + query.len()),
            ) == lowered(query);
        let part = text.subrange(at, at + query.len());
        assert forall|i: int| 0 <= i < query.len() implies like_same(
            #[trigger] query[i],
            text[at + i],
        ) by {
            assert(lowered(part)[i] == lowered(query)[i]);
            assert(part[i] == text[at + i]);
        }
        assert(occurs_at(query, text, at));
    }
}

} // verus!
