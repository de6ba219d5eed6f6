//! What the settings window does with the list of excluded applications, and what
//! it says of the history.

use vstd::prelude::*;

use crate::decimal::{decimal, decimal_string};
use crate::settings::texts;
use crate::store::StoreError;
use crate::text::{from_chars, lowered, same_ignoring_case, to_chars, trim, trimmed};

verus! {

/// Does the list hold the name, in whatever ASCII case?
pub open spec fn names(list: Seq<Seq<char>>, name: Seq<char>) -> bool {
    exists|i: int| 0 <= i < list.len() && lowered(#[trigger] list[i]) == lowered(name)
}

/// The list with a new name, where that is not blank and not listed; else nothing.
pub open spec fn with_name(list: Seq<Seq<char>>, entry: Seq<char>) -> Option<Seq<Seq<char>>> {
    let name = trimmed(entry);
    if name.len() == 0 || names(list, name) {
        None
    } else {
        Some(list.push(name))
    }
}

/// The list without a name, in whatever ASCII case.
pub open spec fn without_name(list: Seq<Seq<char>>, name: Seq<char>) -> Seq<Seq<char>>
    decreases list.len(),
{
    if list.len() == 0 {
        Seq::empty()
    } else {
        let head = without_name(list.drop_last(), name);
        if lowered(list.last()) == lowered(name) {
            head
        } else {
            head.push(list.last())
        }
    }
}

fn is_listed(list: &Vec<String>, name: &[char]) -> (res: bool)
    ensures
        res == names(texts(list@), name@),
{
    let ghost known = texts(list@);
    let mut i: usize = 0;
    while i < list.len()
        invariant
            i <= list@.len(),
            known == texts(list@),
            forall|j: int| 0 <= j < i ==> lowered(#[trigger] known[j]) != lowered(name@),
        decreases list@.len() - i,
    {
        let other = to_chars(list[i].as_str());
        if same_ignoring_case(other.as_slice(), name) {
            proof {
                assert(lowered(known[i as int]) == lowered(name@));
            }
            return true;
        }
        i += 1;
    }
    false
}

/// Adds the name in the entry field to the excluded applications. Nothing is given
/// back where the list stays as it is: where the field is blank or the name is
/// listed.
pub fn add_excluded(list: Vec<String>, entry: &str) -> (res: Option<Vec<String>>)
    ensures
        match with_name(texts(list@), entry@) {
            Some(more) => res matches Some(out) && texts(out@) == more,
            None => res is None,
        },
{
    let chars = to_chars(entry);
    let name = trim(chars.as_slice());
    if name.len() == 0 || is_listed(&list, name) {
        return None;
    }
    let ghost before = list@;
    let mut out = list;
    out.push(from_chars(name));
    proof {
        assert(texts(out@) =~= texts(before).push(name@));
    }
    Some(out)
}

/// Takes a name off the excluded applications.
pub fn remove_excluded(list: Vec<String>, name: &str) -> (res: Vec<String>)
    ensures
        texts(res@) == without_name(texts(list@), name@),
{
    let needle = to_chars(name);
    let ghost known = texts(list@);
    let mut out: Vec<String> = Vec::new();
    let mut i: usize = 0;
    proof {
        assert(texts(out@) =~= without_name(known.take(0), name@));
    }
    while i < list.len()
        invariant
            i <= list@.len(),
            known == texts(list@),
            needle@ == name@,
            texts(out@) == without_name(known.take(i as int), name@),
        decreases list@.len() - i,
    {
        let other = to_chars(list[i].as_str());
        let ghost before = out@;
        proof {
            assert(known.take(i + 1).drop_last() =~= known.take(i as int));
            assert(known.take(i + 1).last() == other@);
        }
        if !same_ignoring_case(other.as_slice(), needle.as_slice()) {
            out.push(list[i].clone());
            proof {
                assert(texts(out@) =~= texts(before).push(other@));
            }
        }
        i += 1;
    }
    proof {
        assert(known.take(i as int) =~= known);
    }
    out
}

proof fn lemma_without_unlisted(list: Seq<Seq<char>>, name: Seq<char>)
    requires
        !names(list, name),
    ensures
        without_name(list, name) == list,
    decreases list.len(),
{
    if list.len() > 0 {
        let rest = list.drop_last();
        assert forall|i: int| 0 <= i < rest.len() implies lowered(#[trigger] rest[i]) != lowered(
            name,
        ) by {
            assert(rest[i] == list[i]);
        }
        lemma_without_unlisted(rest, name);
        assert(lowered(list[list.len() - 1]) != lowered(name));
        assert(rest.push(list.last()) =~= list);
    }
}

/// A name that was taken off the list is not on it.
pub proof fn law_removed_is_not_named(list: Seq<Seq<char>>, name: Seq<char>)
    ensures
        !names(without_name(list, name), name),
    decreases list.len(),
{
    if list.len() > 0 {
        law_removed_is_not_named(list.drop_last(), name);
        let head = without_name(list.drop_last(), name);
        if lowered(list.last()) != lowered(name) {
            let all = head.push(list.last());
            assert forall|i: int| 0 <= i < all.len() implies lowered(#[trigger] all[i]) != lowered(
                name,
            ) by {
                if i < head.len() {
                    assert(all[i] == head[i]);
                }
            }
        }
    }
}

/// A name that was added can be taken off again, and the list is then as it was.
pub proof fn law_added_then_removed(list: Seq<Seq<char>>, entry: Seq<char>)
    ensures
        match with_name(list, entry) {
            Some(more) => names(more, trimmed(entry)) && without_name(more, trimmed(entry)) == list,
            None => trimmed(entry).len() == 0 || names(list, trimmed(entry)),
        },
{
    let name = trimmed(entry);
    if let Some(more) = with_name(list, entry) {
        assert(lowered(more[list.len() as int]) == lowered(name));
        assert(more.drop_last() =~= list);
        lemma_without_unlisted(list, name);
    }
}

/// The text that says how many entries there are.
pub open spec fn count_of(total: u32, pinned: u32) -> Seq<char> {
    decimal(total as nat) + " stored, "@ + decimal(pinned as nat) + " pinned"@
}

/// How many entries there are, in words; no entry where they could not be counted.
pub fn count_text(counts: Result<(u32, u32), StoreError>) -> (res: String)
    ensures
        match counts {
            Ok((total, pinned)) => res@ == count_of(total, pinned),
            Err(_) => res@ == count_of(0, 0),
        },
{
    let (total, pinned): (u32, u32) = match counts {
        Ok(counted) => counted,
        Err(_) => (0, 0),
    };
    let mut out = decimal_string(total as u64);
    out.append(" stored, ");
    let stays = decimal_string(pinned as u64);
    out.append(stays.as_str());
    out.append(" pinned");
    out
}

} // verus!
