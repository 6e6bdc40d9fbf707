//! The lone-array convention shared by the JSON and XML record splitters: an object splits on its
//! single array-valued member, and on nothing when it has none or several.

use crate::record::{JsonModel, JsonObject, JsonValue};
use crate::text::owned;
use vstd::prelude::*;

verus! {

/// Outcome of scanning a folded object for the single array-valued member that drives record
/// splitting.
#[derive(Debug)]
pub enum LoneArrayMember {
    /// Exactly one candidate member held an array; its key is carried here.
    Found(String),
    /// Zero members, or two or more, held an array: the object does not split.
    NoneOrMany,
}

/// Which member names may drive a split.
#[derive(Debug, Clone, Copy, PartialEq, Eq, Structural)]
pub enum CandidateKeys {
    /// Every member name.
    Any,
    /// Only the names of child elements, not attributes (`@`) or metadata (`#`).
    Elements,
}

/// A name is a child element's: it starts with neither `@` (an attribute) nor `#` (metadata).
pub open spec fn element_key(key: Seq<char>) -> bool {
    key.len() == 0 || (key[0] != '@' && key[0] != '#')
}

/// Whether a name may drive a split.
pub open spec fn candidate(keys: CandidateKeys, key: Seq<char>) -> bool {
    match keys {
        CandidateKeys::Any => true,
        CandidateKeys::Elements => element_key(key),
    }
}

/// The candidate names of array-valued members, in member order.
pub open spec fn array_members(entries: Seq<(Seq<char>, JsonModel)>, keys: CandidateKeys) -> Seq<
    Seq<char>,
>
    decreases entries.len(),
{
    if entries.len() == 0 {
        Seq::empty()
    } else {
        let rest = array_members(entries.drop_last(), keys);
        let (key, value) = entries.last();
        if candidate(keys, key) && value is Array {
            rest.push(key)
        } else {
            rest
        }
    }
}

/// Reports whether a key names a child element, as opposed to an attribute (`@`) or metadata (`#`).
pub fn is_element_key(key: &str) -> (element: bool)
    ensures
        element == element_key(key@),
{
    let chars = crate::text::chars_of(key);
    if chars.len() == 0 {
        return true;
    }
    chars[0] != '@' && chars[0] != '#'
}

/// Finds the single array-valued member among the keys `keys` accepts.
///
/// Two-plus array members deliberately decline to pick a winner, matching the schema-less
/// "convention, not guessing" rule shared by the JSON and XML ingestors.
pub fn lone_array_member(map: &JsonObject, keys: CandidateKeys) -> (member: LoneArrayMember)
    ensures
        match member {
            LoneArrayMember::Found(key) => array_members(map@, keys).len() == 1 && key@ == array_members(
                map@,
                keys,
            )[0],
            LoneArrayMember::NoneOrMany => array_members(map@, keys).len() != 1,
        },
{
    let mut first: Option<usize> = None;
    let mut i: usize = 0;
    while i < map.len()
        invariant
            i <= map@.len(),
            match first {
                None => array_members(map@.take(i as int), keys).len() == 0,
                Some(f) => f < i && array_members(map@.take(i as int), keys) == seq![map@[f as int].0],
            },
        decreases map@.len() - i,
    {
        assert(map@.take(i + 1).drop_last() =~= map@.take(i as int));
        let name = map.name_at(i);
        let accepted = match keys {
            CandidateKeys::Any => true,
            CandidateKeys::Elements => is_element_key(name),
        };
        let is_array = match map.value_at(i) {
            JsonValue::Array(_) => true,
            _ => false,
        };
        if accepted && is_array {
            match first {
                None => {
                    first = Some(i);
                },
                Some(_) => {
                    proof {
                        lemma_array_members_grow(map@, keys, i + 1);
                    }
                    return LoneArrayMember::NoneOrMany;
                },
            }
        }
        i = i + 1;
    }
    assert(map@.take(i as int) =~= map@);
    match first {
        Some(f) => LoneArrayMember::Found(owned(map.name_at(f))),
        None => LoneArrayMember::NoneOrMany,
    }
}

/// The array members of a prefix are never more than those of the whole.
proof fn lemma_array_members_grow(entries: Seq<(Seq<char>, JsonModel)>, keys: CandidateKeys, n: int)
    requires
        0 <= n <= entries.len(),
    ensures
        array_members(entries.take(n), keys).len() <= array_members(entries, keys).len(),
    decreases entries.len() - n,
{
    if n < entries.len() {
        lemma_array_members_grow(entries, keys, n + 1);
        assert(entries.take(n + 1).drop_last() =~= entries.take(n));
    } else {
        assert(entries.take(n) =~= entries);
    }
}

} // verus!
