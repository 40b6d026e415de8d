//! What a table gives under a key, said without reading the table entry by
//! entry: the last entry under the key decides.

use vstd::prelude::*;
use crate::document::{Node, text_of, u16_of};

verus! {

/// Some entry of the table has the key `key`.
pub open spec fn has_entry(entries: Seq<(String, Node)>, key: Seq<char>) -> bool {
    exists|i: int| 0 <= i < entries.len() && (#[trigger] entries[i]).0@ == key
}

/// The value of the last entry from position `from` on that has the key
/// `key`.
pub open spec fn last_value(entries: Seq<(String, Node)>, from: int, key: Seq<char>) -> Option<
    Node,
>
    decreases entries.len() - from,
{
    if from < 0 || from >= entries.len() {
        None
    } else {
        match last_value(entries, from + 1, key) {
            Some(value) => Some(value),
            None => if entries[from].0@ == key {
                Some(entries[from].1)
            } else {
                None
            },
        }
    }
}

/// The string that the table gives under `key`, or `before` where it has no
/// such entry.
pub open spec fn last_text(
    entries: Seq<(String, Node)>,
    from: int,
    key: Seq<char>,
    before: Option<Seq<char>>,
) -> Option<Seq<char>> {
    match last_value(entries, from, key) {
        Some(value) => Some(text_of(value)->Ok_0),
        None => before,
    }
}

/// The 16-bit number that the table gives under `key`, or `before` where it
/// has no such entry.
pub open spec fn last_u16(
    entries: Seq<(String, Node)>,
    from: int,
    key: Seq<char>,
    before: Option<u16>,
) -> Option<u16> {
    match last_value(entries, from, key) {
        Some(value) => Some(u16_of(value)->Ok_0),
        None => before,
    }
}

/// A table gives a value under a key exactly where it has an entry of that
/// key, and the value is that of one such entry.
pub proof fn lemma_last_value(entries: Seq<(String, Node)>, from: int, key: Seq<char>)
    requires
        0 <= from,
    ensures
        last_value(entries, from, key) is Some <==> exists|i: int|
            from <= i < entries.len() && (#[trigger] entries[i]).0@ == key,
        last_value(entries, from, key) matches Some(value) ==> exists|i: int|
            from <= i < entries.len() && (#[trigger] entries[i]).0@ == key && entries[i].1
                == value && forall|j: int|
                i < j < entries.len() ==> (#[trigger] entries[j]).0@ != key,
    decreases entries.len() - from,
{
    if from < entries.len() {
        lemma_last_value(entries, from + 1, key);
        match last_value(entries, from + 1, key) {
            Some(value) => {
                let at = choose|i: int|
                    from + 1 <= i < entries.len() && (#[trigger] entries[i]).0@ == key
                        && entries[i].1 == value && forall|j: int|
                        i < j < entries.len() ==> (#[trigger] entries[j]).0@ != key;
                assert(from <= at < entries.len() && entries[at].0@ == key);
            },
            None => {
                if entries[from].0@ == key {
                    assert(from <= from < entries.len() && entries[from].0@ == key);
                    assert forall|j: int| from < j < entries.len() implies (
                        #[trigger] entries[j]
                    ).0@ != key by {
                        if entries[j].0@ == key {
                            assert(from + 1 <= j < entries.len() && entries[j].0@ == key);
                        }
                    }
                } else {
                    assert forall|i: int| from <= i < entries.len() implies (
                        #[trigger] entries[i]
                    ).0@ != key by {
                        if i > from && entries[i].0@ == key {
                            assert(from + 1 <= i < entries.len() && entries[i].0@ == key);
                        }
                    }
                }
            },
        }
    }
}

} // verus!
