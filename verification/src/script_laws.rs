//! What holds of the section of scripts: which tables are read without a
//! fault, and what the script read from one holds.

use vstd::prelude::*;
use crate::document::{Node, entries_of, items_of};
use crate::error::{ErrorKind, Failure};
use crate::model::ScriptView;
use crate::schema::{has_entry, last_text, lemma_last_value};
use crate::script::{
    ScriptDraftView, blank_script, script_of, script_scan, script_step, scripts_of, scripts_scan,
};

verus! {

/// `key` is one of the keys of a script's table.
pub open spec fn script_key(key: Seq<char>) -> bool {
    key == "device"@ || key == "script"@
}

/// The entry is one that a script's table may hold: a key of the schema
/// with a string.
pub open spec fn script_entry_ok(key: Seq<char>, value: Node) -> bool {
    script_key(key) && value is String
}

/// The item is one that the section of scripts may hold: a table whose
/// entries are all in order and that gives both keys.
pub open spec fn script_item_ok(item: Node) -> bool {
    match entries_of(item) {
        Ok(entries) => {
            &&& forall|i: int|
                0 <= i < entries.len() ==> script_entry_ok(
                    (#[trigger] entries[i]).0@,
                    entries[i].1,
                )
            &&& has_entry(entries, "device"@)
            &&& has_entry(entries, "script"@)
        },
        Err(_) => false,
    }
}

/// The draft that a script's table gives from position `from` on: for each
/// key the string of the last entry under it.
pub open spec fn script_read(entries: Seq<(String, Node)>, from: int, draft: ScriptDraftView)
    -> ScriptDraftView {
    ScriptDraftView {
        device: last_text(entries, from, "device"@, draft.device),
        code: last_text(entries, from, "script"@, draft.code),
    }
}

/// An entry is read without a fault exactly where it is in order; a key
/// outside the schema is an `UnrecognizedKey`.
pub proof fn lemma_script_step_ok(draft: ScriptDraftView, key: Seq<char>, value: Node)
    ensures
        script_step(draft, key, value) is Ok <==> script_entry_ok(key, value),
        !script_key(key) ==> script_step(draft, key, value) == Err::<ScriptDraftView, Failure>(
            Failure::here(ErrorKind::UnrecognizedKey),
        ),
{
}

/// A script's table is read without a fault exactly where each entry is in
/// order.
pub proof fn lemma_script_scan_ok(entries: Seq<(String, Node)>, from: int, draft: ScriptDraftView)
    requires
        0 <= from,
    ensures
        script_scan(entries, from, draft) is Ok <==> forall|i: int|
            from <= i < entries.len() ==> script_entry_ok(
                (#[trigger] entries[i]).0@,
                entries[i].1,
            ),
    decreases entries.len() - from,
{
    if from < entries.len() {
        lemma_script_step_ok(draft, entries[from].0@, entries[from].1);
        match script_step(draft, entries[from].0@, entries[from].1) {
            Ok(next) => {
                lemma_script_scan_ok(entries, from + 1, next);
                if script_scan(entries, from, draft) is Ok {
                    assert forall|i: int| from <= i < entries.len() implies script_entry_ok(
                        (#[trigger] entries[i]).0@,
                        entries[i].1,
                    ) by {
                        if i > from {
                        }
                    }
                }
            },
            Err(_) => {},
        }
    }
}

/// A script's table that is read without a fault gives for each key the
/// string of the last entry under it.
pub proof fn lemma_script_scan_reads(
    entries: Seq<(String, Node)>,
    from: int,
    draft: ScriptDraftView,
)
    requires
        0 <= from,
        script_scan(entries, from, draft) is Ok,
    ensures
        script_scan(entries, from, draft) == Ok::<ScriptDraftView, Failure>(
            script_read(entries, from, draft),
        ),
    decreases entries.len() - from,
{
    reveal_strlit("device");
    reveal_strlit("script");
    assert("device"@[0] == 'd' && "script"@[0] == 's');
    if from < entries.len() {
        let next = script_step(draft, entries[from].0@, entries[from].1)->Ok_0;
        lemma_script_scan_reads(entries, from + 1, next);
        assert(script_read(entries, from, draft) == script_read(entries, from + 1, next));
    }
}

/// An item of the section is read without a fault exactly where it is in
/// order, and then the script holds the two strings that the table gives.
pub proof fn lemma_script_of(item: Node)
    ensures
        script_of(item) is Ok <==> script_item_ok(item),
        script_of(item) matches Ok(script) ==> {
            let read = script_read(entries_of(item)->Ok_0, 0, blank_script());
            read.device == Some(script.device) && read.code == Some(script.code)
        },
{
    if let Ok(entries) = entries_of(item) {
        lemma_script_scan_ok(entries, 0, blank_script());
        lemma_last_value(entries, 0, "device"@);
        lemma_last_value(entries, 0, "script"@);
        if script_scan(entries, 0, blank_script()) is Ok {
            lemma_script_scan_reads(entries, 0, blank_script());
        }
    }
}

/// The scripts that the items of a section from position `from` on give,
/// one for each item.
pub open spec fn scripts_read(items: Seq<Node>, from: int) -> Seq<ScriptView> {
    Seq::new((items.len() - from) as nat, |i: int| script_of(items[from + i])->Ok_0)
}

/// The items of a section are read without a fault exactly where each of
/// them is, and then give one script each, in the order of the section,
/// behind those gathered before.
pub proof fn lemma_scripts_scan(items: Seq<Node>, from: int, found: Seq<ScriptView>)
    requires
        0 <= from <= items.len(),
    ensures
        scripts_scan(items, from, found) is Ok <==> forall|i: int|
            from <= i < items.len() ==> script_of(#[trigger] items[i]) is Ok,
        scripts_scan(items, from, found) is Ok ==> scripts_scan(items, from, found)->Ok_0 == found
            + scripts_read(items, from),
    decreases items.len() - from,
{
    if from < items.len() {
        match script_of(items[from]) {
            Ok(script) => {
                lemma_scripts_scan(items, from + 1, found.push(script));
                if scripts_scan(items, from, found) is Ok {
                    assert forall|i: int| from <= i < items.len() implies script_of(
                        #[trigger] items[i],
                    ) is Ok by {
                        if i > from {
                        }
                    }
                    assert(found.push(script) + scripts_read(items, from + 1) =~= found
                        + scripts_read(items, from));
                }
            },
            Err(_) => {},
        }
    } else {
        assert(found + scripts_read(items, from) =~= found);
    }
}

/// The section of scripts is in order: it is an array, and each item is in
/// order.
pub open spec fn scripts_ok(section: Node) -> bool {
    match items_of(section) {
        Ok(items) => forall|i: int| 0 <= i < items.len() ==> script_item_ok(#[trigger] items[i]),
        Err(_) => false,
    }
}

/// A section of scripts is read without a fault exactly where it is in
/// order, and then appends one script for each item, in the order of the
/// section.
pub proof fn lemma_scripts_of(section: Node, found: Seq<ScriptView>)
    ensures
        scripts_of(section, found) is Ok <==> scripts_ok(section),
        scripts_of(section, found) is Ok ==> scripts_of(section, found)->Ok_0 == found
            + scripts_read(items_of(section)->Ok_0, 0),
{
    if let Ok(items) = items_of(section) {
        lemma_scripts_scan(items, 0, found);
        assert forall|i: int| 0 <= i < items.len() implies (script_of(#[trigger] items[i]) is Ok
            <==> script_item_ok(items[i])) by {
            lemma_script_of(items[i]);
        }
    }
}

/// Reading scripts from a position of an array on does not depend on what
/// stands ahead of the array.
pub proof fn lemma_scripts_scan_behind(
    ahead: Seq<Node>,
    items: Seq<Node>,
    from: int,
    filed: Seq<ScriptView>,
)
    requires
        0 <= from <= items.len(),
    ensures
        scripts_scan(ahead + items, ahead.len() + from, filed) is Ok <==> scripts_scan(
            items,
            from,
            filed,
        ) is Ok,
        scripts_scan(items, from, filed) is Ok ==> scripts_scan(ahead + items, ahead.len() + from, filed)
            == scripts_scan(items, from, filed),
    decreases items.len() - from,
{
    if from < items.len() {
        assert((ahead + items)[ahead.len() + from] == items[from]);
        match script_of(items[from]) {
            Ok(entry) => {
                lemma_scripts_scan_behind(ahead, items, from + 1, filed.push(entry));
            },
            Err(_) => {},
        }
    }
}

/// Reading two arrays of scripts as one array is reading the first and
/// then the second onto what the first gave.
pub proof fn lemma_scripts_scan_joined(
    first: Seq<Node>,
    second: Seq<Node>,
    from: int,
    filed: Seq<ScriptView>,
)
    requires
        0 <= from <= first.len(),
        scripts_scan(first, from, filed) is Ok,
    ensures
        scripts_scan(first + second, from, filed) is Ok <==> scripts_scan(
            second,
            0,
            scripts_scan(first, from, filed)->Ok_0,
        ) is Ok,
        scripts_scan(first + second, from, filed) is Ok ==> scripts_scan(first + second, from, filed)
            == scripts_scan(second, 0, scripts_scan(first, from, filed)->Ok_0),
    decreases first.len() - from,
{
    if from < first.len() {
        assert((first + second)[from] == first[from]);
        let entry = script_of(first[from])->Ok_0;
        lemma_scripts_scan_joined(first, second, from + 1, filed.push(entry));
    } else {
        lemma_scripts_scan_behind(first, second, 0, filed);
    }
}

} // verus!
