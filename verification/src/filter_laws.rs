//! What holds of the section of device filters: which tables are read
//! without a fault, and what the filter read from one holds.

use vstd::prelude::*;
use crate::codes::bus_of;
use crate::document::{Node, entries_of, flag_of, items_of, text_of, u16_of};
use crate::filter::{
    FilterDraftView, blank_filter, filter_of, filter_scan, filter_step, filters_of, filters_scan,
};
use crate::ordered::placed;
use crate::model::{DeviceFilterView, device_kind_of};
use crate::error::{ErrorKind, Failure};
use crate::schema::{has_entry, last_text, last_u16, last_value, lemma_last_value};

verus! {

/// `key` is one of the keys of a filter's table.
pub open spec fn filter_key(key: Seq<char>) -> bool {
    key == "ref"@ || key == "name"@ || key == "bus"@ || key == "vendor"@ || key == "not_vendor"@
        || key == "product"@ || key == "version"@ || key == "kind"@ || key == "exclusive"@ || key
        == "chmod"@
}

/// The entry is one that a filter's table may hold: a key of the schema,
/// with a value of the shape and range that the key asks for.
pub open spec fn filter_entry_ok(key: Seq<char>, value: Node) -> bool {
    if key == "ref"@ {
        value is String
    } else if key == "name"@ {
        value is String
    } else if key == "bus"@ {
        bus_of(value) is Some
    } else if key == "vendor"@ {
        u16_of(value) is Ok
    } else if key == "not_vendor"@ {
        u16_of(value) is Ok
    } else if key == "product"@ {
        u16_of(value) is Ok
    } else if key == "version"@ {
        u16_of(value) is Ok
    } else if key == "kind"@ {
        value is String && device_kind_of(text_of(value)->Ok_0) is Some
    } else if key == "exclusive"@ {
        value is Boolean
    } else if key == "chmod"@ {
        u16_of(value) is Ok
    } else {
        false
    }
}

/// The item is one that the section of filters may hold: a table whose
/// entries are all in order and that gives a `ref` or a `name`.
pub open spec fn filter_item_ok(item: Node) -> bool {
    match entries_of(item) {
        Ok(entries) => {
            &&& forall|i: int|
                0 <= i < entries.len() ==> filter_entry_ok(
                    (#[trigger] entries[i]).0@,
                    entries[i].1,
                )
            &&& (has_entry(entries, "ref"@) || has_entry(entries, "name"@))
        },
        Err(_) => false,
    }
}

/// The draft that a filter's table gives from position `from` on, field by
/// field: what the last entry under the field's key holds, or what the draft
/// held before where the table has no such entry.
pub open spec fn filter_read(entries: Seq<(String, Node)>, from: int, draft: FilterDraftView)
    -> FilterDraftView {
    FilterDraftView {
        internal_name: last_text(entries, from, "ref"@, draft.internal_name),
        filter: DeviceFilterView {
            kind: match last_value(entries, from, "kind"@) {
                Some(value) => device_kind_of(text_of(value)->Ok_0),
                None => draft.filter.kind,
            },
            bus: match last_value(entries, from, "bus"@) {
                Some(value) => bus_of(value),
                None => draft.filter.bus,
            },
            vendor: last_u16(entries, from, "vendor"@, draft.filter.vendor),
            not_vendor: last_u16(entries, from, "not_vendor"@, draft.filter.not_vendor),
            product: last_u16(entries, from, "product"@, draft.filter.product),
            version: last_u16(entries, from, "version"@, draft.filter.version),
            name: last_text(entries, from, "name"@, draft.filter.name),
            exclusive: match last_value(entries, from, "exclusive"@) {
                Some(value) => flag_of(value)->Ok_0,
                None => draft.filter.exclusive,
            },
            chmod: last_u16(entries, from, "chmod"@, draft.filter.chmod),
        },
    }
}

/// The keys of a filter's table are ten different words.
pub proof fn lemma_filter_keys_differ()
    ensures
        "ref"@.len() == 3 && "ref"@[0] == 'r',
        "bus"@.len() == 3 && "bus"@[0] == 'b',
        "name"@.len() == 4 && "name"@[0] == 'n',
        "kind"@.len() == 4 && "kind"@[0] == 'k',
        "chmod"@.len() == 5,
        "vendor"@.len() == 6,
        "product"@.len() == 7 && "product"@[0] == 'p',
        "version"@.len() == 7 && "version"@[0] == 'v',
        "exclusive"@.len() == 9,
        "not_vendor"@.len() == 10,
{
    reveal_strlit("ref");
    reveal_strlit("name");
    reveal_strlit("bus");
    reveal_strlit("vendor");
    reveal_strlit("not_vendor");
    reveal_strlit("product");
    reveal_strlit("version");
    reveal_strlit("kind");
    reveal_strlit("exclusive");
    reveal_strlit("chmod");
}

/// An entry is read without a fault exactly where it is in order; an entry
/// in order has a key of the schema.
pub proof fn lemma_filter_step_ok(draft: FilterDraftView, key: Seq<char>, value: Node)
    ensures
        filter_step(draft, key, value) is Ok <==> filter_entry_ok(key, value),
        filter_entry_ok(key, value) ==> filter_key(key),
        !filter_key(key) ==> filter_step(draft, key, value) == Err::<FilterDraftView, Failure>(
            Failure::here(ErrorKind::UnrecognizedKey),
        ),
{
}

/// A table is read without a fault exactly where each entry is in order.
pub proof fn lemma_filter_scan_ok(entries: Seq<(String, Node)>, from: int, draft: FilterDraftView)
    requires
        0 <= from,
    ensures
        filter_scan(entries, from, draft) is Ok <==> forall|i: int|
            from <= i < entries.len() ==> filter_entry_ok(
                (#[trigger] entries[i]).0@,
                entries[i].1,
            ),
    decreases entries.len() - from,
{
    if from < entries.len() {
        lemma_filter_step_ok(draft, entries[from].0@, entries[from].1);
        match filter_step(draft, entries[from].0@, entries[from].1) {
            Ok(next) => {
                lemma_filter_scan_ok(entries, from + 1, next);
                if filter_scan(entries, from, draft) is Ok {
                    assert forall|i: int| from <= i < entries.len() implies filter_entry_ok(
                        (#[trigger] entries[i]).0@,
                        entries[i].1,
                    ) by {
                        if i > from {
                        }
                    }
                }
            },
            Err(_) => {},
        }
    }
}

/// A table that is read without a fault gives, field by field, what the
/// last entry under the field's key holds; a field whose key the table does
/// not have stays as it was.
pub proof fn lemma_filter_scan_reads(
    entries: Seq<(String, Node)>,
    from: int,
    draft: FilterDraftView,
)
    requires
        0 <= from,
        filter_scan(entries, from, draft) is Ok,
    ensures
        filter_scan(entries, from, draft) == Ok::<FilterDraftView, Failure>(
            filter_read(entries, from, draft),
        ),
    decreases entries.len() - from,
{
    lemma_filter_keys_differ();
    if from < entries.len() {
        let next = filter_step(draft, entries[from].0@, entries[from].1)->Ok_0;
        lemma_filter_scan_reads(entries, from + 1, next);
        assert(filter_read(entries, from, draft) == filter_read(entries, from + 1, next));
    }
}

/// An item of the section is read without a fault exactly where it is in
/// order, and then the filter holds what the table gives, every field
/// absent that the table does not give, under the `ref` or else the `name`
/// of the table.
pub proof fn lemma_filter_of(item: Node)
    ensures
        filter_of(item) is Ok <==> filter_item_ok(item),
        filter_of(item) is Ok ==> {
            let read = filter_read(entries_of(item)->Ok_0, 0, blank_filter());
            &&& filter_of(item)->Ok_0.1 == read.filter
            &&& filter_of(item)->Ok_0.0 == match read.internal_name {
                Some(name) => name,
                None => read.filter.name->Some_0,
            }
        },
{
    if let Ok(entries) = entries_of(item) {
        lemma_filter_scan_ok(entries, 0, blank_filter());
        lemma_last_value(entries, 0, "ref"@);
        lemma_last_value(entries, 0, "name"@);
        if filter_scan(entries, 0, blank_filter()) is Ok {
            lemma_filter_scan_reads(entries, 0, blank_filter());
        }
    }
}

/// A section of filters is read without a fault exactly where each item is.
pub proof fn lemma_filters_scan_ok(
    items: Seq<Node>,
    from: int,
    filed: Seq<(Seq<char>, DeviceFilterView)>,
)
    requires
        0 <= from,
    ensures
        filters_scan(items, from, filed) is Ok <==> forall|i: int|
            from <= i < items.len() ==> filter_of(#[trigger] items[i]) is Ok,
    decreases items.len() - from,
{
    if from < items.len() {
        match filter_of(items[from]) {
            Ok(entry) => {
                lemma_filters_scan_ok(items, from + 1, placed(filed, entry.0, entry.1));
                if filters_scan(items, from, filed) is Ok {
                    assert forall|i: int| from <= i < items.len() implies filter_of(
                        #[trigger] items[i],
                    ) is Ok by {
                        if i > from {
                        }
                    }
                }
            },
            Err(_) => {},
        }
    }
}

/// The section of filters is in order: it is an array, and each item is in
/// order.
pub open spec fn filters_ok(section: Node) -> bool {
    match items_of(section) {
        Ok(items) => forall|i: int| 0 <= i < items.len() ==> filter_item_ok(#[trigger] items[i]),
        Err(_) => false,
    }
}

/// A section of filters is read without a fault exactly where it is in
/// order, whatever was on file before.
pub proof fn lemma_filters_of(section: Node, filed: Seq<(Seq<char>, DeviceFilterView)>)
    ensures
        filters_of(section, filed) is Ok <==> filters_ok(section),
{
    if let Ok(items) = items_of(section) {
        lemma_filters_scan_ok(items, 0, filed);
        assert forall|i: int| 0 <= i < items.len() implies (filter_of(#[trigger] items[i]) is Ok
            <==> filter_item_ok(items[i])) by {
            lemma_filter_of(items[i]);
        }
    }
}

/// Reading filters from a position of an array on does not depend on what
/// stands ahead of the array.
pub proof fn lemma_filters_scan_behind(
    ahead: Seq<Node>,
    items: Seq<Node>,
    from: int,
    filed: Seq<(Seq<char>, DeviceFilterView)>,
)
    requires
        0 <= from <= items.len(),
    ensures
        filters_scan(ahead + items, ahead.len() + from, filed) is Ok <==> filters_scan(
            items,
            from,
            filed,
        ) is Ok,
        filters_scan(items, from, filed) is Ok ==> filters_scan(ahead + items, ahead.len() + from, filed)
            == filters_scan(items, from, filed),
    decreases items.len() - from,
{
    if from < items.len() {
        assert((ahead + items)[ahead.len() + from] == items[from]);
        match filter_of(items[from]) {
            Ok(entry) => {
                lemma_filters_scan_behind(ahead, items, from + 1, placed(filed, entry.0, entry.1));
            },
            Err(_) => {},
        }
    }
}

/// Reading two arrays of filters as one array is reading the first and
/// then the second onto what the first gave.
pub proof fn lemma_filters_scan_joined(
    first: Seq<Node>,
    second: Seq<Node>,
    from: int,
    filed: Seq<(Seq<char>, DeviceFilterView)>,
)
    requires
        0 <= from <= first.len(),
        filters_scan(first, from, filed) is Ok,
    ensures
        filters_scan(first + second, from, filed) is Ok <==> filters_scan(
            second,
            0,
            filters_scan(first, from, filed)->Ok_0,
        ) is Ok,
        filters_scan(first + second, from, filed) is Ok ==> filters_scan(first + second, from, filed)
            == filters_scan(second, 0, filters_scan(first, from, filed)->Ok_0),
    decreases first.len() - from,
{
    if from < first.len() {
        assert((first + second)[from] == first[from]);
        let entry = filter_of(first[from])->Ok_0;
        lemma_filters_scan_joined(first, second, from + 1, placed(filed, entry.0, entry.1));
    } else {
        lemma_filters_scan_behind(first, second, 0, filed);
    }
}

} // verus!
