//! What holds of the insertion-ordered maps of a configuration: the order of
//! first declaration is kept, and a later declaration under the same name
//! takes the place of an earlier one.

use vstd::prelude::*;
use crate::device::{device_of, devices_scan};
use crate::document::Node;
use crate::filter::{filter_of, filters_scan};
use crate::model::{DeviceFilterView, VirtualDeviceView};
use crate::ordered::{distinct_keys, has_key, placed};

verus! {

/// The keys of a sequence of entries, in order.
pub open spec fn keys_in_order<V>(entries: Seq<(Seq<char>, V)>) -> Seq<Seq<char>> {
    Seq::new(entries.len(), |i: int| entries[i].0)
}

/// `entries` has the key `key`, and has `value` wherever it has that key.
pub open spec fn holds<V>(entries: Seq<(Seq<char>, V)>, key: Seq<char>, value: V) -> bool {
    &&& has_key(entries, key)
    &&& forall|i: int|
        0 <= i < entries.len() && (#[trigger] entries[i]).0 == key ==> entries[i].1 == value
}

/// Putting a value under a key leaves the order of the keys as it was: a
/// key that is new comes last, a key that was there keeps its place.
pub proof fn lemma_placed_keeps_order<V>(entries: Seq<(Seq<char>, V)>, key: Seq<char>, value: V)
    ensures
        has_key(entries, key) ==> keys_in_order(placed(entries, key, value)) == keys_in_order(
            entries,
        ),
        !has_key(entries, key) ==> keys_in_order(placed(entries, key, value)) == keys_in_order(
            entries,
        ).push(key),
{
    if has_key(entries, key) {
        assert(keys_in_order(placed(entries, key, value)) =~= keys_in_order(entries));
    } else {
        assert(keys_in_order(placed(entries, key, value)) =~= keys_in_order(entries).push(key));
    }
}

/// Putting a value under a key never makes two entries share a key.
pub proof fn lemma_placed_keeps_keys_distinct<V>(
    entries: Seq<(Seq<char>, V)>,
    key: Seq<char>,
    value: V,
)
    requires
        distinct_keys(entries),
    ensures
        distinct_keys(placed(entries, key, value)),
{
    let after = placed(entries, key, value);
    if has_key(entries, key) {
        assert forall|i: int, j: int| 0 <= i < j < after.len() implies (#[trigger] after[i]).0 != (
            #[trigger] after[j]
        ).0 by {
            assert(after[i].0 == entries[i].0);
            assert(after[j].0 == entries[j].0);
        }
    } else {
        assert forall|i: int, j: int| 0 <= i < j < after.len() implies (#[trigger] after[i]).0 != (
            #[trigger] after[j]
        ).0 by {
            if j < entries.len() {
                assert(after[i] == entries[i]);
                assert(after[j] == entries[j]);
            } else {
                assert(after[i] == entries[i]);
            }
        }
    }
}

/// After a value was put under a key, the key is there and has that value:
/// a second declaration under a name takes the place of the first.
pub proof fn lemma_placed_holds<V>(entries: Seq<(Seq<char>, V)>, key: Seq<char>, value: V)
    ensures
        holds(placed(entries, key, value), key, value),
{
    let after = placed(entries, key, value);
    if has_key(entries, key) {
        let at = choose|i: int| 0 <= i < entries.len() && (#[trigger] entries[i]).0 == key;
        assert(after[at].0 == key);
    } else {
        assert(after[entries.len() as int].0 == key);
        assert forall|i: int| 0 <= i < after.len() && (#[trigger] after[i]).0 == key implies after[i].1
            == value by {
            if i < entries.len() {
                assert(after[i] == entries[i]);
            }
        }
    }
}

/// Putting a value under one key leaves what another key holds as it was.
pub proof fn lemma_placed_elsewhere<V>(
    entries: Seq<(Seq<char>, V)>,
    key: Seq<char>,
    value: V,
    other: Seq<char>,
    kept: V,
)
    requires
        other != key,
    ensures
        has_key(placed(entries, key, value), other) == has_key(entries, other),
        holds(entries, other, kept) ==> holds(placed(entries, key, value), other, kept),
{
    let after = placed(entries, key, value);
    if has_key(entries, other) {
        let at = choose|i: int| 0 <= i < entries.len() && (#[trigger] entries[i]).0 == other;
        assert(after[at].0 == other);
    }
    if has_key(after, other) {
        let at = choose|i: int| 0 <= i < after.len() && (#[trigger] after[i]).0 == other;
        assert(at < entries.len());
        assert(entries[at].0 == other);
    }
    if holds(entries, other, kept) {
        assert forall|i: int| 0 <= i < after.len() && (#[trigger] after[i]).0 == other implies after[i].1
            == kept by {
            assert(i < entries.len());
            assert(entries[i].0 == other);
        }
    }
}

/// The name under which an item of the section of filters is filed.
pub open spec fn filter_name(item: Node) -> Seq<char> {
    filter_of(item)->Ok_0.0
}

/// The filter that an item of the section of filters describes.
pub open spec fn filter_value(item: Node) -> DeviceFilterView {
    filter_of(item)->Ok_0.1
}

/// The name under which an item of the section of virtual devices is filed.
pub open spec fn device_name(item: Node) -> Seq<char> {
    device_of(item)->Ok_0.0
}

/// The virtual device that an item of the section of virtual devices
/// describes.
pub open spec fn device_value(item: Node) -> VirtualDeviceView {
    device_of(item)->Ok_0.1
}

/// Filters whose names differ from each other are filed one after the
/// other: behind what was on file before, in the order of the section.
pub proof fn lemma_filters_in_section_order(
    items: Seq<Node>,
    from: int,
    filed: Seq<(Seq<char>, DeviceFilterView)>,
)
    requires
        0 <= from <= items.len(),
        filters_scan(items, from, filed) is Ok,
        forall|i: int| from <= i < items.len() ==> !has_key(filed, filter_name(#[trigger] items[i])),
        forall|i: int, j: int|
            from <= i < j < items.len() ==> filter_name(#[trigger] items[i]) != filter_name(
                #[trigger] items[j],
            ),
    ensures
        filters_scan(items, from, filed)->Ok_0 == filed + Seq::new(
            (items.len() - from) as nat,
            |i: int| (filter_name(items[from + i]), filter_value(items[from + i])),
        ),
    decreases items.len() - from,
{
    let rest = Seq::new(
        (items.len() - from) as nat,
        |i: int| (filter_name(items[from + i]), filter_value(items[from + i])),
    );
    if from == items.len() {
        assert(filed + rest =~= filed);
    } else {
        let name = filter_name(items[from]);
        let value = filter_value(items[from]);
        let next = placed(filed, name, value);
        assert(next == filed.push((name, value)));
        assert forall|i: int| from + 1 <= i < items.len() implies !has_key(
            next,
            filter_name(#[trigger] items[i]),
        ) by {
            lemma_placed_elsewhere(filed, name, value, filter_name(items[i]), value);
        }
        lemma_filters_in_section_order(items, from + 1, next);
        let shorter = Seq::new(
            (items.len() - from - 1) as nat,
            |i: int| (filter_name(items[from + 1 + i]), filter_value(items[from + 1 + i])),
        );
        assert(next + shorter =~= filed + rest);
    }
}

/// Virtual devices whose names differ from each other are filed one after
/// the other: behind what was on file before, in the order of the section.
pub proof fn lemma_devices_in_section_order(
    items: Seq<Node>,
    from: int,
    filed: Seq<(Seq<char>, VirtualDeviceView)>,
)
    requires
        0 <= from <= items.len(),
        devices_scan(items, from, filed) is Ok,
        forall|i: int| from <= i < items.len() ==> !has_key(filed, device_name(#[trigger] items[i])),
        forall|i: int, j: int|
            from <= i < j < items.len() ==> device_name(#[trigger] items[i]) != device_name(
                #[trigger] items[j],
            ),
    ensures
        devices_scan(items, from, filed)->Ok_0 == filed + Seq::new(
            (items.len() - from) as nat,
            |i: int| (device_name(items[from + i]), device_value(items[from + i])),
        ),
    decreases items.len() - from,
{
    let rest = Seq::new(
        (items.len() - from) as nat,
        |i: int| (device_name(items[from + i]), device_value(items[from + i])),
    );
    if from == items.len() {
        assert(filed + rest =~= filed);
    } else {
        let name = device_name(items[from]);
        let value = device_value(items[from]);
        let next = placed(filed, name, value);
        assert(next == filed.push((name, value)));
        assert forall|i: int| from + 1 <= i < items.len() implies !has_key(
            next,
            device_name(#[trigger] items[i]),
        ) by {
            lemma_placed_elsewhere(filed, name, value, device_name(items[i]), value);
        }
        lemma_devices_in_section_order(items, from + 1, next);
        let shorter = Seq::new(
            (items.len() - from - 1) as nat,
            |i: int| (device_name(items[from + 1 + i]), device_value(items[from + 1 + i])),
        );
        assert(next + shorter =~= filed + rest);
    }
}

/// The names of `names` from position `from` on in the order in which each
/// first appears, behind those seen before.
pub open spec fn in_order_of_appearance(
    names: Seq<Seq<char>>,
    from: int,
    seen: Seq<Seq<char>>,
) -> Seq<Seq<char>>
    decreases names.len() - from,
{
    if from < 0 || from >= names.len() {
        seen
    } else if seen.contains(names[from]) {
        in_order_of_appearance(names, from + 1, seen)
    } else {
        in_order_of_appearance(names, from + 1, seen.push(names[from]))
    }
}

/// The names under which the items of a section of filters are filed.
pub open spec fn filter_names(items: Seq<Node>) -> Seq<Seq<char>> {
    Seq::new(items.len(), |i: int| filter_name(items[i]))
}

/// The names under which the items of a section of virtual devices are
/// filed.
pub open spec fn device_names(items: Seq<Node>) -> Seq<Seq<char>> {
    Seq::new(items.len(), |i: int| device_name(items[i]))
}

/// A key is among the entries exactly where it is among their keys.
pub proof fn lemma_has_key_is_contains<V>(entries: Seq<(Seq<char>, V)>, key: Seq<char>)
    ensures
        has_key(entries, key) == keys_in_order(entries).contains(key),
{
    let keys = keys_in_order(entries);
    if has_key(entries, key) {
        let at = choose|i: int| 0 <= i < entries.len() && (#[trigger] entries[i]).0 == key;
        assert(keys[at] == key);
    }
    if keys.contains(key) {
        let at = choose|i: int| 0 <= i < keys.len() && keys[i] == key;
        assert(entries[at].0 == key);
    }
}

/// The filters of a map stand in the order in which their names first
/// appear in the section, whether or not a name appears again.
pub proof fn lemma_filters_in_order_of_appearance(
    items: Seq<Node>,
    from: int,
    filed: Seq<(Seq<char>, DeviceFilterView)>,
)
    requires
        0 <= from <= items.len(),
        filters_scan(items, from, filed) is Ok,
    ensures
        keys_in_order(filters_scan(items, from, filed)->Ok_0) == in_order_of_appearance(
            filter_names(items),
            from,
            keys_in_order(filed),
        ),
    decreases items.len() - from,
{
    if from < items.len() {
        let name = filter_name(items[from]);
        let value = filter_value(items[from]);
        lemma_placed_keeps_order(filed, name, value);
        lemma_has_key_is_contains(filed, name);
        lemma_filters_in_order_of_appearance(items, from + 1, placed(filed, name, value));
    }
}

/// The virtual devices of a map stand in the order in which their names
/// first appear in the section, whether or not a name appears again.
pub proof fn lemma_devices_in_order_of_appearance(
    items: Seq<Node>,
    from: int,
    filed: Seq<(Seq<char>, VirtualDeviceView)>,
)
    requires
        0 <= from <= items.len(),
        devices_scan(items, from, filed) is Ok,
    ensures
        keys_in_order(devices_scan(items, from, filed)->Ok_0) == in_order_of_appearance(
            device_names(items),
            from,
            keys_in_order(filed),
        ),
    decreases items.len() - from,
{
    if from < items.len() {
        let name = device_name(items[from]);
        let value = device_value(items[from]);
        lemma_placed_keeps_order(filed, name, value);
        lemma_has_key_is_contains(filed, name);
        lemma_devices_in_order_of_appearance(items, from + 1, placed(filed, name, value));
    }
}

/// Where several filters of a section share a name, the map holds under
/// that name what the last of them declares.
pub proof fn lemma_last_filter_wins(
    items: Seq<Node>,
    from: int,
    filed: Seq<(Seq<char>, DeviceFilterView)>,
    last: int,
)
    requires
        0 <= from <= last < items.len(),
        filters_scan(items, from, filed) is Ok,
        forall|i: int|
            last < i < items.len() ==> filter_name(#[trigger] items[i]) != filter_name(items[last]),
    ensures
        holds(
            filters_scan(items, from, filed)->Ok_0,
            filter_name(items[last]),
            filter_value(items[last]),
        ),
    decreases items.len() - from,
{
    let name = filter_name(items[last]);
    let value = filter_value(items[last]);
    let next = placed(filed, filter_name(items[from]), filter_value(items[from]));
    if from < last {
        lemma_last_filter_wins(items, from + 1, next, last);
    } else {
        lemma_placed_holds(filed, name, value);
        lemma_filters_keep(items, from + 1, next, name, value);
    }
}

/// What the map holds under a name stays as it is while filters of other
/// names are filed.
pub proof fn lemma_filters_keep(
    items: Seq<Node>,
    from: int,
    filed: Seq<(Seq<char>, DeviceFilterView)>,
    name: Seq<char>,
    value: DeviceFilterView,
)
    requires
        0 <= from <= items.len(),
        filters_scan(items, from, filed) is Ok,
        holds(filed, name, value),
        forall|i: int| from <= i < items.len() ==> filter_name(#[trigger] items[i]) != name,
    ensures
        holds(filters_scan(items, from, filed)->Ok_0, name, value),
    decreases items.len() - from,
{
    if from < items.len() {
        let next = placed(filed, filter_name(items[from]), filter_value(items[from]));
        lemma_placed_elsewhere(
            filed,
            filter_name(items[from]),
            filter_value(items[from]),
            name,
            value,
        );
        lemma_filters_keep(items, from + 1, next, name, value);
    }
}

/// Where several virtual devices of a section share a name, the map holds
/// under that name what the last of them declares.
pub proof fn lemma_last_device_wins(
    items: Seq<Node>,
    from: int,
    filed: Seq<(Seq<char>, VirtualDeviceView)>,
    last: int,
)
    requires
        0 <= from <= last < items.len(),
        devices_scan(items, from, filed) is Ok,
        forall|i: int|
            last < i < items.len() ==> device_name(#[trigger] items[i]) != device_name(items[last]),
    ensures
        holds(
            devices_scan(items, from, filed)->Ok_0,
            device_name(items[last]),
            device_value(items[last]),
        ),
    decreases items.len() - from,
{
    let name = device_name(items[last]);
    let value = device_value(items[last]);
    let next = placed(filed, device_name(items[from]), device_value(items[from]));
    if from < last {
        lemma_last_device_wins(items, from + 1, next, last);
    } else {
        lemma_placed_holds(filed, name, value);
        lemma_devices_keep(items, from + 1, next, name, value);
    }
}

/// What the map holds under a name stays as it is while virtual devices of
/// other names are filed.
pub proof fn lemma_devices_keep(
    items: Seq<Node>,
    from: int,
    filed: Seq<(Seq<char>, VirtualDeviceView)>,
    name: Seq<char>,
    value: VirtualDeviceView,
)
    requires
        0 <= from <= items.len(),
        devices_scan(items, from, filed) is Ok,
        holds(filed, name, value),
        forall|i: int| from <= i < items.len() ==> device_name(#[trigger] items[i]) != name,
    ensures
        holds(devices_scan(items, from, filed)->Ok_0, name, value),
    decreases items.len() - from,
{
    if from < items.len() {
        let next = placed(filed, device_name(items[from]), device_value(items[from]));
        lemma_placed_elsewhere(
            filed,
            device_name(items[from]),
            device_value(items[from]),
            name,
            value,
        );
        lemma_devices_keep(items, from + 1, next, name, value);
    }
}

/// While filters are filed, no two entries of the map come to share a
/// name.
pub proof fn lemma_filters_keep_names_distinct(
    items: Seq<Node>,
    from: int,
    filed: Seq<(Seq<char>, DeviceFilterView)>,
)
    requires
        0 <= from <= items.len(),
        filters_scan(items, from, filed) is Ok,
        distinct_keys(filed),
    ensures
        distinct_keys(filters_scan(items, from, filed)->Ok_0),
    decreases items.len() - from,
{
    if from < items.len() {
        let name = filter_name(items[from]);
        let value = filter_value(items[from]);
        lemma_placed_keeps_keys_distinct(filed, name, value);
        lemma_filters_keep_names_distinct(items, from + 1, placed(filed, name, value));
    }
}

/// While virtual devices are filed, no two entries of the map come to
/// share a name.
pub proof fn lemma_devices_keep_names_distinct(
    items: Seq<Node>,
    from: int,
    filed: Seq<(Seq<char>, VirtualDeviceView)>,
)
    requires
        0 <= from <= items.len(),
        devices_scan(items, from, filed) is Ok,
        distinct_keys(filed),
    ensures
        distinct_keys(devices_scan(items, from, filed)->Ok_0),
    decreases items.len() - from,
{
    if from < items.len() {
        let name = device_name(items[from]);
        let value = device_value(items[from]);
        lemma_placed_keeps_keys_distinct(filed, name, value);
        lemma_devices_keep_names_distinct(items, from + 1, placed(filed, name, value));
    }
}

} // verus!
