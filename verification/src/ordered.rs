//! The insertion-ordered maps of a configuration, kept in `indexmap`'s
//! `IndexMap`, and what the crate relies on of them.

use vstd::prelude::*;
use indexmap::IndexMap;
use crate::model::{DeviceFilter, DeviceFilterView, VirtualDevice, VirtualDeviceView};

verus! {

#[verifier::external_type_specification]
#[verifier::external_body]
#[verifier::reject_recursive_types(K)]
#[verifier::reject_recursive_types(V)]
#[verifier::reject_recursive_types(S)]
pub struct ExIndexMap<K, V, S>(IndexMap<K, V, S>);

/// The entries of a map of device filters, in the map's order.
pub uninterp spec fn filter_entries(map: IndexMap<String, DeviceFilter>) -> Seq<
    (Seq<char>, DeviceFilterView),
>;

/// The entries of a map of virtual devices, in the map's order.
pub uninterp spec fn device_entries(map: IndexMap<String, VirtualDevice>) -> Seq<
    (Seq<char>, VirtualDeviceView),
>;

/// Some entry of `entries` has the key `key`.
pub open spec fn has_key<V>(entries: Seq<(Seq<char>, V)>, key: Seq<char>) -> bool {
    exists|i: int| 0 <= i < entries.len() && (#[trigger] entries[i]).0 == key
}

/// The entries after `value` was put under `key`: where the key is there
/// already its entry stays in place and takes the new value, else the new
/// entry comes last.
pub open spec fn placed<V>(entries: Seq<(Seq<char>, V)>, key: Seq<char>, value: V) -> Seq<
    (Seq<char>, V),
> {
    if has_key(entries, key) {
        Seq::new(
            entries.len(),
            |i: int|
                if entries[i].0 == key {
                    (key, value)
                } else {
                    entries[i]
                },
        )
    } else {
        entries.push((key, value))
    }
}

/// No two entries have the same key.
pub open spec fn distinct_keys<V>(entries: Seq<(Seq<char>, V)>) -> bool {
    forall|i: int, j: int|
        0 <= i < j < entries.len() ==> (#[trigger] entries[i]).0 != (#[trigger] entries[j]).0
}

/// `IndexMap::new`: a map without entries.
#[verifier::external_body]
pub(crate) fn new_filters() -> (map: IndexMap<String, DeviceFilter>)
    ensures
        filter_entries(map) == Seq::<(Seq<char>, DeviceFilterView)>::empty(),
{
    IndexMap::new()
}

/// `IndexMap::insert`: an entry with an equal key keeps its place and takes
/// the new value; otherwise the new entry comes last.
#[verifier::external_body]
pub(crate) fn insert_filter(
    map: &mut IndexMap<String, DeviceFilter>,
    key: String,
    value: DeviceFilter,
)
    ensures
        filter_entries(*final(map)) == placed(filter_entries(*old(map)), key@, value@),
{
    map.insert(key, value);
}

/// `IndexMap::contains_key`: whether an entry has an equal key.
#[verifier::external_body]
pub(crate) fn contains_filter(map: &IndexMap<String, DeviceFilter>, key: &str) -> (found: bool)
    ensures
        found == has_key(filter_entries(*map), key@),
{
    map.contains_key(key)
}

/// `IndexMap::new`: a map without entries.
#[verifier::external_body]
pub(crate) fn new_devices() -> (map: IndexMap<String, VirtualDevice>)
    ensures
        device_entries(map) == Seq::<(Seq<char>, VirtualDeviceView)>::empty(),
{
    IndexMap::new()
}

/// `IndexMap::insert`: an entry with an equal key keeps its place and takes
/// the new value; otherwise the new entry comes last.
#[verifier::external_body]
pub(crate) fn insert_device(
    map: &mut IndexMap<String, VirtualDevice>,
    key: String,
    value: VirtualDevice,
)
    ensures
        device_entries(*final(map)) == placed(device_entries(*old(map)), key@, value@),
{
    map.insert(key, value);
}

/// `IndexMap::len`: the number of entries.
#[verifier::external_body]
pub(crate) fn count_devices(map: &IndexMap<String, VirtualDevice>) -> (count: usize)
    ensures
        count == device_entries(*map).len(),
{
    map.len()
}

/// `IndexMap::get_index`: the entry at a position of the map's order, `None`
/// from the number of entries on.
#[verifier::external_body]
pub(crate) fn device_at(map: &IndexMap<String, VirtualDevice>, index: usize) -> (entry: Option<
    (&String, &VirtualDevice),
>)
    ensures
        entry is Some == (index < device_entries(*map).len()),
        entry matches Some(pair) ==> (pair.0@, pair.1@) == device_entries(*map)[index as int],
{
    map.get_index(index)
}

} // verus!
