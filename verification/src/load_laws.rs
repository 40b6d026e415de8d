//! What holds of a whole load: which documents give a configuration, that
//! a key outside the schema never does, and how a section of the
//! configuration goes back to the section of the document.

use vstd::prelude::*;
use crate::axis_laws::{axes_ok, axis_entry_ok, axis_key, calibration_ok};
use crate::device::{blank_device, devices_scan};
use crate::device_laws::{
    device_entry_ok, device_item_ok, device_key, device_read, devices_ok, lemma_device_of,
    lemma_devices_of, lemma_devices_scan_joined, lemma_devices_scan_keeps_axes_distinct,
    lemma_devices_scan_ok,
};
use crate::document::{Node, entries_of, items_of};
use crate::error::{ErrorKind, Failure};
use crate::filter::{blank_filter, filters_scan};
use crate::filter_laws::{
    filter_entry_ok, filter_item_ok, filter_key, filter_read, filters_ok, lemma_filter_of,
    lemma_filters_of, lemma_filters_scan_joined, lemma_filters_scan_ok,
};
use crate::load::{
    blank_config, calibrated_once, consistent, lemma_cross_fault_none_iff_consistent, load_of,
    section_step, sections_scan,
};
use crate::model::{ConfigView, DeviceFilterView, ScriptView, VirtualDeviceView};
use crate::order_laws::{
    device_name, device_names, device_value, filter_name, filter_names, filter_value, holds,
    in_order_of_appearance, keys_in_order, lemma_devices_in_order_of_appearance,
    lemma_devices_in_section_order, lemma_devices_keep_names_distinct,
    lemma_filters_in_order_of_appearance, lemma_filters_in_section_order,
    lemma_filters_keep_names_distinct, lemma_last_device_wins, lemma_last_filter_wins,
};
use crate::ordered::{distinct_keys, has_key};
use crate::script::{blank_script, scripts_scan};
use crate::script_laws::{
    lemma_script_of, lemma_scripts_of, lemma_scripts_scan, lemma_scripts_scan_joined,
    script_entry_ok, script_item_ok, script_key, script_read, scripts_ok, scripts_read,
};

verus! {

/// `key` is one of the keys of a document's root.
pub open spec fn section_key(key: Seq<char>) -> bool {
    key == "device-filter"@ || key == "virtual-device"@ || key == "script"@
}

/// The entry is one that a document's root may hold: the key of a section,
/// with a section in order as its value.
pub open spec fn section_ok(key: Seq<char>, value: Node) -> bool {
    if key == "device-filter"@ {
        filters_ok(value)
    } else if key == "virtual-device"@ {
        devices_ok(value)
    } else if key == "script"@ {
        scripts_ok(value)
    } else {
        false
    }
}

/// The document is in order: its root is a table of sections in order.
/// Every key at every level is then one of the schema, every value has the
/// shape and the range that its key asks for, and no mandatory key is
/// absent.
pub open spec fn well_formed(root: Node) -> bool {
    match entries_of(root) {
        Ok(entries) => forall|i: int|
            0 <= i < entries.len() ==> section_ok((#[trigger] entries[i]).0@, entries[i].1),
        Err(_) => false,
    }
}

/// An entry of the root is read without a fault exactly where it is in
/// order; a key that names no section is an `UnrecognizedKey`.
pub proof fn lemma_section_step_ok(config: ConfigView, key: Seq<char>, value: Node)
    ensures
        section_step(config, key, value) is Ok <==> section_ok(key, value),
        section_ok(key, value) ==> section_key(key),
        !section_key(key) ==> section_step(config, key, value) == Err::<ConfigView, Failure>(
            Failure::here(ErrorKind::UnrecognizedKey),
        ),
{
    lemma_filters_of(value, config.device_filters);
    lemma_devices_of(value, config.virtual_devices);
    lemma_scripts_of(value, config.scripts);
}

/// The root is read without a fault exactly where each entry is in order.
pub proof fn lemma_sections_scan_ok(entries: Seq<(String, Node)>, from: int, config: ConfigView)
    requires
        0 <= from,
    ensures
        sections_scan(entries, from, config) is Ok <==> forall|i: int|
            from <= i < entries.len() ==> section_ok((#[trigger] entries[i]).0@, entries[i].1),
    decreases entries.len() - from,
{
    if from < entries.len() {
        lemma_section_step_ok(config, entries[from].0@, entries[from].1);
        match section_step(config, entries[from].0@, entries[from].1) {
            Ok(next) => {
                lemma_sections_scan_ok(entries, from + 1, next);
                if sections_scan(entries, from, config) is Ok {
                    assert forall|i: int| from <= i < entries.len() implies section_ok(
                        (#[trigger] entries[i]).0@,
                        entries[i].1,
                    ) by {
                        if i > from {
                        }
                    }
                }
            },
            Err(_) => {},
        }
    }
}

/// A document gives a configuration exactly where it is in order and its
/// sections agree with each other; the configuration is then what the
/// sections give, and it is consistent.
pub proof fn lemma_load_of(root: Node)
    ensures
        load_of(root) is Ok <==> well_formed(root) && consistent(
            sections_scan(entries_of(root)->Ok_0, 0, blank_config())->Ok_0,
        ),
        load_of(root) matches Ok(config) ==> consistent(config) && sections_scan(
            entries_of(root)->Ok_0,
            0,
            blank_config(),
        ) == Ok::<ConfigView, Failure>(config),
{
    if let Ok(entries) = entries_of(root) {
        lemma_sections_scan_ok(entries, 0, blank_config());
        if let Ok(config) = sections_scan(entries, 0, blank_config()) {
            lemma_cross_fault_none_iff_consistent(config);
        }
    }
}

/// A document whose root has a key that names no section gives no
/// configuration.
pub proof fn lemma_unknown_section_fails(root: Node, at: int)
    requires
        entries_of(root) is Ok,
        0 <= at < entries_of(root)->Ok_0.len(),
        !section_key(entries_of(root)->Ok_0[at].0@),
    ensures
        load_of(root) is Err,
{
    lemma_load_of(root);
    let entries = entries_of(root)->Ok_0;
    lemma_section_step_ok(blank_config(), entries[at].0@, entries[at].1);
}

/// A document with a section that is not in order gives no configuration.
pub proof fn lemma_faulty_section_fails(root: Node, at: int)
    requires
        entries_of(root) is Ok,
        0 <= at < entries_of(root)->Ok_0.len(),
        !section_ok(entries_of(root)->Ok_0[at].0@, entries_of(root)->Ok_0[at].1),
    ensures
        load_of(root) is Err,
{
    lemma_load_of(root);
}

/// The entry at a position of a table: its key and its value.
pub open spec fn entry_at(table: Node, at: int) -> Option<(Seq<char>, Node)> {
    match entries_of(table) {
        Ok(entries) => if 0 <= at < entries.len() {
            Some((entries[at].0@, entries[at].1))
        } else {
            None
        },
        Err(_) => None,
    }
}

/// The item at a position of an array.
pub open spec fn item_at(array: Node, at: int) -> Option<Node> {
    match items_of(array) {
        Ok(items) => if 0 <= at < items.len() {
            Some(items[at])
        } else {
            None
        },
        Err(_) => None,
    }
}

/// The entry at position `at` of the table that is item `item` of the
/// section that the root holds at position `section` under the key `key`.
pub open spec fn entry_in_section(root: Node, section: int, key: Seq<char>, item: int, at: int)
    -> Option<(Seq<char>, Node)> {
    match entry_at(root, section) {
        Some(found) => if found.0 == key {
            match item_at(found.1, item) {
                Some(table) => entry_at(table, at),
                None => None,
            }
        } else {
            None
        },
        None => None,
    }
}

/// The three keys of a document's root are different words.
pub proof fn lemma_section_keys_differ()
    ensures
        "script"@.len() == 6,
        "device-filter"@.len() == 13,
        "virtual-device"@.len() == 14,
{
    reveal_strlit("script");
    reveal_strlit("device-filter");
    reveal_strlit("virtual-device");
}

/// A document in which the table of a device filter has a key outside the
/// schema gives no configuration.
pub proof fn lemma_unknown_filter_key_fails(root: Node, section: int, item: int, at: int)
    requires
        entry_in_section(root, section, "device-filter"@, item, at) matches Some(entry)
            && !filter_key(entry.0),
    ensures
        load_of(root) is Err,
{
    let filters = entry_at(root, section)->Some_0.1;
    let table = item_at(filters, item)->Some_0;
    let entries = entries_of(table)->Ok_0;
    assert(!filter_entry_ok(entries[at].0@, entries[at].1));
    assert(!filter_item_ok(items_of(filters)->Ok_0[item]));
    lemma_faulty_section_fails(root, section);
}

/// A document in which the table of a virtual device has a key outside the
/// schema gives no configuration.
pub proof fn lemma_unknown_device_key_fails(root: Node, section: int, item: int, at: int)
    requires
        entry_in_section(root, section, "virtual-device"@, item, at) matches Some(entry)
            && !device_key(entry.0),
    ensures
        load_of(root) is Err,
{
    lemma_section_keys_differ();
    let devices = entry_at(root, section)->Some_0.1;
    let table = item_at(devices, item)->Some_0;
    let entries = entries_of(table)->Ok_0;
    assert(!device_entry_ok(entries[at].0@, entries[at].1));
    assert(!device_item_ok(items_of(devices)->Ok_0[item]));
    lemma_faulty_section_fails(root, section);
}

/// A document in which the table of a script has a key outside the schema
/// gives no configuration.
pub proof fn lemma_unknown_script_key_fails(root: Node, section: int, item: int, at: int)
    requires
        entry_in_section(root, section, "script"@, item, at) matches Some(entry) && !script_key(
            entry.0,
        ),
    ensures
        load_of(root) is Err,
{
    lemma_section_keys_differ();
    let scripts = entry_at(root, section)->Some_0.1;
    let table = item_at(scripts, item)->Some_0;
    let entries = entries_of(table)->Ok_0;
    assert(!script_entry_ok(entries[at].0@, entries[at].1));
    assert(!script_item_ok(items_of(scripts)->Ok_0[item]));
    lemma_faulty_section_fails(root, section);
}

/// A document in which the calibration of an absolute axis has a key
/// outside the schema gives no configuration: the table of axes stands
/// under `abs` in the table of a virtual device, the calibration at position
/// `axis` of it, and the key at position `at` of the calibration.
pub proof fn lemma_unknown_axis_key_fails(
    root: Node,
    section: int,
    item: int,
    entry: int,
    axis: int,
    at: int,
)
    requires
        entry_in_section(root, section, "virtual-device"@, item, entry) matches Some(axes)
            && axes.0 == "abs"@ && (entry_at(axes.1, axis) matches Some(calibration) && (entry_at(
            calibration.1,
            at,
        ) matches Some(found) && !axis_key(found.0))),
    ensures
        load_of(root) is Err,
{
    lemma_section_keys_differ();
    crate::device_laws::lemma_device_keys_differ();
    let devices = entry_at(root, section)->Some_0.1;
    let table = item_at(devices, item)->Some_0;
    let entries = entries_of(table)->Ok_0;
    let axes = entries[entry].1;
    let calibration = entries_of(axes)->Ok_0[axis].1;
    let inner = entries_of(calibration)->Ok_0;
    assert(!axis_entry_ok(inner[at].0@, inner[at].1));
    assert(!calibration_ok(calibration));
    assert(!axes_ok(axes));
    assert(!device_entry_ok(entries[entry].0@, entries[entry].1));
    assert(!device_item_ok(items_of(devices)->Ok_0[item]));
    lemma_faulty_section_fails(root, section);
}

/// The items of all the sections that the root holds under `key` from
/// position `from` on, in the order of the document.
pub open spec fn section_items(entries: Seq<(String, Node)>, from: int, key: Seq<char>) -> Seq<
    Node,
>
    decreases entries.len() - from,
{
    if from < 0 || from >= entries.len() {
        Seq::empty()
    } else if entries[from].0@ == key {
        items_of(entries[from].1)->Ok_0 + section_items(entries, from + 1, key)
    } else {
        section_items(entries, from + 1, key)
    }
}

/// The items that a document holds under the key of a section, in the order
/// of the document: none where the root has no such section, those of the
/// one section where it has one.
pub open spec fn all_items(root: Node, key: Seq<char>) -> Seq<Node> {
    section_items(entries_of(root)->Ok_0, 0, key)
}

/// The device filters of a load are those that the items under
/// `device-filter` give, filed in the order of the document.
pub proof fn lemma_filters_of_sections(entries: Seq<(String, Node)>, from: int, config: ConfigView)
    requires
        0 <= from <= entries.len(),
        sections_scan(entries, from, config) is Ok,
    ensures
        filters_scan(section_items(entries, from, "device-filter"@), 0, config.device_filters)
            == Ok::<Seq<(Seq<char>, DeviceFilterView)>, Failure>(
            sections_scan(entries, from, config)->Ok_0.device_filters,
        ),
    decreases entries.len() - from,
{
    if from < entries.len() {
        let key = entries[from].0@;
        let value = entries[from].1;
        let next = section_step(config, key, value)->Ok_0;
        lemma_filters_of_sections(entries, from + 1, next);
        if key == "device-filter"@ {
            lemma_filters_scan_joined(
                items_of(value)->Ok_0,
                section_items(entries, from + 1, "device-filter"@),
                0,
                config.device_filters,
            );
        }
    }
}

/// The virtual devices of a load are those that the items under
/// `virtual-device` give, filed in the order of the document.
pub proof fn lemma_devices_of_sections(entries: Seq<(String, Node)>, from: int, config: ConfigView)
    requires
        0 <= from <= entries.len(),
        sections_scan(entries, from, config) is Ok,
    ensures
        devices_scan(section_items(entries, from, "virtual-device"@), 0, config.virtual_devices)
            == Ok::<Seq<(Seq<char>, VirtualDeviceView)>, Failure>(
            sections_scan(entries, from, config)->Ok_0.virtual_devices,
        ),
    decreases entries.len() - from,
{
    lemma_section_keys_differ();
    if from < entries.len() {
        let key = entries[from].0@;
        let value = entries[from].1;
        let next = section_step(config, key, value)->Ok_0;
        lemma_devices_of_sections(entries, from + 1, next);
        if key == "virtual-device"@ {
            lemma_devices_scan_joined(
                items_of(value)->Ok_0,
                section_items(entries, from + 1, "virtual-device"@),
                0,
                config.virtual_devices,
            );
        }
    }
}

/// The scripts of a load are those that the items under `script` give, in
/// the order of the document.
pub proof fn lemma_scripts_of_sections(entries: Seq<(String, Node)>, from: int, config: ConfigView)
    requires
        0 <= from <= entries.len(),
        sections_scan(entries, from, config) is Ok,
    ensures
        scripts_scan(section_items(entries, from, "script"@), 0, config.scripts) == Ok::<
            Seq<ScriptView>,
            Failure,
        >(sections_scan(entries, from, config)->Ok_0.scripts),
    decreases entries.len() - from,
{
    lemma_section_keys_differ();
    if from < entries.len() {
        let key = entries[from].0@;
        let value = entries[from].1;
        let next = section_step(config, key, value)->Ok_0;
        lemma_scripts_of_sections(entries, from + 1, next);
        if key == "script"@ {
            lemma_scripts_scan_joined(
                items_of(value)->Ok_0,
                section_items(entries, from + 1, "script"@),
                0,
                config.scripts,
            );
        }
    }
}

/// Each collection of a configuration that was loaded is what the items of
/// its section give, read in the order of the document, whatever sections
/// the document has.
pub proof fn lemma_sections_of_document(root: Node)
    requires
        load_of(root) is Ok,
    ensures
        filters_scan(all_items(root, "device-filter"@), 0, Seq::empty()) == Ok::<
            Seq<(Seq<char>, DeviceFilterView)>,
            Failure,
        >(load_of(root)->Ok_0.device_filters),
        devices_scan(all_items(root, "virtual-device"@), 0, Seq::empty()) == Ok::<
            Seq<(Seq<char>, VirtualDeviceView)>,
            Failure,
        >(load_of(root)->Ok_0.virtual_devices),
        scripts_scan(all_items(root, "script"@), 0, Seq::empty()) == Ok::<
            Seq<ScriptView>,
            Failure,
        >(load_of(root)->Ok_0.scripts),
{
    lemma_load_of(root);
    let entries = entries_of(root)->Ok_0;
    lemma_filters_of_sections(entries, 0, blank_config());
    lemma_devices_of_sections(entries, 0, blank_config());
    lemma_scripts_of_sections(entries, 0, blank_config());
}

/// The device filters of a configuration stand in the order in which their
/// names first appear in the document.
pub proof fn lemma_filters_keep_document_order(root: Node)
    requires
        load_of(root) is Ok,
    ensures
        keys_in_order(load_of(root)->Ok_0.device_filters) == in_order_of_appearance(
            filter_names(all_items(root, "device-filter"@)),
            0,
            Seq::empty(),
        ),
{
    lemma_sections_of_document(root);
    lemma_filters_in_order_of_appearance(all_items(root, "device-filter"@), 0, Seq::empty());
    assert(keys_in_order(Seq::<(Seq<char>, DeviceFilterView)>::empty()) =~= Seq::<
        Seq<char>,
    >::empty());
}

/// The virtual devices of a configuration stand in the order in which
/// their names first appear in the document.
pub proof fn lemma_devices_keep_document_order(root: Node)
    requires
        load_of(root) is Ok,
    ensures
        keys_in_order(load_of(root)->Ok_0.virtual_devices) == in_order_of_appearance(
            device_names(all_items(root, "virtual-device"@)),
            0,
            Seq::empty(),
        ),
{
    lemma_sections_of_document(root);
    lemma_devices_in_order_of_appearance(all_items(root, "virtual-device"@), 0, Seq::empty());
    assert(keys_in_order(Seq::<(Seq<char>, VirtualDeviceView)>::empty()) =~= Seq::<
        Seq<char>,
    >::empty());
}

/// The configuration holds under the name of a device filter what the last
/// item of that name declares, and nothing of the earlier ones: exactly the
/// fields that the table of that item gives, every other field absent.
pub proof fn lemma_last_filter_of_document_wins(root: Node, last: int)
    requires
        load_of(root) is Ok,
        0 <= last < all_items(root, "device-filter"@).len(),
        forall|i: int|
            last < i < all_items(root, "device-filter"@).len() ==> filter_name(
                #[trigger] all_items(root, "device-filter"@)[i],
            ) != filter_name(all_items(root, "device-filter"@)[last]),
    ensures
        holds(
            load_of(root)->Ok_0.device_filters,
            filter_name(all_items(root, "device-filter"@)[last]),
            filter_value(all_items(root, "device-filter"@)[last]),
        ),
        filter_value(all_items(root, "device-filter"@)[last]) == filter_read(
            entries_of(all_items(root, "device-filter"@)[last])->Ok_0,
            0,
            blank_filter(),
        ).filter,
{
    lemma_sections_of_document(root);
    let items = all_items(root, "device-filter"@);
    lemma_last_filter_wins(items, 0, Seq::empty(), last);
    lemma_filters_scan_ok(items, 0, Seq::empty());
    lemma_filter_of(items[last]);
}

/// The configuration holds under the name of a virtual device what the
/// last item of that name declares, and nothing of the earlier ones: exactly
/// the fields that the table of that item gives, every other field absent
/// and every other set empty.
pub proof fn lemma_last_device_of_document_wins(root: Node, last: int)
    requires
        load_of(root) is Ok,
        0 <= last < all_items(root, "virtual-device"@).len(),
        forall|i: int|
            last < i < all_items(root, "virtual-device"@).len() ==> device_name(
                #[trigger] all_items(root, "virtual-device"@)[i],
            ) != device_name(all_items(root, "virtual-device"@)[last]),
    ensures
        holds(
            load_of(root)->Ok_0.virtual_devices,
            device_name(all_items(root, "virtual-device"@)[last]),
            device_value(all_items(root, "virtual-device"@)[last]),
        ),
        device_value(all_items(root, "virtual-device"@)[last]) == device_read(
            entries_of(all_items(root, "virtual-device"@)[last])->Ok_0,
            0,
            blank_device(),
        ).device,
{
    lemma_sections_of_document(root);
    let items = all_items(root, "virtual-device"@);
    lemma_last_device_wins(items, 0, Seq::empty(), last);
    lemma_devices_scan_ok(items, 0, Seq::empty());
    lemma_device_of(items[last]);
}

/// The device filters of a configuration whose names all differ are those
/// of the document, one for each item and in the order of the document, each
/// with exactly the fields that its table gives.
pub proof fn lemma_filters_of_document(root: Node)
    requires
        load_of(root) is Ok,
        forall|i: int, j: int|
            0 <= i < j < all_items(root, "device-filter"@).len() ==> filter_name(
                #[trigger] all_items(root, "device-filter"@)[i],
            ) != filter_name(#[trigger] all_items(root, "device-filter"@)[j]),
    ensures
        load_of(root)->Ok_0.device_filters.len() == all_items(root, "device-filter"@).len(),
        forall|i: int|
            0 <= i < all_items(root, "device-filter"@).len() ==> {
                let item = all_items(root, "device-filter"@)[i];
                let read = filter_read(entries_of(item)->Ok_0, 0, blank_filter());
                (#[trigger] load_of(root)->Ok_0.device_filters[i]) == (
                    match read.internal_name {
                        Some(name) => name,
                        None => read.filter.name->Some_0,
                    },
                    read.filter,
                )
            },
{
    lemma_sections_of_document(root);
    let items = all_items(root, "device-filter"@);
    lemma_filters_in_section_order(items, 0, Seq::empty());
    lemma_filters_scan_ok(items, 0, Seq::empty());
    let filed = load_of(root)->Ok_0.device_filters;
    assert forall|i: int| 0 <= i < items.len() implies {
        let item = items[i];
        let read = filter_read(entries_of(item)->Ok_0, 0, blank_filter());
        (#[trigger] filed[i]) == (
            match read.internal_name {
                Some(name) => name,
                None => read.filter.name->Some_0,
            },
            read.filter,
        )
    } by {
        lemma_filter_of(items[i]);
    }
}

/// The virtual devices of a configuration whose names all differ are those
/// of the document, one for each item and in the order of the document, each
/// with exactly the fields that its table gives.
pub proof fn lemma_devices_of_document(root: Node)
    requires
        load_of(root) is Ok,
        forall|i: int, j: int|
            0 <= i < j < all_items(root, "virtual-device"@).len() ==> device_name(
                #[trigger] all_items(root, "virtual-device"@)[i],
            ) != device_name(#[trigger] all_items(root, "virtual-device"@)[j]),
    ensures
        load_of(root)->Ok_0.virtual_devices.len() == all_items(root, "virtual-device"@).len(),
        forall|i: int|
            0 <= i < all_items(root, "virtual-device"@).len() ==> {
                let item = all_items(root, "virtual-device"@)[i];
                let read = device_read(entries_of(item)->Ok_0, 0, blank_device());
                (#[trigger] load_of(root)->Ok_0.virtual_devices[i]) == (
                    match read.internal_name {
                        Some(name) => name,
                        None => read.device.name->Some_0,
                    },
                    read.device,
                )
            },
{
    lemma_sections_of_document(root);
    let items = all_items(root, "virtual-device"@);
    lemma_devices_in_section_order(items, 0, Seq::empty());
    lemma_devices_scan_ok(items, 0, Seq::empty());
    let filed = load_of(root)->Ok_0.virtual_devices;
    assert forall|i: int| 0 <= i < items.len() implies {
        let item = items[i];
        let read = device_read(entries_of(item)->Ok_0, 0, blank_device());
        (#[trigger] filed[i]) == (
            match read.internal_name {
                Some(name) => name,
                None => read.device.name->Some_0,
            },
            read.device,
        )
    } by {
        lemma_device_of(items[i]);
    }
}

/// The scripts of a configuration are those of the document, one for each
/// item and in the order of the document, each with the two strings that its
/// table gives.
pub proof fn lemma_scripts_of_document(root: Node)
    requires
        load_of(root) is Ok,
    ensures
        load_of(root)->Ok_0.scripts.len() == all_items(root, "script"@).len(),
        forall|i: int|
            0 <= i < all_items(root, "script"@).len() ==> {
                let item = all_items(root, "script"@)[i];
                let read = script_read(entries_of(item)->Ok_0, 0, blank_script());
                &&& read.device == Some((#[trigger] load_of(root)->Ok_0.scripts[i]).device)
                &&& read.code == Some(load_of(root)->Ok_0.scripts[i].code)
            },
{
    lemma_sections_of_document(root);
    let items = all_items(root, "script"@);
    lemma_scripts_scan(items, 0, Seq::empty());
    let found = load_of(root)->Ok_0.scripts;
    assert(found =~= scripts_read(items, 0));
    assert forall|i: int| 0 <= i < items.len() implies {
        let item = items[i];
        let read = script_read(entries_of(item)->Ok_0, 0, blank_script());
        &&& read.device == Some((#[trigger] found[i]).device)
        &&& read.code == Some(found[i].code)
    } by {
        lemma_script_of(items[i]);
    }
}

/// While the sections of a document are read, no two device filters and
/// no two virtual devices come to share a name.
pub proof fn lemma_sections_keep_names_distinct(
    entries: Seq<(String, Node)>,
    from: int,
    config: ConfigView,
)
    requires
        0 <= from <= entries.len(),
        sections_scan(entries, from, config) is Ok,
        distinct_keys(config.device_filters),
        distinct_keys(config.virtual_devices),
    ensures
        distinct_keys(sections_scan(entries, from, config)->Ok_0.device_filters),
        distinct_keys(sections_scan(entries, from, config)->Ok_0.virtual_devices),
    decreases entries.len() - from,
{
    if from < entries.len() {
        let key = entries[from].0@;
        let value = entries[from].1;
        let next = section_step(config, key, value)->Ok_0;
        if key == "device-filter"@ {
            lemma_filters_keep_names_distinct(items_of(value)->Ok_0, 0, config.device_filters);
        } else if key == "virtual-device"@ {
            lemma_devices_keep_names_distinct(items_of(value)->Ok_0, 0, config.virtual_devices);
        }
        lemma_sections_keep_names_distinct(entries, from + 1, next);
    }
}

/// In a configuration that was loaded every name stands for one thing: no
/// two device filters share a name, no two virtual devices do, and no
/// virtual device has the name of a device filter.
pub proof fn lemma_loaded_names_are_unique(root: Node)
    requires
        load_of(root) is Ok,
    ensures
        distinct_keys(load_of(root)->Ok_0.device_filters),
        distinct_keys(load_of(root)->Ok_0.virtual_devices),
        forall|i: int, j: int|
            0 <= i < load_of(root)->Ok_0.virtual_devices.len() && 0 <= j < load_of(
                root,
            )->Ok_0.device_filters.len() ==> (#[trigger] load_of(root)->Ok_0.virtual_devices[i]).0
                != (#[trigger] load_of(root)->Ok_0.device_filters[j]).0,
{
    lemma_load_of(root);
    lemma_sections_keep_names_distinct(entries_of(root)->Ok_0, 0, blank_config());
    let config = load_of(root)->Ok_0;
    assert forall|i: int, j: int|
        0 <= i < config.virtual_devices.len() && 0 <= j < config.device_filters.len() implies (
        #[trigger] config.virtual_devices[i]).0 != (#[trigger] config.device_filters[j]).0 by {
        assert(!has_key(config.device_filters, config.virtual_devices[i].0));
    }
}

/// While the sections of a document are read, each virtual device on file
/// keeps one record for each of its absolute axes.
pub proof fn lemma_sections_keep_axes_distinct(
    entries: Seq<(String, Node)>,
    from: int,
    config: ConfigView,
)
    requires
        0 <= from,
        calibrated_once(config),
        sections_scan(entries, from, config) is Ok,
    ensures
        calibrated_once(sections_scan(entries, from, config)->Ok_0),
    decreases entries.len() - from,
{
    if from < entries.len() {
        let key = entries[from].0@;
        let value = entries[from].1;
        let next = section_step(config, key, value)->Ok_0;
        if key != "device-filter"@ && key == "virtual-device"@ {
            lemma_devices_scan_keeps_axes_distinct(
                items_of(value)->Ok_0,
                0,
                config.virtual_devices,
            );
        }
        lemma_sections_keep_axes_distinct(entries, from + 1, next);
    }
}

/// In a configuration that was loaded every virtual device has one record
/// for each of its absolute axes: no two records of a device are of the same
/// axis, by the axes' numbers, however the document spells them.
pub proof fn lemma_loaded_axes_are_distinct(root: Node)
    requires
        load_of(root) is Ok,
    ensures
        calibrated_once(load_of(root)->Ok_0),
{
    lemma_sections_keep_axes_distinct(entries_of(root)->Ok_0, 0, blank_config());
}

} // verus!
