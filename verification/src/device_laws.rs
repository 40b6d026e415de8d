//! What holds of the section of virtual devices: which tables are read
//! without a fault, and what the device read from one holds.

use vstd::prelude::*;
use crate::axis::{axes_of, distinct_axes};
use crate::axis_laws::{axes_ok, lemma_axes_of};
use crate::codes::{
    ForceFeedback, Key, RelativeAxis, bus_of, force_feedback_of, key_of, relative_axis_of,
};
use crate::device::{
    DeviceDraftView, blank_device, device_of, device_scan, device_step, devices_of, devices_scan,
    effects_of, effects_scan, keys_of, keys_scan, relative_axes_of, relative_axes_scan,
};
use crate::ordered::placed;
use crate::document::{Node, entries_of, items_of, text_of, u16_of};
use crate::error::{ErrorKind, Failure};
use crate::model::{VirtualDeviceView, device_preset_of};
use crate::schema::{has_entry, last_text, last_u16, last_value, lemma_last_value};

verus! {

/// The array is one of keys: each item resolves to a key.
pub open spec fn keys_ok(array: Node) -> bool {
    match items_of(array) {
        Ok(items) => forall|i: int| 0 <= i < items.len() ==> key_of(#[trigger] items[i]) is Some,
        Err(_) => false,
    }
}

/// The array is one of relative axes: each item resolves to an axis.
pub open spec fn relative_axes_ok(array: Node) -> bool {
    match items_of(array) {
        Ok(items) => forall|i: int|
            0 <= i < items.len() ==> relative_axis_of(#[trigger] items[i]) is Some,
        Err(_) => false,
    }
}

/// The array is one of force-feedback effects: each item resolves to an
/// effect.
pub open spec fn effects_ok(array: Node) -> bool {
    match items_of(array) {
        Ok(items) => forall|i: int|
            0 <= i < items.len() ==> force_feedback_of(#[trigger] items[i]) is Some,
        Err(_) => false,
    }
}

/// The keys that the items of an array from position `from` on give.
pub open spec fn keys_read(items: Seq<Node>, from: int) -> Seq<Key> {
    Seq::new((items.len() - from) as nat, |i: int| key_of(items[from + i])->Some_0)
}

/// The relative axes that the items of an array from position `from` on
/// give.
pub open spec fn relative_axes_read(items: Seq<Node>, from: int) -> Seq<RelativeAxis> {
    Seq::new((items.len() - from) as nat, |i: int| relative_axis_of(items[from + i])->Some_0)
}

/// The force-feedback effects that the items of an array from position
/// `from` on give.
pub open spec fn effects_read(items: Seq<Node>, from: int) -> Seq<ForceFeedback> {
    Seq::new((items.len() - from) as nat, |i: int| force_feedback_of(items[from + i])->Some_0)
}

/// The items of an array of keys are read without a fault exactly where
/// each resolves, and then give one key each, in their order, behind those
/// gathered before.
pub proof fn lemma_keys_scan(items: Seq<Node>, from: int, found: Seq<Key>)
    requires
        0 <= from <= items.len(),
    ensures
        keys_scan(items, from, found) is Ok <==> forall|i: int|
            from <= i < items.len() ==> key_of(#[trigger] items[i]) is Some,
        keys_scan(items, from, found) is Ok ==> keys_scan(items, from, found)->Ok_0 == found
            + keys_read(items, from),
    decreases items.len() - from,
{
    if from < items.len() {
        match key_of(items[from]) {
            Some(key) => {
                lemma_keys_scan(items, from + 1, found.push(key));
                if keys_scan(items, from, found) is Ok {
                    assert forall|i: int| from <= i < items.len() implies key_of(
                        #[trigger] items[i],
                    ) is Some by {
                        if i > from {
                        }
                    }
                    assert(found.push(key) + keys_read(items, from + 1) =~= found + keys_read(
                        items,
                        from,
                    ));
                }
            },
            None => {},
        }
    } else {
        assert(found + keys_read(items, from) =~= found);
    }
}

/// The items of an array of relative axes are read without a fault exactly
/// where each resolves, and then give one axis each, in their order, behind
/// those gathered before.
pub proof fn lemma_relative_axes_scan(items: Seq<Node>, from: int, found: Seq<RelativeAxis>)
    requires
        0 <= from <= items.len(),
    ensures
        relative_axes_scan(items, from, found) is Ok <==> forall|i: int|
            from <= i < items.len() ==> relative_axis_of(#[trigger] items[i]) is Some,
        relative_axes_scan(items, from, found) is Ok ==> relative_axes_scan(
            items,
            from,
            found,
        )->Ok_0 == found + relative_axes_read(items, from),
    decreases items.len() - from,
{
    if from < items.len() {
        match relative_axis_of(items[from]) {
            Some(axis) => {
                lemma_relative_axes_scan(items, from + 1, found.push(axis));
                if relative_axes_scan(items, from, found) is Ok {
                    assert forall|i: int| from <= i < items.len() implies relative_axis_of(
                        #[trigger] items[i],
                    ) is Some by {
                        if i > from {
                        }
                    }
                    assert(found.push(axis) + relative_axes_read(items, from + 1) =~= found
                        + relative_axes_read(items, from));
                }
            },
            None => {},
        }
    } else {
        assert(found + relative_axes_read(items, from) =~= found);
    }
}

/// The items of an array of force-feedback effects are read without a fault
/// exactly where each resolves, and then give one effect each, in their
/// order, behind those gathered before.
pub proof fn lemma_effects_scan(items: Seq<Node>, from: int, found: Seq<ForceFeedback>)
    requires
        0 <= from <= items.len(),
    ensures
        effects_scan(items, from, found) is Ok <==> forall|i: int|
            from <= i < items.len() ==> force_feedback_of(#[trigger] items[i]) is Some,
        effects_scan(items, from, found) is Ok ==> effects_scan(items, from, found)->Ok_0 == found
            + effects_read(items, from),
    decreases items.len() - from,
{
    if from < items.len() {
        match force_feedback_of(items[from]) {
            Some(effect) => {
                lemma_effects_scan(items, from + 1, found.push(effect));
                if effects_scan(items, from, found) is Ok {
                    assert forall|i: int| from <= i < items.len() implies force_feedback_of(
                        #[trigger] items[i],
                    ) is Some by {
                        if i > from {
                        }
                    }
                    assert(found.push(effect) + effects_read(items, from + 1) =~= found
                        + effects_read(items, from));
                }
            },
            None => {},
        }
    } else {
        assert(found + effects_read(items, from) =~= found);
    }
}

/// An array of identifiers is read without a fault exactly where it is in
/// order, and then gives one identifier for each item, in the order of the
/// items.
pub proof fn lemma_arrays_of(array: Node)
    ensures
        keys_of(array) is Ok <==> keys_ok(array),
        keys_of(array) is Ok ==> keys_of(array)->Ok_0 == keys_read(items_of(array)->Ok_0, 0),
        relative_axes_of(array) is Ok <==> relative_axes_ok(array),
        relative_axes_of(array) is Ok ==> relative_axes_of(array)->Ok_0 == relative_axes_read(
            items_of(array)->Ok_0,
            0,
        ),
        effects_of(array) is Ok <==> effects_ok(array),
        effects_of(array) is Ok ==> effects_of(array)->Ok_0 == effects_read(
            items_of(array)->Ok_0,
            0,
        ),
{
    if let Ok(items) = items_of(array) {
        lemma_keys_scan(items, 0, Seq::empty());
        lemma_relative_axes_scan(items, 0, Seq::empty());
        lemma_effects_scan(items, 0, Seq::empty());
        assert(Seq::<Key>::empty() + keys_read(items, 0) =~= keys_read(items, 0));
        assert(Seq::<RelativeAxis>::empty() + relative_axes_read(items, 0) =~= relative_axes_read(
            items,
            0,
        ));
        assert(Seq::<ForceFeedback>::empty() + effects_read(items, 0) =~= effects_read(items, 0));
    }
}

/// `key` is one of the keys of a virtual device's table.
pub open spec fn device_key(key: Seq<char>) -> bool {
    key == "ref"@ || key == "preset"@ || key == "bus"@ || key == "name"@ || key == "vendor"@ || key
        == "product"@ || key == "version"@ || key == "chmod"@ || key == "keys"@ || key == "rel"@
        || key == "force-feedback"@ || key == "abs"@ || key == "redirect-force-feedback-to"@
}

/// The entry is one that a virtual device's table may hold: a key of the
/// schema, with a value of the shape and range that the key asks for.
pub open spec fn device_entry_ok(key: Seq<char>, value: Node) -> bool {
    if key == "ref"@ {
        value is String
    } else if key == "preset"@ {
        value is String && device_preset_of(text_of(value)->Ok_0) is Some
    } else if key == "bus"@ {
        bus_of(value) is Some
    } else if key == "name"@ {
        value is String
    } else if key == "vendor"@ {
        u16_of(value) is Ok
    } else if key == "product"@ {
        u16_of(value) is Ok
    } else if key == "version"@ {
        u16_of(value) is Ok
    } else if key == "chmod"@ {
        u16_of(value) is Ok
    } else if key == "keys"@ {
        keys_ok(value)
    } else if key == "rel"@ {
        relative_axes_ok(value)
    } else if key == "force-feedback"@ {
        effects_ok(value)
    } else if key == "abs"@ {
        axes_ok(value)
    } else if key == "redirect-force-feedback-to"@ {
        value is String
    } else {
        false
    }
}

/// The item is one that the section of virtual devices may hold: a table
/// whose entries are all in order and that gives a `ref` or a `name`.
pub open spec fn device_item_ok(item: Node) -> bool {
    match entries_of(item) {
        Ok(entries) => {
            &&& forall|i: int|
                0 <= i < entries.len() ==> device_entry_ok(
                    (#[trigger] entries[i]).0@,
                    entries[i].1,
                )
            &&& (has_entry(entries, "ref"@) || has_entry(entries, "name"@))
        },
        Err(_) => false,
    }
}

/// The draft that a device's table gives from position `from` on, field by
/// field: what the last entry under the field's key holds, or what the draft
/// held before where the table has no such entry.
pub open spec fn device_read(entries: Seq<(String, Node)>, from: int, draft: DeviceDraftView)
    -> DeviceDraftView {
    DeviceDraftView {
        internal_name: last_text(entries, from, "ref"@, draft.internal_name),
        device: VirtualDeviceView {
            preset: match last_value(entries, from, "preset"@) {
                Some(value) => device_preset_of(text_of(value)->Ok_0),
                None => draft.device.preset,
            },
            bus: match last_value(entries, from, "bus"@) {
                Some(value) => bus_of(value),
                None => draft.device.bus,
            },
            vendor: last_u16(entries, from, "vendor"@, draft.device.vendor),
            product: last_u16(entries, from, "product"@, draft.device.product),
            version: last_u16(entries, from, "version"@, draft.device.version),
            name: last_text(entries, from, "name"@, draft.device.name),
            chmod: last_u16(entries, from, "chmod"@, draft.device.chmod),
            key_bits: match last_value(entries, from, "keys"@) {
                Some(value) => keys_of(value)->Ok_0,
                None => draft.device.key_bits,
            },
            rel_bits: match last_value(entries, from, "rel"@) {
                Some(value) => relative_axes_of(value)->Ok_0,
                None => draft.device.rel_bits,
            },
            abs_bits: match last_value(entries, from, "abs"@) {
                Some(value) => axes_of(value)->Ok_0,
                None => draft.device.abs_bits,
            },
            ff_bits: match last_value(entries, from, "force-feedback"@) {
                Some(value) => effects_of(value)->Ok_0,
                None => draft.device.ff_bits,
            },
            redirect_force_feedback_to: last_text(
                entries,
                from,
                "redirect-force-feedback-to"@,
                draft.device.redirect_force_feedback_to,
            ),
        },
    }
}

/// The keys of a virtual device's table are thirteen different words.
pub proof fn lemma_device_keys_differ()
    ensures
        "ref"@.len() == 3 && "ref"@[0] == 'r' && "ref"@[2] == 'f',
        "rel"@.len() == 3 && "rel"@[0] == 'r' && "rel"@[2] == 'l',
        "bus"@.len() == 3 && "bus"@[0] == 'b',
        "abs"@.len() == 3 && "abs"@[0] == 'a',
        "name"@.len() == 4 && "name"@[0] == 'n',
        "keys"@.len() == 4 && "keys"@[0] == 'k',
        "chmod"@.len() == 5,
        "preset"@.len() == 6 && "preset"@[0] == 'p',
        "vendor"@.len() == 6 && "vendor"@[0] == 'v',
        "product"@.len() == 7 && "product"@[0] == 'p',
        "version"@.len() == 7 && "version"@[0] == 'v',
        "force-feedback"@.len() == 14,
        "redirect-force-feedback-to"@.len() == 26,
{
    reveal_strlit("ref");
    reveal_strlit("rel");
    reveal_strlit("bus");
    reveal_strlit("abs");
    reveal_strlit("name");
    reveal_strlit("keys");
    reveal_strlit("chmod");
    reveal_strlit("preset");
    reveal_strlit("vendor");
    reveal_strlit("product");
    reveal_strlit("version");
    reveal_strlit("force-feedback");
    reveal_strlit("redirect-force-feedback-to");
}

/// An entry is read without a fault exactly where it is in order; an entry
/// in order has a key of the schema, and a key outside the schema is an
/// `UnrecognizedKey`.
pub proof fn lemma_device_step_ok(draft: DeviceDraftView, key: Seq<char>, value: Node)
    ensures
        device_step(draft, key, value) is Ok <==> device_entry_ok(key, value),
        device_entry_ok(key, value) ==> device_key(key),
        !device_key(key) ==> device_step(draft, key, value) == Err::<DeviceDraftView, Failure>(
            Failure::here(ErrorKind::UnrecognizedKey),
        ),
{
    lemma_arrays_of(value);
    lemma_axes_of(value);
}

/// A table is read without a fault exactly where each entry is in order.
pub proof fn lemma_device_scan_ok(entries: Seq<(String, Node)>, from: int, draft: DeviceDraftView)
    requires
        0 <= from,
    ensures
        device_scan(entries, from, draft) is Ok <==> forall|i: int|
            from <= i < entries.len() ==> device_entry_ok(
                (#[trigger] entries[i]).0@,
                entries[i].1,
            ),
    decreases entries.len() - from,
{
    if from < entries.len() {
        lemma_device_step_ok(draft, entries[from].0@, entries[from].1);
        match device_step(draft, entries[from].0@, entries[from].1) {
            Ok(next) => {
                lemma_device_scan_ok(entries, from + 1, next);
                if device_scan(entries, from, draft) is Ok {
                    assert forall|i: int| from <= i < entries.len() implies device_entry_ok(
                        (#[trigger] entries[i]).0@,
                        entries[i].1,
                    ) by {
                        if i > from {
                        }
                    }
                }
            },
            Err(_) => {},
        }
    }
}

/// Reading one entry and then the rest of the table gives what reading the
/// table from that entry on gives.
pub proof fn lemma_device_read_step(
    entries: Seq<(String, Node)>,
    from: int,
    draft: DeviceDraftView,
)
    requires
        0 <= from < entries.len(),
        device_step(draft, entries[from].0@, entries[from].1) is Ok,
    ensures
        device_read(entries, from, draft) == device_read(
            entries,
            from + 1,
            device_step(draft, entries[from].0@, entries[from].1)->Ok_0,
        ),
{
    lemma_device_keys_differ();
    let key = entries[from].0@;
    let next = device_step(draft, key, entries[from].1)->Ok_0;
    let before = device_read(entries, from, draft);
    let after = device_read(entries, from + 1, next);
    if key == "ref"@ {
        assert(after.internal_name == before.internal_name);
        assert(after.device.preset == before.device.preset);
        assert(after.device.bus == before.device.bus);
        assert(after.device.vendor == before.device.vendor);
        assert(after.device.product == before.device.product);
        assert(after.device.version == before.device.version);
        assert(after.device.name == before.device.name);
        assert(after.device.chmod == before.device.chmod);
        assert(after.device.key_bits == before.device.key_bits);
        assert(after.device.rel_bits == before.device.rel_bits);
        assert(after.device.abs_bits == before.device.abs_bits);
        assert(after.device.ff_bits == before.device.ff_bits);
        assert(after.device.redirect_force_feedback_to == before.device.redirect_force_feedback_to);
    } else if key == "preset"@ {
        assert(after.internal_name == before.internal_name);
        assert(after.device.preset == before.device.preset);
        assert(after.device.bus == before.device.bus);
        assert(after.device.vendor == before.device.vendor);
        assert(after.device.product == before.device.product);
        assert(after.device.version == before.device.version);
        assert(after.device.name == before.device.name);
        assert(after.device.chmod == before.device.chmod);
        assert(after.device.key_bits == before.device.key_bits);
        assert(after.device.rel_bits == before.device.rel_bits);
        assert(after.device.abs_bits == before.device.abs_bits);
        assert(after.device.ff_bits == before.device.ff_bits);
        assert(after.device.redirect_force_feedback_to == before.device.redirect_force_feedback_to);
    } else if key == "bus"@ {
        assert(after.internal_name == before.internal_name);
        assert(after.device.preset == before.device.preset);
        assert(after.device.bus == before.device.bus);
        assert(after.device.vendor == before.device.vendor);
        assert(after.device.product == before.device.product);
        assert(after.device.version == before.device.version);
        assert(after.device.name == before.device.name);
        assert(after.device.chmod == before.device.chmod);
        assert(after.device.key_bits == before.device.key_bits);
        assert(after.device.rel_bits == before.device.rel_bits);
        assert(after.device.abs_bits == before.device.abs_bits);
        assert(after.device.ff_bits == before.device.ff_bits);
        assert(after.device.redirect_force_feedback_to == before.device.redirect_force_feedback_to);
    } else if key == "name"@ {
        assert(after.internal_name == before.internal_name);
        assert(after.device.preset == before.device.preset);
        assert(after.device.bus == before.device.bus);
        assert(after.device.vendor == before.device.vendor);
        assert(after.device.product == before.device.product);
        assert(after.device.version == before.device.version);
        assert(after.device.name == before.device.name);
        assert(after.device.chmod == before.device.chmod);
        assert(after.device.key_bits == before.device.key_bits);
        assert(after.device.rel_bits == before.device.rel_bits);
        assert(after.device.abs_bits == before.device.abs_bits);
        assert(after.device.ff_bits == before.device.ff_bits);
        assert(after.device.redirect_force_feedback_to == before.device.redirect_force_feedback_to);
    } else if key == "vendor"@ {
        assert(after.internal_name == before.internal_name);
        assert(after.device.preset == before.device.preset);
        assert(after.device.bus == before.device.bus);
        assert(after.device.vendor == before.device.vendor);
        assert(after.device.product == before.device.product);
        assert(after.device.version == before.device.version);
        assert(after.device.name == before.device.name);
        assert(after.device.chmod == before.device.chmod);
        assert(after.device.key_bits == before.device.key_bits);
        assert(after.device.rel_bits == before.device.rel_bits);
        assert(after.device.abs_bits == before.device.abs_bits);
        assert(after.device.ff_bits == before.device.ff_bits);
        assert(after.device.redirect_force_feedback_to == before.device.redirect_force_feedback_to);
    } else if key == "product"@ {
        assert(after.internal_name == before.internal_name);
        assert(after.device.preset == before.device.preset);
        assert(after.device.bus == before.device.bus);
        assert(after.device.vendor == before.device.vendor);
        assert(after.device.product == before.device.product);
        assert(after.device.version == before.device.version);
        assert(after.device.name == before.device.name);
        assert(after.device.chmod == before.device.chmod);
        assert(after.device.key_bits == before.device.key_bits);
        assert(after.device.rel_bits == before.device.rel_bits);
        assert(after.device.abs_bits == before.device.abs_bits);
        assert(after.device.ff_bits == before.device.ff_bits);
        assert(after.device.redirect_force_feedback_to == before.device.redirect_force_feedback_to);
    } else if key == "version"@ {
        assert(after.internal_name == before.internal_name);
        assert(after.device.preset == before.device.preset);
        assert(after.device.bus == before.device.bus);
        assert(after.device.vendor == before.device.vendor);
        assert(after.device.product == before.device.product);
        assert(after.device.version == before.device.version);
        assert(after.device.name == before.device.name);
        assert(after.device.chmod == before.device.chmod);
        assert(after.device.key_bits == before.device.key_bits);
        assert(after.device.rel_bits == before.device.rel_bits);
        assert(after.device.abs_bits == before.device.abs_bits);
        assert(after.device.ff_bits == before.device.ff_bits);
        assert(after.device.redirect_force_feedback_to == before.device.redirect_force_feedback_to);
    } else if key == "chmod"@ {
        assert(after.internal_name == before.internal_name);
        assert(after.device.preset == before.device.preset);
        assert(after.device.bus == before.device.bus);
        assert(after.device.vendor == before.device.vendor);
        assert(after.device.product == before.device.product);
        assert(after.device.version == before.device.version);
        assert(after.device.name == before.device.name);
        assert(after.device.chmod == before.device.chmod);
        assert(after.device.key_bits == before.device.key_bits);
        assert(after.device.rel_bits == before.device.rel_bits);
        assert(after.device.abs_bits == before.device.abs_bits);
        assert(after.device.ff_bits == before.device.ff_bits);
        assert(after.device.redirect_force_feedback_to == before.device.redirect_force_feedback_to);
    } else if key == "keys"@ {
        assert(after.internal_name == before.internal_name);
        assert(after.device.preset == before.device.preset);
        assert(after.device.bus == before.device.bus);
        assert(after.device.vendor == before.device.vendor);
        assert(after.device.product == before.device.product);
        assert(after.device.version == before.device.version);
        assert(after.device.name == before.device.name);
        assert(after.device.chmod == before.device.chmod);
        assert(after.device.key_bits == before.device.key_bits);
        assert(after.device.rel_bits == before.device.rel_bits);
        assert(after.device.abs_bits == before.device.abs_bits);
        assert(after.device.ff_bits == before.device.ff_bits);
        assert(after.device.redirect_force_feedback_to == before.device.redirect_force_feedback_to);
    } else if key == "rel"@ {
        assert(after.internal_name == before.internal_name);
        assert(after.device.preset == before.device.preset);
        assert(after.device.bus == before.device.bus);
        assert(after.device.vendor == before.device.vendor);
        assert(after.device.product == before.device.product);
        assert(after.device.version == before.device.version);
        assert(after.device.name == before.device.name);
        assert(after.device.chmod == before.device.chmod);
        assert(after.device.key_bits == before.device.key_bits);
        assert(after.device.rel_bits == before.device.rel_bits);
        assert(after.device.abs_bits == before.device.abs_bits);
        assert(after.device.ff_bits == before.device.ff_bits);
        assert(after.device.redirect_force_feedback_to == before.device.redirect_force_feedback_to);
    } else if key == "force-feedback"@ {
        assert(after.internal_name == before.internal_name);
        assert(after.device.preset == before.device.preset);
        assert(after.device.bus == before.device.bus);
        assert(after.device.vendor == before.device.vendor);
        assert(after.device.product == before.device.product);
        assert(after.device.version == before.device.version);
        assert(after.device.name == before.device.name);
        assert(after.device.chmod == before.device.chmod);
        assert(after.device.key_bits == before.device.key_bits);
        assert(after.device.rel_bits == before.device.rel_bits);
        assert(after.device.abs_bits == before.device.abs_bits);
        assert(after.device.ff_bits == before.device.ff_bits);
        assert(after.device.redirect_force_feedback_to == before.device.redirect_force_feedback_to);
    } else if key == "abs"@ {
        assert(after.internal_name == before.internal_name);
        assert(after.device.preset == before.device.preset);
        assert(after.device.bus == before.device.bus);
        assert(after.device.vendor == before.device.vendor);
        assert(after.device.product == before.device.product);
        assert(after.device.version == before.device.version);
        assert(after.device.name == before.device.name);
        assert(after.device.chmod == before.device.chmod);
        assert(after.device.key_bits == before.device.key_bits);
        assert(after.device.rel_bits == before.device.rel_bits);
        assert(after.device.abs_bits == before.device.abs_bits);
        assert(after.device.ff_bits == before.device.ff_bits);
        assert(after.device.redirect_force_feedback_to == before.device.redirect_force_feedback_to);
    } else if key == "redirect-force-feedback-to"@ {
        assert(after.internal_name == before.internal_name);
        assert(after.device.preset == before.device.preset);
        assert(after.device.bus == before.device.bus);
        assert(after.device.vendor == before.device.vendor);
        assert(after.device.product == before.device.product);
        assert(after.device.version == before.device.version);
        assert(after.device.name == before.device.name);
        assert(after.device.chmod == before.device.chmod);
        assert(after.device.key_bits == before.device.key_bits);
        assert(after.device.rel_bits == before.device.rel_bits);
        assert(after.device.abs_bits == before.device.abs_bits);
        assert(after.device.ff_bits == before.device.ff_bits);
        assert(after.device.redirect_force_feedback_to == before.device.redirect_force_feedback_to);
    }
}

/// A table that is read without a fault gives, field by field, what the
/// last entry under the field's key holds; a field whose key the table does
/// not have stays as it was.
pub proof fn lemma_device_scan_reads(
    entries: Seq<(String, Node)>,
    from: int,
    draft: DeviceDraftView,
)
    requires
        0 <= from,
        device_scan(entries, from, draft) is Ok,
    ensures
        device_scan(entries, from, draft) == Ok::<DeviceDraftView, Failure>(
            device_read(entries, from, draft),
        ),
    decreases entries.len() - from,
{
    if from < entries.len() {
        let next = device_step(draft, entries[from].0@, entries[from].1)->Ok_0;
        lemma_device_scan_reads(entries, from + 1, next);
        lemma_device_read_step(entries, from, draft);
    }
}

/// An item of the section is read without a fault exactly where it is in
/// order, and then the device holds what the table gives, every field
/// absent and every set empty that the table does not give, under the `ref`
/// or else the `name` of the table.
pub proof fn lemma_device_of(item: Node)
    ensures
        device_of(item) is Ok <==> device_item_ok(item),
        device_of(item) is Ok ==> {
            let read = device_read(entries_of(item)->Ok_0, 0, blank_device());
            &&& device_of(item)->Ok_0.1 == read.device
            &&& device_of(item)->Ok_0.0 == match read.internal_name {
                Some(name) => name,
                None => read.device.name->Some_0,
            }
        },
{
    if let Ok(entries) = entries_of(item) {
        lemma_device_scan_ok(entries, 0, blank_device());
        lemma_last_value(entries, 0, "ref"@);
        lemma_last_value(entries, 0, "name"@);
        if device_scan(entries, 0, blank_device()) is Ok {
            lemma_device_scan_reads(entries, 0, blank_device());
        }
    }
}

/// A section of virtual devices is read without a fault exactly where each
/// item is.
pub proof fn lemma_devices_scan_ok(
    items: Seq<Node>,
    from: int,
    filed: Seq<(Seq<char>, VirtualDeviceView)>,
)
    requires
        0 <= from,
    ensures
        devices_scan(items, from, filed) is Ok <==> forall|i: int|
            from <= i < items.len() ==> device_of(#[trigger] items[i]) is Ok,
    decreases items.len() - from,
{
    if from < items.len() {
        match device_of(items[from]) {
            Ok(entry) => {
                lemma_devices_scan_ok(items, from + 1, placed(filed, entry.0, entry.1));
                if devices_scan(items, from, filed) is Ok {
                    assert forall|i: int| from <= i < items.len() implies device_of(
                        #[trigger] items[i],
                    ) is Ok by {
                        if i > from {
                        }
                    }
                }
            },
            Err(_) => {},
        }
    }
}

/// The section of virtual devices is in order: it is an array, and each
/// item is in order.
pub open spec fn devices_ok(section: Node) -> bool {
    match items_of(section) {
        Ok(items) => forall|i: int| 0 <= i < items.len() ==> device_item_ok(#[trigger] items[i]),
        Err(_) => false,
    }
}

/// A section of virtual devices is read without a fault exactly where it
/// is in order, whatever was on file before.
pub proof fn lemma_devices_of(section: Node, filed: Seq<(Seq<char>, VirtualDeviceView)>)
    ensures
        devices_of(section, filed) is Ok <==> devices_ok(section),
{
    if let Ok(items) = items_of(section) {
        lemma_devices_scan_ok(items, 0, filed);
        assert forall|i: int| 0 <= i < items.len() implies (device_of(#[trigger] items[i]) is Ok
            <==> device_item_ok(items[i])) by {
            lemma_device_of(items[i]);
        }
    }
}

/// Each of the devices on file has one record for each of its absolute
/// axes.
pub open spec fn each_calibrated_once(filed: Seq<(Seq<char>, VirtualDeviceView)>) -> bool {
    forall|i: int| 0 <= i < filed.len() ==> distinct_axes((#[trigger] filed[i]).1.abs_bits)
}

/// While the table of a virtual device is read, its records stay of one
/// absolute axis each.
pub proof fn lemma_device_scan_keeps_axes_distinct(
    entries: Seq<(String, Node)>,
    from: int,
    draft: DeviceDraftView,
)
    requires
        0 <= from,
        distinct_axes(draft.device.abs_bits),
        device_scan(entries, from, draft) is Ok,
    ensures
        distinct_axes(device_scan(entries, from, draft)->Ok_0.device.abs_bits),
    decreases entries.len() - from,
{
    if from < entries.len() {
        let next = device_step(draft, entries[from].0@, entries[from].1)->Ok_0;
        lemma_axes_of(entries[from].1);
        lemma_device_scan_keeps_axes_distinct(entries, from + 1, next);
    }
}

/// A virtual device that is read without a fault has one record for each of
/// its absolute axes: no two records are of the same axis, by the axes'
/// numbers.
pub proof fn lemma_device_of_axes_distinct(item: Node)
    requires
        device_of(item) is Ok,
    ensures
        distinct_axes(device_of(item)->Ok_0.1.abs_bits),
{
    lemma_device_scan_keeps_axes_distinct(entries_of(item)->Ok_0, 0, blank_device());
}

/// While virtual devices are filed, each device on file keeps one record
/// for each of its absolute axes.
pub proof fn lemma_devices_scan_keeps_axes_distinct(
    items: Seq<Node>,
    from: int,
    filed: Seq<(Seq<char>, VirtualDeviceView)>,
)
    requires
        0 <= from,
        each_calibrated_once(filed),
        devices_scan(items, from, filed) is Ok,
    ensures
        each_calibrated_once(devices_scan(items, from, filed)->Ok_0),
    decreases items.len() - from,
{
    if from < items.len() {
        let entry = device_of(items[from])->Ok_0;
        lemma_device_of_axes_distinct(items[from]);
        let next = placed(filed, entry.0, entry.1);
        assert forall|i: int| 0 <= i < next.len() implies distinct_axes(
            (#[trigger] next[i]).1.abs_bits,
        ) by {
            if i < filed.len() {
                assert(distinct_axes(filed[i].1.abs_bits));
            }
        }
        lemma_devices_scan_keeps_axes_distinct(items, from + 1, next);
    }
}

/// Reading virtual devices from a position of an array on does not depend on what
/// stands ahead of the array.
pub proof fn lemma_devices_scan_behind(
    ahead: Seq<Node>,
    items: Seq<Node>,
    from: int,
    filed: Seq<(Seq<char>, VirtualDeviceView)>,
)
    requires
        0 <= from <= items.len(),
    ensures
        devices_scan(ahead + items, ahead.len() + from, filed) is Ok <==> devices_scan(
            items,
            from,
            filed,
        ) is Ok,
        devices_scan(items, from, filed) is Ok ==> devices_scan(ahead + items, ahead.len() + from, filed)
            == devices_scan(items, from, filed),
    decreases items.len() - from,
{
    if from < items.len() {
        assert((ahead + items)[ahead.len() + from] == items[from]);
        match device_of(items[from]) {
            Ok(entry) => {
                lemma_devices_scan_behind(ahead, items, from + 1, placed(filed, entry.0, entry.1));
            },
            Err(_) => {},
        }
    }
}

/// Reading two arrays of virtual devices as one array is reading the first and
/// then the second onto what the first gave.
pub proof fn lemma_devices_scan_joined(
    first: Seq<Node>,
    second: Seq<Node>,
    from: int,
    filed: Seq<(Seq<char>, VirtualDeviceView)>,
)
    requires
        0 <= from <= first.len(),
        devices_scan(first, from, filed) is Ok,
    ensures
        devices_scan(first + second, from, filed) is Ok <==> devices_scan(
            second,
            0,
            devices_scan(first, from, filed)->Ok_0,
        ) is Ok,
        devices_scan(first + second, from, filed) is Ok ==> devices_scan(first + second, from, filed)
            == devices_scan(second, 0, devices_scan(first, from, filed)->Ok_0),
    decreases first.len() - from,
{
    if from < first.len() {
        assert((first + second)[from] == first[from]);
        let entry = device_of(first[from])->Ok_0;
        lemma_devices_scan_joined(first, second, from + 1, placed(filed, entry.0, entry.1));
    } else {
        lemma_devices_scan_behind(first, second, 0, filed);
    }
}

} // verus!
