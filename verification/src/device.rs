//! The section of virtual devices: an array of tables, each of which
//! describes one device to fabricate under a closed set of keys.

use vstd::prelude::*;
use indexmap::IndexMap;
use crate::axis::{axes_of, parse_axes};
use crate::codes::{
    ForceFeedback, Key, RelativeAxis, bus_of, force_feedback_of, key_of, relative_axis_of,
    try_into_bus_value, try_into_ff_value, try_into_key_value, try_into_rel_value,
};
use crate::document::{Node, entries_of, items_of, text_of, u16_of};
use crate::error::{ConfigError, ErrorKind, Failure};
use crate::model::{
    DevicePreset, VirtualDevice, VirtualDeviceView, device_preset_of, optional_text,
};
use crate::ordered::{device_entries, insert_device, placed};
use crate::text::same_text;

verus! {

/// The keys gathered after the items of an array from position `from` on
/// were resolved in order, or an `InvalidValue` at the first item that
/// resolves to no key.
pub open spec fn keys_scan(items: Seq<Node>, from: int, found: Seq<Key>) -> Result<
    Seq<Key>,
    Failure,
>
    decreases items.len() - from,
{
    if from < 0 || from >= items.len() {
        Ok(found)
    } else {
        match key_of(items[from]) {
            Some(key) => keys_scan(items, from + 1, found.push(key)),
            None => Err(Failure::at_index(ErrorKind::InvalidValue, from)),
        }
    }
}

/// The keys that an array gives, one for each item, in the order of the
/// items.
pub open spec fn keys_of(array: Node) -> Result<Seq<Key>, Failure> {
    match items_of(array) {
        Ok(items) => keys_scan(items, 0, Seq::empty()),
        Err(failure) => Err(failure),
    }
}

/// The relative axes gathered after the items of an array from position
/// `from` on were resolved in order, or an `InvalidValue` at the first item
/// that resolves to no axis.
pub open spec fn relative_axes_scan(items: Seq<Node>, from: int, found: Seq<RelativeAxis>)
    -> Result<Seq<RelativeAxis>, Failure>
    decreases items.len() - from,
{
    if from < 0 || from >= items.len() {
        Ok(found)
    } else {
        match relative_axis_of(items[from]) {
            Some(axis) => relative_axes_scan(items, from + 1, found.push(axis)),
            None => Err(Failure::at_index(ErrorKind::InvalidValue, from)),
        }
    }
}

/// The relative axes that an array gives, one for each item, in the order
/// of the items.
pub open spec fn relative_axes_of(array: Node) -> Result<Seq<RelativeAxis>, Failure> {
    match items_of(array) {
        Ok(items) => relative_axes_scan(items, 0, Seq::empty()),
        Err(failure) => Err(failure),
    }
}

/// The force-feedback effects gathered after the items of an array from
/// position `from` on were resolved in order, or an `InvalidValue` at the
/// first item that resolves to no effect.
pub open spec fn effects_scan(items: Seq<Node>, from: int, found: Seq<ForceFeedback>) -> Result<
    Seq<ForceFeedback>,
    Failure,
>
    decreases items.len() - from,
{
    if from < 0 || from >= items.len() {
        Ok(found)
    } else {
        match force_feedback_of(items[from]) {
            Some(effect) => effects_scan(items, from + 1, found.push(effect)),
            None => Err(Failure::at_index(ErrorKind::InvalidValue, from)),
        }
    }
}

/// The force-feedback effects that an array gives, one for each item, in
/// the order of the items.
pub open spec fn effects_of(array: Node) -> Result<Seq<ForceFeedback>, Failure> {
    match items_of(array) {
        Ok(items) => effects_scan(items, 0, Seq::empty()),
        Err(failure) => Err(failure),
    }
}

/// Reads an array of keys.
pub fn parse_keys(array: &Node) -> (done: Result<Vec<Key>, ConfigError>)
    ensures
        match done {
            Ok(keys) => keys_of(*array) == Ok::<Seq<Key>, Failure>(keys@),
            Err(error) => keys_of(*array) == Err::<Seq<Key>, Failure>(error@),
        },
{
    let items = array.expect_array()?;
    let mut found: Vec<Key> = Vec::new();
    let mut at: usize = 0;
    while at < items.len()
        invariant
            at <= items.len(),
            items_of(*array) == Ok::<Seq<Node>, Failure>(items@),
            keys_scan(items@, at as int, found@) == keys_scan(items@, 0, Seq::empty()),
        decreases items.len() - at,
    {
        match try_into_key_value(&items[at]) {
            Some(key) => {
                found.push(key);
            },
            None => {
                return Err(ConfigError::at_index(ErrorKind::InvalidValue, at));
            },
        }
        at = at + 1;
    }
    Ok(found)
}

/// Reads an array of relative axes.
pub fn parse_relative_axes(array: &Node) -> (done: Result<Vec<RelativeAxis>, ConfigError>)
    ensures
        match done {
            Ok(axes) => relative_axes_of(*array) == Ok::<Seq<RelativeAxis>, Failure>(axes@),
            Err(error) => relative_axes_of(*array) == Err::<Seq<RelativeAxis>, Failure>(error@),
        },
{
    let items = array.expect_array()?;
    let mut found: Vec<RelativeAxis> = Vec::new();
    let mut at: usize = 0;
    while at < items.len()
        invariant
            at <= items.len(),
            items_of(*array) == Ok::<Seq<Node>, Failure>(items@),
            relative_axes_scan(items@, at as int, found@) == relative_axes_scan(
                items@,
                0,
                Seq::empty(),
            ),
        decreases items.len() - at,
    {
        match try_into_rel_value(&items[at]) {
            Some(axis) => {
                found.push(axis);
            },
            None => {
                return Err(ConfigError::at_index(ErrorKind::InvalidValue, at));
            },
        }
        at = at + 1;
    }
    Ok(found)
}

/// Reads an array of force-feedback effects.
pub fn parse_effects(array: &Node) -> (done: Result<Vec<ForceFeedback>, ConfigError>)
    ensures
        match done {
            Ok(effects) => effects_of(*array) == Ok::<Seq<ForceFeedback>, Failure>(effects@),
            Err(error) => effects_of(*array) == Err::<Seq<ForceFeedback>, Failure>(error@),
        },
{
    let items = array.expect_array()?;
    let mut found: Vec<ForceFeedback> = Vec::new();
    let mut at: usize = 0;
    while at < items.len()
        invariant
            at <= items.len(),
            items_of(*array) == Ok::<Seq<Node>, Failure>(items@),
            effects_scan(items@, at as int, found@) == effects_scan(items@, 0, Seq::empty()),
        decreases items.len() - at,
    {
        match try_into_ff_value(&items[at]) {
            Some(effect) => {
                found.push(effect);
            },
            None => {
                return Err(ConfigError::at_index(ErrorKind::InvalidValue, at));
            },
        }
        at = at + 1;
    }
    Ok(found)
}

/// A virtual device while its table is being read: the reference name given
/// so far, and the fields given so far.
pub struct DeviceDraft {
    pub internal_name: Option<String>,
    pub device: VirtualDevice,
}

/// A `DeviceDraft` as a mathematical value.
pub struct DeviceDraftView {
    pub internal_name: Option<Seq<char>>,
    pub device: VirtualDeviceView,
}

impl View for DeviceDraft {
    type V = DeviceDraftView;

    open spec fn view(&self) -> DeviceDraftView {
        DeviceDraftView { internal_name: optional_text(self.internal_name), device: self.device@ }
    }
}

/// The draft of a virtual device before any key was read: no reference
/// name, every field absent, every set empty.
pub open spec fn blank_device() -> DeviceDraftView {
    DeviceDraftView {
        internal_name: None,
        device: VirtualDeviceView {
            preset: None,
            bus: None,
            vendor: None,
            product: None,
            version: None,
            name: None,
            chmod: None,
            key_bits: Seq::empty(),
            rel_bits: Seq::empty(),
            abs_bits: Seq::empty(),
            ff_bits: Seq::empty(),
            redirect_force_feedback_to: None,
        },
    }
}

/// The draft after one entry of a device's table was read, or the fault of
/// that entry, seen from the entry's value. An array or a table of
/// identifiers takes the place of what an earlier entry of the same key
/// gave.
pub open spec fn device_step(draft: DeviceDraftView, key: Seq<char>, value: Node) -> Result<
    DeviceDraftView,
    Failure,
> {
    if key == "ref"@ {
        match text_of(value) {
            Ok(text) => Ok(DeviceDraftView { internal_name: Some(text), ..draft }),
            Err(failure) => Err(failure),
        }
    } else if key == "preset"@ {
        match text_of(value) {
            Ok(text) => match device_preset_of(text) {
                Some(preset) => Ok(
                    DeviceDraftView {
                        device: VirtualDeviceView { preset: Some(preset), ..draft.device },
                        ..draft
                    },
                ),
                None => Err(Failure::here(ErrorKind::InvalidValue)),
            },
            Err(failure) => Err(failure),
        }
    } else if key == "bus"@ {
        match bus_of(value) {
            Some(bus) => Ok(
                DeviceDraftView {
                    device: VirtualDeviceView { bus: Some(bus), ..draft.device },
                    ..draft
                },
            ),
            None => Err(Failure::here(ErrorKind::InvalidValue)),
        }
    } else if key == "name"@ {
        match text_of(value) {
            Ok(text) => Ok(
                DeviceDraftView {
                    device: VirtualDeviceView { name: Some(text), ..draft.device },
                    ..draft
                },
            ),
            Err(failure) => Err(failure),
        }
    } else if key == "vendor"@ {
        match u16_of(value) {
            Ok(number) => Ok(
                DeviceDraftView {
                    device: VirtualDeviceView { vendor: Some(number), ..draft.device },
                    ..draft
                },
            ),
            Err(failure) => Err(failure),
        }
    } else if key == "product"@ {
        match u16_of(value) {
            Ok(number) => Ok(
                DeviceDraftView {
                    device: VirtualDeviceView { product: Some(number), ..draft.device },
                    ..draft
                },
            ),
            Err(failure) => Err(failure),
        }
    } else if key == "version"@ {
        match u16_of(value) {
            Ok(number) => Ok(
                DeviceDraftView {
                    device: VirtualDeviceView { version: Some(number), ..draft.device },
                    ..draft
                },
            ),
            Err(failure) => Err(failure),
        }
    } else if key == "chmod"@ {
        match u16_of(value) {
            Ok(number) => Ok(
                DeviceDraftView {
                    device: VirtualDeviceView { chmod: Some(number), ..draft.device },
                    ..draft
                },
            ),
            Err(failure) => Err(failure),
        }
    } else if key == "keys"@ {
        match keys_of(value) {
            Ok(keys) => Ok(
                DeviceDraftView {
                    device: VirtualDeviceView { key_bits: keys, ..draft.device },
                    ..draft
                },
            ),
            Err(failure) => Err(failure),
        }
    } else if key == "rel"@ {
        match relative_axes_of(value) {
            Ok(axes) => Ok(
                DeviceDraftView {
                    device: VirtualDeviceView { rel_bits: axes, ..draft.device },
                    ..draft
                },
            ),
            Err(failure) => Err(failure),
        }
    } else if key == "force-feedback"@ {
        match effects_of(value) {
            Ok(effects) => Ok(
                DeviceDraftView {
                    device: VirtualDeviceView { ff_bits: effects, ..draft.device },
                    ..draft
                },
            ),
            Err(failure) => Err(failure),
        }
    } else if key == "abs"@ {
        match axes_of(value) {
            Ok(bits) => Ok(
                DeviceDraftView {
                    device: VirtualDeviceView { abs_bits: bits, ..draft.device },
                    ..draft
                },
            ),
            Err(failure) => Err(failure),
        }
    } else if key == "redirect-force-feedback-to"@ {
        match text_of(value) {
            Ok(text) => Ok(
                DeviceDraftView {
                    device: VirtualDeviceView {
                        redirect_force_feedback_to: Some(text),
                        ..draft.device
                    },
                    ..draft
                },
            ),
            Err(failure) => Err(failure),
        }
    } else {
        Err(Failure::here(ErrorKind::UnrecognizedKey))
    }
}

/// The draft after the entries of a device's table from position `from` on
/// were read in order, or the fault of the first entry that has one, seen
/// from the table.
pub open spec fn device_scan(entries: Seq<(String, Node)>, from: int, draft: DeviceDraftView)
    -> Result<DeviceDraftView, Failure>
    decreases entries.len() - from,
{
    if from < 0 || from >= entries.len() {
        Ok(draft)
    } else {
        match device_step(draft, entries[from].0@, entries[from].1) {
            Ok(next) => device_scan(entries, from + 1, next),
            Err(failure) => Err(failure.under(entries[from].0@)),
        }
    }
}

/// The name under which a finished draft is filed: its `ref`, else its
/// `name`; a draft with neither misses its `ref`.
pub open spec fn device_named(draft: DeviceDraftView) -> Result<
    (Seq<char>, VirtualDeviceView),
    Failure,
> {
    match draft.internal_name {
        Some(name) => Ok((name, draft.device)),
        None => match draft.device.name {
            Some(name) => Ok((name, draft.device)),
            None => Err(Failure::at_key(ErrorKind::Missing, "ref"@)),
        },
    }
}

/// The virtual device that one item of the section describes, with the name
/// under which it is filed, or the item's fault, seen from the item.
pub open spec fn device_of(item: Node) -> Result<(Seq<char>, VirtualDeviceView), Failure> {
    match entries_of(item) {
        Ok(entries) => match device_scan(entries, 0, blank_device()) {
            Ok(draft) => device_named(draft),
            Err(failure) => Err(failure),
        },
        Err(failure) => Err(failure),
    }
}

/// The devices on file after the items of the section from position `from`
/// on were filed in order, or the fault of the first item that has one, seen
/// from the section.
pub open spec fn devices_scan(
    items: Seq<Node>,
    from: int,
    filed: Seq<(Seq<char>, VirtualDeviceView)>,
) -> Result<Seq<(Seq<char>, VirtualDeviceView)>, Failure>
    decreases items.len() - from,
{
    if from < 0 || from >= items.len() {
        Ok(filed)
    } else {
        match device_of(items[from]) {
            Ok(entry) => devices_scan(items, from + 1, placed(filed, entry.0, entry.1)),
            Err(failure) => Err(failure.item(from)),
        }
    }
}

/// The devices on file after a whole section was read.
pub open spec fn devices_of(section: Node, filed: Seq<(Seq<char>, VirtualDeviceView)>) -> Result<
    Seq<(Seq<char>, VirtualDeviceView)>,
    Failure,
> {
    match items_of(section) {
        Ok(items) => devices_scan(items, 0, filed),
        Err(failure) => Err(failure),
    }
}

impl DeviceDraft {
    /// A draft before any key was read.
    pub fn blank() -> (draft: DeviceDraft)
        ensures
            draft@ == blank_device(),
    {
        DeviceDraft {
            internal_name: None,
            device: VirtualDevice {
                preset: None,
                bus: None,
                vendor: None,
                product: None,
                version: None,
                name: None,
                chmod: None,
                key_bits: Vec::new(),
                rel_bits: Vec::new(),
                abs_bits: Vec::new(),
                ff_bits: Vec::new(),
                redirect_force_feedback_to: None,
            },
        }
    }

    /// Reads one entry of a device's table into the draft. On a fault the
    /// draft is left as it was.
    pub fn read(&mut self, key: &str, value: &Node) -> (done: Result<(), ConfigError>)
        ensures
            match done {
                Ok(()) => device_step(old(self)@, key@, *value) == Ok::<DeviceDraftView, Failure>(
                    final(self)@,
                ),
                Err(error) => device_step(old(self)@, key@, *value) == Err::<
                    DeviceDraftView,
                    Failure,
                >(error@) && *final(self) == *old(self),
            },
    {
        if same_text(key, "ref") {
            let text = value.expect_str()?;
            self.internal_name = Some(text.clone());
        } else if same_text(key, "preset") {
            let text = value.expect_str()?;
            match DevicePreset::try_from_str(text.as_str()) {
                Some(preset) => {
                    self.device.preset = Some(preset);
                },
                None => {
                    return Err(ConfigError::here(ErrorKind::InvalidValue));
                },
            }
        } else if same_text(key, "bus") {
            match try_into_bus_value(value) {
                Some(bus) => {
                    self.device.bus = Some(bus);
                },
                None => {
                    return Err(ConfigError::here(ErrorKind::InvalidValue));
                },
            }
        } else if same_text(key, "name") {
            let text = value.expect_str()?;
            self.device.name = Some(text.clone());
        } else if same_text(key, "vendor") {
            let number = value.expect_u16()?;
            self.device.vendor = Some(number);
        } else if same_text(key, "product") {
            let number = value.expect_u16()?;
            self.device.product = Some(number);
        } else if same_text(key, "version") {
            let number = value.expect_u16()?;
            self.device.version = Some(number);
        } else if same_text(key, "chmod") {
            let number = value.expect_u16()?;
            self.device.chmod = Some(number);
        } else if same_text(key, "keys") {
            let keys = parse_keys(value)?;
            self.device.key_bits = keys;
        } else if same_text(key, "rel") {
            let axes = parse_relative_axes(value)?;
            self.device.rel_bits = axes;
        } else if same_text(key, "force-feedback") {
            let effects = parse_effects(value)?;
            self.device.ff_bits = effects;
        } else if same_text(key, "abs") {
            let bits = parse_axes(value)?;
            self.device.abs_bits = bits;
        } else if same_text(key, "redirect-force-feedback-to") {
            let text = value.expect_str()?;
            self.device.redirect_force_feedback_to = Some(text.clone());
        } else {
            return Err(ConfigError::here(ErrorKind::UnrecognizedKey));
        }
        Ok(())
    }

    /// Ends the draft: the device, and the name under which it is filed.
    pub fn finish(self) -> (done: Result<(String, VirtualDevice), ConfigError>)
        ensures
            match done {
                Ok(entry) => device_named(self@) == Ok::<(Seq<char>, VirtualDeviceView), Failure>(
                    (entry.0@, entry.1@),
                ),
                Err(error) => device_named(self@) == Err::<
                    (Seq<char>, VirtualDeviceView),
                    Failure,
                >(error@),
            },
    {
        match self.internal_name {
            Some(name) => Ok((name, self.device)),
            None => {
                let name = match &self.device.name {
                    Some(name) => name.clone(),
                    None => {
                        return Err(ConfigError::at_key(ErrorKind::Missing, "ref"));
                    },
                };
                Ok((name, self.device))
            },
        }
    }
}

/// Reads one item of the section of virtual devices: a table of the keys
/// `ref`, `preset`, `bus`, `name`, `vendor`, `product`, `version`, `chmod`,
/// `keys`, `rel`, `force-feedback`, `abs` and `redirect-force-feedback-to`.
pub fn parse_device(item: &Node) -> (done: Result<(String, VirtualDevice), ConfigError>)
    ensures
        match done {
            Ok(entry) => device_of(*item) == Ok::<(Seq<char>, VirtualDeviceView), Failure>(
                (entry.0@, entry.1@),
            ),
            Err(error) => device_of(*item) == Err::<(Seq<char>, VirtualDeviceView), Failure>(
                error@,
            ),
        },
{
    let entries = item.expect_table()?;
    let mut draft = DeviceDraft::blank();
    let mut at: usize = 0;
    while at < entries.len()
        invariant
            at <= entries.len(),
            entries_of(*item) == Ok::<Seq<(String, Node)>, Failure>(entries@),
            device_scan(entries@, at as int, draft@) == device_scan(entries@, 0, blank_device()),
        decreases entries.len() - at,
    {
        let key = &entries[at].0;
        match draft.read(key.as_str(), &entries[at].1) {
            Ok(()) => {},
            Err(error) => {
                return Err(error.under(key.as_str()));
            },
        }
        at = at + 1;
    }
    draft.finish()
}

/// Reads the section of virtual devices and files each device under its
/// name, in the order of the section.
pub fn parse_devices(section: &Node, filed: &mut IndexMap<String, VirtualDevice>) -> (done:
    Result<(), ConfigError>)
    ensures
        match done {
            Ok(()) => devices_of(*section, device_entries(*old(filed))) == Ok::<
                Seq<(Seq<char>, VirtualDeviceView)>,
                Failure,
            >(device_entries(*final(filed))),
            Err(error) => devices_of(*section, device_entries(*old(filed))) == Err::<
                Seq<(Seq<char>, VirtualDeviceView)>,
                Failure,
            >(error@),
        },
{
    let items = section.expect_array()?;
    let mut at: usize = 0;
    while at < items.len()
        invariant
            at <= items.len(),
            items_of(*section) == Ok::<Seq<Node>, Failure>(items@),
            devices_scan(items@, at as int, device_entries(*filed)) == devices_scan(
                items@,
                0,
                device_entries(*old(filed)),
            ),
        decreases items.len() - at,
    {
        match parse_device(&items[at]) {
            Ok(entry) => {
                insert_device(filed, entry.0, entry.1);
            },
            Err(error) => {
                return Err(error.item(at));
            },
        }
        at = at + 1;
    }
    Ok(())
}

} // verus!
