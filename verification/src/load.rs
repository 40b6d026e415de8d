//! Loading a configuration: the sections of the document are read in the
//! order of the document's root, then checked against each other.

use vstd::prelude::*;
use indexmap::IndexMap;
use crate::axis::distinct_axes;
use crate::device::{devices_of, parse_devices};
use crate::document::{Node, entries_of, node_of_toml, parse_toml, toml_document};
use crate::error::{ConfigError, ErrorKind, Failure};
use crate::filter::{filters_of, parse_filters};
use crate::load_laws::lemma_loaded_axes_are_distinct;
use crate::model::{
    Config, ConfigView, DeviceFilter, DeviceFilterView, Script, ScriptView, VirtualDevice,
    VirtualDeviceView, script_views,
};
use crate::ordered::{
    contains_filter, count_devices, device_at, device_entries, filter_entries, has_key,
    new_devices, new_filters,
};
use crate::script::{parse_scripts, scripts_of};
use crate::text::same_text;

verus! {

/// The configuration of a document without sections.
pub open spec fn blank_config() -> ConfigView {
    ConfigView {
        device_filters: Seq::empty(),
        virtual_devices: Seq::empty(),
        scripts: Seq::empty(),
    }
}

/// The configuration after one entry of the document's root was read, or
/// the fault of that entry, seen from the entry's value. The root knows the
/// keys `device-filter`, `virtual-device` and `script`.
pub open spec fn section_step(config: ConfigView, key: Seq<char>, value: Node) -> Result<
    ConfigView,
    Failure,
> {
    if key == "device-filter"@ {
        match filters_of(value, config.device_filters) {
            Ok(filed) => Ok(ConfigView { device_filters: filed, ..config }),
            Err(failure) => Err(failure),
        }
    } else if key == "virtual-device"@ {
        match devices_of(value, config.virtual_devices) {
            Ok(filed) => Ok(ConfigView { virtual_devices: filed, ..config }),
            Err(failure) => Err(failure),
        }
    } else if key == "script"@ {
        match scripts_of(value, config.scripts) {
            Ok(found) => Ok(ConfigView { scripts: found, ..config }),
            Err(failure) => Err(failure),
        }
    } else {
        Err(Failure::here(ErrorKind::UnrecognizedKey))
    }
}

/// The configuration after the entries of the root from position `from` on
/// were read in order, or the fault of the first entry that has one, seen
/// from the root.
pub open spec fn sections_scan(entries: Seq<(String, Node)>, from: int, config: ConfigView)
    -> Result<ConfigView, Failure>
    decreases entries.len() - from,
{
    if from < 0 || from >= entries.len() {
        Ok(config)
    } else {
        match section_step(config, entries[from].0@, entries[from].1) {
            Ok(next) => sections_scan(entries, from + 1, next),
            Err(failure) => Err(failure.under(entries[from].0@)),
        }
    }
}

/// The fault of the first script from position `from` on whose device is
/// not the name of a filter.
pub open spec fn scripts_fault(
    scripts: Seq<ScriptView>,
    filters: Seq<(Seq<char>, DeviceFilterView)>,
    from: int,
) -> Option<Failure>
    decreases scripts.len() - from,
{
    if from < 0 || from >= scripts.len() {
        None
    } else if !has_key(filters, scripts[from].device) {
        Some(Failure::about(ErrorKind::UnknownScriptDevice, scripts[from].device))
    } else {
        scripts_fault(scripts, filters, from + 1)
    }
}

/// The fault of one virtual device against the filters: its name is also
/// the name of a filter, or else its force feedback is redirected to a name
/// that is no filter's.
pub open spec fn device_fault(
    name: Seq<char>,
    device: VirtualDeviceView,
    filters: Seq<(Seq<char>, DeviceFilterView)>,
) -> Option<Failure> {
    if has_key(filters, name) {
        Some(Failure::about(ErrorKind::NameCollision, name))
    } else {
        match device.redirect_force_feedback_to {
            Some(target) => if has_key(filters, target) {
                None
            } else {
                Some(Failure::about(ErrorKind::UnknownRedirectTarget, target))
            },
            None => None,
        }
    }
}

/// The fault of the first virtual device from position `from` on that has
/// one.
pub open spec fn devices_fault(
    devices: Seq<(Seq<char>, VirtualDeviceView)>,
    filters: Seq<(Seq<char>, DeviceFilterView)>,
    from: int,
) -> Option<Failure>
    decreases devices.len() - from,
{
    if from < 0 || from >= devices.len() {
        None
    } else {
        match device_fault(devices[from].0, devices[from].1, filters) {
            Some(failure) => Some(failure),
            None => devices_fault(devices, filters, from + 1),
        }
    }
}

/// The first fault between the sections of a configuration: the scripts
/// are checked first, in their order, then the virtual devices, in theirs.
pub open spec fn cross_fault(config: ConfigView) -> Option<Failure> {
    match scripts_fault(config.scripts, config.device_filters, 0) {
        Some(failure) => Some(failure),
        None => devices_fault(config.virtual_devices, config.device_filters, 0),
    }
}

/// The sections of a configuration agree: every script is attached to a
/// filter, no virtual device has the name of a filter, and every redirection
/// of force feedback leads to a filter.
pub open spec fn consistent(config: ConfigView) -> bool {
    &&& forall|i: int|
        0 <= i < config.scripts.len() ==> has_key(
            config.device_filters,
            (#[trigger] config.scripts[i]).device,
        )
    &&& forall|i: int|
        0 <= i < config.virtual_devices.len() ==> !has_key(
            config.device_filters,
            (#[trigger] config.virtual_devices[i]).0,
        )
    &&& forall|i: int|
        0 <= i < config.virtual_devices.len() ==> match (
            #[trigger] config.virtual_devices[i]
        ).1.redirect_force_feedback_to {
            Some(target) => has_key(config.device_filters, target),
            None => true,
        }
}

/// Each virtual device has one record for each of its absolute axes: no two
/// records of a device are of the same axis, by the axes' numbers.
pub open spec fn calibrated_once(config: ConfigView) -> bool {
    forall|i: int|
        0 <= i < config.virtual_devices.len() ==> distinct_axes(
            (#[trigger] config.virtual_devices[i]).1.abs_bits,
        )
}

/// The configuration that a document gives, or the first fault met.
pub open spec fn load_of(root: Node) -> Result<ConfigView, Failure> {
    match entries_of(root) {
        Ok(entries) => match sections_scan(entries, 0, blank_config()) {
            Ok(config) => match cross_fault(config) {
                Some(failure) => Err(failure),
                None => Ok(config),
            },
            Err(failure) => Err(failure),
        },
        Err(failure) => Err(failure),
    }
}

/// The configuration that a parsed text gives: a text that is no document
/// is a `Syntax` fault that carries the reader's message.
pub open spec fn load_of_parsed(parsed: Result<Node, Seq<char>>) -> Result<ConfigView, Failure> {
    match parsed {
        Ok(root) => load_of(root),
        Err(message) => Err(Failure::about(ErrorKind::Syntax, message)),
    }
}

/// A fault is found exactly where the sections do not agree.
pub proof fn lemma_cross_fault_none_iff_consistent(config: ConfigView)
    ensures
        cross_fault(config) is None <==> consistent(config),
{
    lemma_scripts_fault(config.scripts, config.device_filters, 0);
    lemma_devices_fault(config.virtual_devices, config.device_filters, 0);
}

/// No script from `from` on has a fault exactly where each of them is
/// attached to a filter.
pub proof fn lemma_scripts_fault(
    scripts: Seq<ScriptView>,
    filters: Seq<(Seq<char>, DeviceFilterView)>,
    from: int,
)
    requires
        0 <= from,
    ensures
        scripts_fault(scripts, filters, from) is None <==> forall|i: int|
            from <= i < scripts.len() ==> has_key(filters, (#[trigger] scripts[i]).device),
    decreases scripts.len() - from,
{
    if from < scripts.len() {
        lemma_scripts_fault(scripts, filters, from + 1);
        if has_key(filters, scripts[from].device) {
            assert forall|i: int| from <= i < scripts.len() && (forall|j: int|
                from + 1 <= j < scripts.len() ==> has_key(
                    filters,
                    (#[trigger] scripts[j]).device,
                )) implies has_key(filters, (#[trigger] scripts[i]).device) by {}
        }
    }
}

/// No virtual device from `from` on has a fault exactly where none has the
/// name of a filter and each redirection leads to a filter.
pub proof fn lemma_devices_fault(
    devices: Seq<(Seq<char>, VirtualDeviceView)>,
    filters: Seq<(Seq<char>, DeviceFilterView)>,
    from: int,
)
    requires
        0 <= from,
    ensures
        devices_fault(devices, filters, from) is None <==> forall|i: int|
            from <= i < devices.len() ==> device_fault(
                (#[trigger] devices[i]).0,
                devices[i].1,
                filters,
            ) is None,
    decreases devices.len() - from,
{
    if from < devices.len() {
        lemma_devices_fault(devices, filters, from + 1);
        if device_fault(devices[from].0, devices[from].1, filters) is None {
            assert forall|i: int| from <= i < devices.len() && (forall|j: int|
                from + 1 <= j < devices.len() ==> device_fault(
                    (#[trigger] devices[j]).0,
                    devices[j].1,
                    filters,
                ) is None) implies device_fault(
                (#[trigger] devices[i]).0,
                devices[i].1,
                filters,
            ) is None by {}
        }
    }
}

/// Checks the scripts against the filters.
pub fn check_scripts(scripts: &Vec<Script>, filters: &IndexMap<String, DeviceFilter>) -> (done:
    Result<(), ConfigError>)
    ensures
        match done {
            Ok(()) => scripts_fault(script_views(scripts@), filter_entries(*filters), 0) is None,
            Err(error) => scripts_fault(script_views(scripts@), filter_entries(*filters), 0)
                == Some(error@),
        },
{
    let mut at: usize = 0;
    while at < scripts.len()
        invariant
            at <= scripts.len(),
            scripts_fault(script_views(scripts@), filter_entries(*filters), at as int)
                == scripts_fault(script_views(scripts@), filter_entries(*filters), 0),
        decreases scripts.len() - at,
    {
        let device = scripts[at].device.as_str();
        if !contains_filter(filters, device) {
            return Err(ConfigError::about(ErrorKind::UnknownScriptDevice, device));
        }
        at = at + 1;
    }
    Ok(())
}

/// Checks the virtual devices against the filters.
pub fn check_devices(
    devices: &IndexMap<String, VirtualDevice>,
    filters: &IndexMap<String, DeviceFilter>,
) -> (done: Result<(), ConfigError>)
    ensures
        match done {
            Ok(()) => devices_fault(device_entries(*devices), filter_entries(*filters), 0)
                is None,
            Err(error) => devices_fault(device_entries(*devices), filter_entries(*filters), 0)
                == Some(error@),
        },
{
    let count = count_devices(devices);
    let mut at: usize = 0;
    while at < count
        invariant
            at <= count,
            count == device_entries(*devices).len(),
            devices_fault(device_entries(*devices), filter_entries(*filters), at as int)
                == devices_fault(device_entries(*devices), filter_entries(*filters), 0),
        decreases count - at,
    {
        if let Some(entry) = device_at(devices, at) {
            let name = entry.0.as_str();
            if contains_filter(filters, name) {
                return Err(ConfigError::about(ErrorKind::NameCollision, name));
            }
            if let Some(target) = &entry.1.redirect_force_feedback_to {
                if !contains_filter(filters, target.as_str()) {
                    return Err(
                        ConfigError::about(ErrorKind::UnknownRedirectTarget, target.as_str()),
                    );
                }
            }
        }
        at = at + 1;
    }
    Ok(())
}

impl Config {
    /// Checks the sections of a configuration against each other: scripts
    /// first, then virtual devices, each in their order.
    pub fn validate(&self) -> (done: Result<(), ConfigError>)
        ensures
            match done {
                Ok(()) => cross_fault(self@) is None && consistent(self@),
                Err(error) => cross_fault(self@) == Some(error@),
            },
    {
        proof {
            lemma_cross_fault_none_iff_consistent(self@);
        }
        check_scripts(&self.scripts, &self.device_filters)?;
        check_devices(&self.virtual_devices, &self.device_filters)
    }

    /// Builds the configuration that a document describes. The root must be
    /// a table of the sections `device-filter`, `virtual-device` and
    /// `script`; the first fault met ends the load.
    pub fn load_from_document(root: &Node) -> (done: Result<Config, ConfigError>)
        ensures
            match done {
                Ok(config) => load_of(*root) == Ok::<ConfigView, Failure>(config@) && consistent(
                    config@,
                ) && calibrated_once(config@),
                Err(error) => load_of(*root) == Err::<ConfigView, Failure>(error@),
            },
    {
        proof {
            if load_of(*root) is Ok {
                lemma_loaded_axes_are_distinct(*root);
            }
        }
        let entries = root.expect_table()?;
        let mut config = Config {
            device_filters: new_filters(),
            virtual_devices: new_devices(),
            scripts: Vec::new(),
        };
        assert(config@ =~= blank_config()) by {
            assert(script_views(config.scripts@) =~= Seq::empty());
        }
        let mut at: usize = 0;
        while at < entries.len()
            invariant
                at <= entries.len(),
                entries_of(*root) == Ok::<Seq<(String, Node)>, Failure>(entries@),
                sections_scan(entries@, at as int, config@) == sections_scan(
                    entries@,
                    0,
                    blank_config(),
                ),
            decreases entries.len() - at,
        {
            let key = entries[at].0.as_str();
            let value = &entries[at].1;
            let read = if same_text(key, "device-filter") {
                parse_filters(value, &mut config.device_filters)
            } else if same_text(key, "virtual-device") {
                parse_devices(value, &mut config.virtual_devices)
            } else if same_text(key, "script") {
                parse_scripts(value, &mut config.scripts)
            } else {
                Err(ConfigError::here(ErrorKind::UnrecognizedKey))
            };
            match read {
                Ok(()) => {},
                Err(error) => {
                    return Err(error.under(key));
                },
            }
            at = at + 1;
        }
        match config.validate() {
            Ok(()) => Ok(config),
            Err(error) => Err(error),
        }
    }

    /// Reads a text as a document and builds the configuration that it
    /// describes.
    pub fn load_from_str(text: &str) -> (done: Result<Config, ConfigError>)
        ensures
            match done {
                Ok(config) => load_of_parsed(toml_document(text@)) == Ok::<ConfigView, Failure>(
                    config@,
                ) && consistent(config@) && calibrated_once(config@),
                Err(error) => load_of_parsed(toml_document(text@)) == Err::<ConfigView, Failure>(
                    error@,
                ),
            },
    {
        match parse_toml(text) {
            Ok(value) => {
                let root = node_of_toml(&value);
                Config::load_from_document(&root)
            },
            Err(message) => Err(ConfigError::about(ErrorKind::Syntax, message.as_str())),
        }
    }
}

} // verus!
