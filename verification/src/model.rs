//! The typed configuration: device filters, virtual devices and scripts.

use vstd::prelude::*;
use indexmap::IndexMap;
use crate::codes::{AbsoluteAxisBit, Bus, ForceFeedback, Key, RelativeAxis};
use crate::ordered::{device_entries, filter_entries};
use crate::text::same_text;

verus! {

/// The class of physical device that a filter matches.
#[derive(Clone, Copy, PartialEq, Eq, Debug, Structural)]
pub enum DeviceKind {
    Keyboard,
    Mouse,
    Gamepad,
}

/// A preset that gives a virtual device its defaults.
#[derive(Clone, Copy, PartialEq, Eq, Debug, Structural)]
pub enum DevicePreset {
    Keyboard,
    Mouse,
}

/// The device class that `name` spells.
pub open spec fn device_kind_of(name: Seq<char>) -> Option<DeviceKind> {
    if name == "keyboard"@ {
        Some(DeviceKind::Keyboard)
    } else if name == "mouse"@ {
        Some(DeviceKind::Mouse)
    } else if name == "gamepad"@ {
        Some(DeviceKind::Gamepad)
    } else {
        None
    }
}

/// The preset that `name` spells.
pub open spec fn device_preset_of(name: Seq<char>) -> Option<DevicePreset> {
    if name == "keyboard"@ {
        Some(DevicePreset::Keyboard)
    } else if name == "mouse"@ {
        Some(DevicePreset::Mouse)
    } else {
        None
    }
}

/// The name that spells a device class.
pub open spec fn device_kind_name(kind: DeviceKind) -> Seq<char> {
    match kind {
        DeviceKind::Keyboard => "keyboard"@,
        DeviceKind::Mouse => "mouse"@,
        DeviceKind::Gamepad => "gamepad"@,
    }
}

/// Reading the name of a device class gives the class back.
pub proof fn lemma_device_kind_name_reads_back(kind: DeviceKind)
    ensures
        device_kind_of(device_kind_name(kind)) == Some(kind),
{
    reveal_strlit("keyboard");
    reveal_strlit("mouse");
    reveal_strlit("gamepad");
    assert("keyboard"@.len() == 8);
    assert("mouse"@.len() == 5);
    assert("gamepad"@.len() == 7);
}

impl DeviceKind {
    /// Reads a device class from its name.
    pub fn try_from_str(string: &str) -> (kind: Option<DeviceKind>)
        ensures
            kind == device_kind_of(string@),
    {
        if same_text(string, "keyboard") {
            Some(DeviceKind::Keyboard)
        } else if same_text(string, "mouse") {
            Some(DeviceKind::Mouse)
        } else if same_text(string, "gamepad") {
            Some(DeviceKind::Gamepad)
        } else {
            None
        }
    }

    /// The name of the device class, as a document spells it.
    pub fn name(&self) -> (name: &'static str)
        ensures
            name@ == device_kind_name(*self),
    {
        match self {
            DeviceKind::Keyboard => "keyboard",
            DeviceKind::Mouse => "mouse",
            DeviceKind::Gamepad => "gamepad",
        }
    }
}

impl DevicePreset {
    /// Reads a preset from its name.
    pub fn try_from_str(string: &str) -> (preset: Option<DevicePreset>)
        ensures
            preset == device_preset_of(string@),
    {
        if same_text(string, "keyboard") {
            Some(DevicePreset::Keyboard)
        } else if same_text(string, "mouse") {
            Some(DevicePreset::Mouse)
        } else {
            None
        }
    }
}

/// A predicate over physical devices. A field that is `None` matches any
/// device.
#[derive(Clone, PartialEq, Eq, Debug)]
pub struct DeviceFilter {
    pub kind: Option<DeviceKind>,
    pub bus: Option<Bus>,
    pub vendor: Option<u16>,
    pub not_vendor: Option<u16>,
    pub product: Option<u16>,
    pub version: Option<u16>,
    pub name: Option<String>,
    pub exclusive: bool,
    pub chmod: Option<u16>,
}

/// A `DeviceFilter` as a mathematical value.
pub struct DeviceFilterView {
    pub kind: Option<DeviceKind>,
    pub bus: Option<Bus>,
    pub vendor: Option<u16>,
    pub not_vendor: Option<u16>,
    pub product: Option<u16>,
    pub version: Option<u16>,
    pub name: Option<Seq<char>>,
    pub exclusive: bool,
    pub chmod: Option<u16>,
}

/// The characters of an optional string.
pub open spec fn optional_text(text: Option<String>) -> Option<Seq<char>> {
    match text {
        Some(text) => Some(text@),
        None => None,
    }
}

impl View for DeviceFilter {
    type V = DeviceFilterView;

    open spec fn view(&self) -> DeviceFilterView {
        DeviceFilterView {
            kind: self.kind,
            bus: self.bus,
            vendor: self.vendor,
            not_vendor: self.not_vendor,
            product: self.product,
            version: self.version,
            name: optional_text(self.name),
            exclusive: self.exclusive,
            chmod: self.chmod,
        }
    }
}

/// The description of a device to fabricate.
#[derive(Clone, PartialEq, Eq, Debug)]
pub struct VirtualDevice {
    pub preset: Option<DevicePreset>,
    pub bus: Option<Bus>,
    pub vendor: Option<u16>,
    pub product: Option<u16>,
    pub version: Option<u16>,
    pub name: Option<String>,
    pub chmod: Option<u16>,
    pub key_bits: Vec<Key>,
    pub rel_bits: Vec<RelativeAxis>,
    pub abs_bits: Vec<AbsoluteAxisBit>,
    pub ff_bits: Vec<ForceFeedback>,
    pub redirect_force_feedback_to: Option<String>,
}

/// A `VirtualDevice` as a mathematical value.
pub struct VirtualDeviceView {
    pub preset: Option<DevicePreset>,
    pub bus: Option<Bus>,
    pub vendor: Option<u16>,
    pub product: Option<u16>,
    pub version: Option<u16>,
    pub name: Option<Seq<char>>,
    pub chmod: Option<u16>,
    pub key_bits: Seq<Key>,
    pub rel_bits: Seq<RelativeAxis>,
    pub abs_bits: Seq<AbsoluteAxisBit>,
    pub ff_bits: Seq<ForceFeedback>,
    pub redirect_force_feedback_to: Option<Seq<char>>,
}

impl View for VirtualDevice {
    type V = VirtualDeviceView;

    open spec fn view(&self) -> VirtualDeviceView {
        VirtualDeviceView {
            preset: self.preset,
            bus: self.bus,
            vendor: self.vendor,
            product: self.product,
            version: self.version,
            name: optional_text(self.name),
            chmod: self.chmod,
            key_bits: self.key_bits@,
            rel_bits: self.rel_bits@,
            abs_bits: self.abs_bits@,
            ff_bits: self.ff_bits@,
            redirect_force_feedback_to: optional_text(self.redirect_force_feedback_to),
        }
    }
}

/// A script and the device filter that it is attached to.
#[derive(Clone, PartialEq, Eq, Debug)]
pub struct Script {
    pub device: String,
    pub code: String,
}

/// A `Script` as a mathematical value.
pub struct ScriptView {
    pub device: Seq<char>,
    pub code: Seq<char>,
}

impl View for Script {
    type V = ScriptView;

    open spec fn view(&self) -> ScriptView {
        ScriptView { device: self.device@, code: self.code@ }
    }
}

/// The scripts of a list as mathematical values.
pub open spec fn script_views(scripts: Seq<Script>) -> Seq<ScriptView> {
    Seq::new(scripts.len(), |i: int| scripts[i]@)
}

/// A whole configuration. The two maps keep the order in which their entries
/// were first declared.
#[derive(Debug)]
pub struct Config {
    pub device_filters: IndexMap<String, DeviceFilter>,
    pub virtual_devices: IndexMap<String, VirtualDevice>,
    pub scripts: Vec<Script>,
}

/// A `Config` as a mathematical value: each map as the sequence of its
/// entries, in the map's order.
pub struct ConfigView {
    pub device_filters: Seq<(Seq<char>, DeviceFilterView)>,
    pub virtual_devices: Seq<(Seq<char>, VirtualDeviceView)>,
    pub scripts: Seq<ScriptView>,
}

impl View for Config {
    type V = ConfigView;

    open spec fn view(&self) -> ConfigView {
        ConfigView {
            device_filters: filter_entries(self.device_filters),
            virtual_devices: device_entries(self.virtual_devices),
            scripts: script_views(self.scripts@),
        }
    }
}

} // verus!
