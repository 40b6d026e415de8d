//! Identifiers of the input subsystem: bus types, keys, relative and absolute
//! axes and force-feedback effects. Each may be given by a symbolic name, which
//! `linux_input` resolves, or by a bare number.

use vstd::prelude::*;
use crate::document::Node;
use crate::text::{all_digits, number_u16, parse_number};

verus! {

/// A bus type.
#[derive(Clone, Copy, PartialEq, Eq, Debug, Structural)]
pub enum Bus {
    /// Given by its symbolic name; holds the code that the name stands for.
    Named(u16),
    /// Given as a bare number.
    Other(u16),
}

/// A key or button.
#[derive(Clone, Copy, PartialEq, Eq, Debug, Structural)]
pub enum Key {
    /// Given by its symbolic name; holds the code that the name stands for.
    Named(u16),
    /// Given as a bare number.
    Other(u16),
}

/// A relative axis.
#[derive(Clone, Copy, PartialEq, Eq, Debug, Structural)]
pub enum RelativeAxis {
    /// Given by its symbolic name; holds the code that the name stands for.
    Named(u16),
    /// Given as a bare number.
    Other(u16),
}

/// An absolute axis.
#[derive(Clone, Copy, PartialEq, Eq, Debug, Structural)]
pub enum AbsoluteAxis {
    /// Given by its symbolic name; holds the code that the name stands for.
    Named(u16),
    /// Given as a bare number, in decimal or hexadecimal digits.
    Other(u16),
}

/// A force-feedback effect.
#[derive(Clone, Copy, PartialEq, Eq, Debug, Structural)]
pub enum ForceFeedback {
    /// Given by its symbolic name; holds the code that the name stands for.
    Named(u16),
    /// Given as a bare number.
    Other(u16),
}

/// One absolute axis of a virtual device, with its calibration.
#[derive(Clone, Copy, PartialEq, Eq, Debug, Structural)]
pub struct AbsoluteAxisBit {
    pub axis: AbsoluteAxis,
    pub initial_value: i32,
    pub minimum: i32,
    pub maximum: i32,
    pub noise_threshold: i32,
    pub deadzone: i32,
    pub resolution: i32,
}

/// The number of an absolute axis, however the axis was given.
pub open spec fn axis_code(axis: AbsoluteAxis) -> u16 {
    match axis {
        AbsoluteAxis::Named(code) => code,
        AbsoluteAxis::Other(code) => code,
    }
}

impl AbsoluteAxis {
    /// The number of the axis, however the axis was given.
    pub fn code(&self) -> (code: u16)
        ensures
            code == axis_code(*self),
    {
        match self {
            AbsoluteAxis::Named(code) => *code,
            AbsoluteAxis::Other(code) => *code,
        }
    }
}

/// The code of the bus type that `name` stands for.
pub open spec fn bus_code(name: Seq<char>) -> Option<u16> {
    if name == "PCI"@ {
        Some(0x01u16)
    } else if name == "USB"@ {
        Some(0x03u16)
    } else if name == "HIL"@ {
        Some(0x04u16)
    } else if name == "Bluetooth"@ {
        Some(0x05u16)
    } else if name == "Virtual"@ {
        Some(0x06u16)
    } else if name == "ISA"@ {
        Some(0x10u16)
    } else if name == "Host"@ {
        Some(0x19u16)
    } else {
        None
    }
}

/// The code of the relative axis that `name` stands for.
pub open spec fn relative_axis_code(name: Seq<char>) -> Option<u16> {
    if name == "X"@ {
        Some(0u16)
    } else if name == "Y"@ {
        Some(1u16)
    } else if name == "Z"@ {
        Some(2u16)
    } else if name == "RX"@ {
        Some(3u16)
    } else if name == "RY"@ {
        Some(4u16)
    } else if name == "RZ"@ {
        Some(5u16)
    } else if name == "Wheel"@ {
        Some(8u16)
    } else if name == "WheelHiRes"@ {
        Some(11u16)
    } else {
        None
    }
}

/// The code of the absolute axis that `name` stands for.
pub open spec fn absolute_axis_code(name: Seq<char>) -> Option<u16> {
    if name == "X"@ {
        Some(0u16)
    } else if name == "Y"@ {
        Some(1u16)
    } else if name == "Z"@ {
        Some(2u16)
    } else if name == "RX"@ {
        Some(3u16)
    } else if name == "RY"@ {
        Some(4u16)
    } else if name == "RZ"@ {
        Some(5u16)
    } else if name == "Hat0X"@ {
        Some(16u16)
    } else if name == "Hat0Y"@ {
        Some(17u16)
    } else if name == "Hat1X"@ {
        Some(18u16)
    } else if name == "Hat1Y"@ {
        Some(19u16)
    } else if name == "Hat2X"@ {
        Some(20u16)
    } else if name == "Hat2Y"@ {
        Some(21u16)
    } else if name == "Misc"@ {
        Some(40u16)
    } else {
        None
    }
}

/// The code of the force-feedback effect that `name` stands for.
pub open spec fn force_feedback_code(name: Seq<char>) -> Option<u16> {
    if name == "Rumble"@ {
        Some(0x50u16)
    } else {
        None
    }
}

/// The code of the key that `name` stands for in `linux_input`'s table of
/// keys, `None` where the table does not hold the name.
pub uninterp spec fn key_code(name: Seq<char>) -> Option<u16>;

/// Looks a bus type up by name with `linux_input::Bus::try_from_str` and
/// takes the code of the variant found with `raw`. The table holds the seven
/// names that `bus_code` lists.
#[verifier::external_body]
fn bus_by_name(name: &str) -> (code: Option<u16>)
    ensures
        code == bus_code(name@),
{
    match linux_input::Bus::try_from_str(name) {
        Some(bus) => Some(bus.raw()),
        None => None,
    }
}

/// Looks a key up by name with `linux_input::Key::try_from_str` and takes the
/// code of the variant found with `raw`. The outcome depends on the name
/// alone; `key_code` stands for it.
#[verifier::external_body]
fn key_by_name(name: &str) -> (code: Option<u16>)
    ensures
        code == key_code(name@),
{
    match linux_input::Key::try_from_str(name) {
        Some(key) => Some(key.raw()),
        None => None,
    }
}

/// Looks a relative axis up by name with
/// `linux_input::RelativeAxis::try_from_str` and takes the code of the variant
/// found with `raw`. The table holds the eight names that
/// `relative_axis_code` lists.
#[verifier::external_body]
fn relative_axis_by_name(name: &str) -> (code: Option<u16>)
    ensures
        code == relative_axis_code(name@),
{
    match linux_input::RelativeAxis::try_from_str(name) {
        Some(axis) => Some(axis.raw()),
        None => None,
    }
}

/// Looks an absolute axis up by name with
/// `linux_input::AbsoluteAxis::try_from_str` and takes the code of the variant
/// found with `raw`. The table holds the thirteen names that
/// `absolute_axis_code` lists.
#[verifier::external_body]
fn absolute_axis_by_name(name: &str) -> (code: Option<u16>)
    ensures
        code == absolute_axis_code(name@),
{
    match linux_input::AbsoluteAxis::try_from_str(name) {
        Some(axis) => Some(axis.raw()),
        None => None,
    }
}

/// Looks a force-feedback effect up by name with
/// `linux_input::ForceFeedback::try_from_str` and takes the code of the
/// variant found with `raw`. The table holds the one name that
/// `force_feedback_code` lists.
#[verifier::external_body]
fn force_feedback_by_name(name: &str) -> (code: Option<u16>)
    ensures
        code == force_feedback_code(name@),
{
    match linux_input::ForceFeedback::try_from_str(name) {
        Some(effect) => Some(effect.raw()),
        None => None,
    }
}

/// The number that an integer of the document gives as a bare code: the
/// integer itself where it lies in `0 ..= 0xFFFF`.
pub open spec fn bare_code(number: i64) -> Option<u16> {
    if 0 <= number <= 0xFFFF {
        Some(number as u16)
    } else {
        None
    }
}

/// Narrows an integer of the document to a bare code.
pub fn narrow_code(number: i64) -> (code: Option<u16>)
    ensures
        code == bare_code(number),
{
    if number >= 0 && number <= 0xFFFF {
        Some(number as u16)
    } else {
        None
    }
}

/// The bus type that a node gives: by name where it is a string, as a bare
/// code where it is an integer.
pub open spec fn bus_of(value: Node) -> Option<Bus> {
    match value {
        Node::String(name) => match bus_code(name@) {
            Some(code) => Some(Bus::Named(code)),
            None => None,
        },
        Node::Integer(number) => match bare_code(number) {
            Some(code) => Some(Bus::Other(code)),
            None => None,
        },
        _ => None,
    }
}

/// The key that a node gives: by name where it is a string, as a bare code
/// where it is an integer.
pub open spec fn key_of(value: Node) -> Option<Key> {
    match value {
        Node::String(name) => match key_code(name@) {
            Some(code) => Some(Key::Named(code)),
            None => None,
        },
        Node::Integer(number) => match bare_code(number) {
            Some(code) => Some(Key::Other(code)),
            None => None,
        },
        _ => None,
    }
}

/// The relative axis that a node gives: by name where it is a string, as a
/// bare code where it is an integer.
pub open spec fn relative_axis_of(value: Node) -> Option<RelativeAxis> {
    match value {
        Node::String(name) => match relative_axis_code(name@) {
            Some(code) => Some(RelativeAxis::Named(code)),
            None => None,
        },
        Node::Integer(number) => match bare_code(number) {
            Some(code) => Some(RelativeAxis::Other(code)),
            None => None,
        },
        _ => None,
    }
}

/// The force-feedback effect that a node gives: by name where it is a string,
/// as a bare code where it is an integer.
pub open spec fn force_feedback_of(value: Node) -> Option<ForceFeedback> {
    match value {
        Node::String(name) => match force_feedback_code(name@) {
            Some(code) => Some(ForceFeedback::Named(code)),
            None => None,
        },
        Node::Integer(number) => match bare_code(number) {
            Some(code) => Some(ForceFeedback::Other(code)),
            None => None,
        },
        _ => None,
    }
}

/// `name` begins with the two characters `0x`.
pub open spec fn has_hex_prefix(name: Seq<char>) -> bool {
    name.len() >= 2 && name[0] == '0' && name[1] == 'x'
}

/// The number that follows a hexadecimal prefix: hexadecimal digits in
/// either case and nothing else, so no sign.
pub open spec fn hex_number(rest: Seq<char>) -> Option<u16> {
    number_u16(rest, 16)
}

/// The absolute axis that the key of a table gives. Three readings are tried
/// in turn: a symbolic name; a number in decimal digits; a number in
/// hexadecimal digits behind `0x`. A key made of decimal digits whose number
/// exceeds `0xFFFF` is no axis.
pub open spec fn absolute_axis_of(name: Seq<char>) -> Option<AbsoluteAxis> {
    match absolute_axis_code(name) {
        Some(code) => Some(AbsoluteAxis::Named(code)),
        None => {
            let number = if name.len() > 0 && all_digits(name, 10) {
                number_u16(name, 10)
            } else if has_hex_prefix(name) {
                hex_number(name.skip(2))
            } else {
                None
            };
            match number {
                Some(code) => Some(AbsoluteAxis::Other(code)),
                None => None,
            }
        },
    }
}

/// Resolves a bus type given as a name or as a bare code.
pub fn try_into_bus_value(value: &Node) -> (bus: Option<Bus>)
    ensures
        bus == bus_of(*value),
{
    match value {
        Node::String(name) => match bus_by_name(name.as_str()) {
            Some(code) => Some(Bus::Named(code)),
            None => None,
        },
        Node::Integer(number) => match narrow_code(*number) {
            Some(code) => Some(Bus::Other(code)),
            None => None,
        },
        _ => None,
    }
}

/// Resolves a key given as a name or as a bare code.
pub fn try_into_key_value(value: &Node) -> (key: Option<Key>)
    ensures
        key == key_of(*value),
{
    match value {
        Node::String(name) => match key_by_name(name.as_str()) {
            Some(code) => Some(Key::Named(code)),
            None => None,
        },
        Node::Integer(number) => match narrow_code(*number) {
            Some(code) => Some(Key::Other(code)),
            None => None,
        },
        _ => None,
    }
}

/// Resolves a relative axis given as a name or as a bare code.
pub fn try_into_rel_value(value: &Node) -> (axis: Option<RelativeAxis>)
    ensures
        axis == relative_axis_of(*value),
{
    match value {
        Node::String(name) => match relative_axis_by_name(name.as_str()) {
            Some(code) => Some(RelativeAxis::Named(code)),
            None => None,
        },
        Node::Integer(number) => match narrow_code(*number) {
            Some(code) => Some(RelativeAxis::Other(code)),
            None => None,
        },
        _ => None,
    }
}

/// Resolves a force-feedback effect given as a name or as a bare code.
pub fn try_into_ff_value(value: &Node) -> (effect: Option<ForceFeedback>)
    ensures
        effect == force_feedback_of(*value),
{
    match value {
        Node::String(name) => match force_feedback_by_name(name.as_str()) {
            Some(code) => Some(ForceFeedback::Named(code)),
            None => None,
        },
        Node::Integer(number) => match narrow_code(*number) {
            Some(code) => Some(ForceFeedback::Other(code)),
            None => None,
        },
        _ => None,
    }
}

/// Resolves an absolute axis given as the key of a table.
pub fn try_into_abs_s(string: &str) -> (axis: Option<AbsoluteAxis>)
    ensures
        axis == absolute_axis_of(string@),
{
    if let Some(code) = absolute_axis_by_name(string) {
        return Some(AbsoluteAxis::Named(code));
    }
    let len = string.unicode_len();
    let prefixed = len >= 2 && string.get_char(0) == '0' && string.get_char(1) == 'x';
    let number = if prefixed {
        proof {
            assert(!crate::text::is_digit(string@[1], 10));
        }
        parse_number(string, 2, 16)
    } else {
        proof {
            assert(string@.skip(0) =~= string@);
        }
        parse_number(string, 0, 10)
    };
    match number {
        Some(code) => Some(AbsoluteAxis::Other(code)),
        None => None,
    }
}

} // verus!
