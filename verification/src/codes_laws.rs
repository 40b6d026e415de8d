//! What holds of the identifiers: a bare number in range is always taken as
//! it is, and a key that is no name and no number is no absolute axis.

use vstd::prelude::*;
use crate::codes::{
    AbsoluteAxis, Bus, ForceFeedback, Key, RelativeAxis, absolute_axis_code, absolute_axis_of,
    bus_of, force_feedback_of, has_hex_prefix, hex_number, key_of, relative_axis_of,
};
use crate::document::Node;
use crate::text::{all_digits, number_u16};

verus! {

/// An integer from `0` to `0xFFFF` is a bare code of exactly that value,
/// for a bus type, a key, a relative axis and a force-feedback effect
/// alike; any other integer is none of them.
pub proof fn lemma_integer_is_bare_code(number: i64)
    ensures
        0 <= number <= 0xFFFF ==> {
            &&& bus_of(Node::Integer(number)) == Some(Bus::Other(number as u16))
            &&& key_of(Node::Integer(number)) == Some(Key::Other(number as u16))
            &&& relative_axis_of(Node::Integer(number)) == Some(RelativeAxis::Other(number as u16))
            &&& force_feedback_of(Node::Integer(number)) == Some(
                ForceFeedback::Other(number as u16),
            )
        },
        !(0 <= number <= 0xFFFF) ==> {
            &&& bus_of(Node::Integer(number)) is None
            &&& key_of(Node::Integer(number)) is None
            &&& relative_axis_of(Node::Integer(number)) is None
            &&& force_feedback_of(Node::Integer(number)) is None
        },
{
}

/// A string is never taken as a bare code: what is no name of the table is
/// nothing, whatever digits it holds.
pub proof fn lemma_string_is_name_or_nothing(node: Node)
    requires
        node is String,
    ensures
        bus_of(node) matches Some(bus) ==> bus is Named,
        key_of(node) matches Some(key) ==> key is Named,
        relative_axis_of(node) matches Some(axis) ==> axis is Named,
        force_feedback_of(node) matches Some(effect) ==> effect is Named,
{
}

/// A key that is no name of an absolute axis, is not made of decimal
/// digits alone and does not begin with `0x` is no absolute axis.
pub proof fn lemma_unknown_axis_name(name: Seq<char>)
    requires
        absolute_axis_code(name) is None,
        name.len() == 0 || !all_digits(name, 10),
        !has_hex_prefix(name),
    ensures
        absolute_axis_of(name) is None,
{
}

/// A key that is no name of an absolute axis is the axis of the number
/// that it writes: in decimal digits, or in hexadecimal digits behind `0x`.
pub proof fn lemma_numeric_axis_name(name: Seq<char>)
    requires
        absolute_axis_code(name) is None,
    ensures
        number_u16(name, 10) matches Some(code) ==> absolute_axis_of(name) == Some(
            AbsoluteAxis::Other(code),
        ),
        has_hex_prefix(name) ==> (hex_number(name.skip(2)) matches Some(code)
            ==> absolute_axis_of(name) == Some(AbsoluteAxis::Other(code))),
{
    if has_hex_prefix(name) {
        assert(!crate::text::is_digit(name[1], 10));
    }
}

/// Behind `0x` nothing but hexadecimal digits is taken: a key that has a
/// sign, a blank or any other character there is no absolute axis.
pub proof fn lemma_hex_digits_only(name: Seq<char>, at: int)
    requires
        absolute_axis_code(name) is None,
        has_hex_prefix(name),
        2 <= at < name.len(),
        !crate::text::is_digit(name[at], 16),
    ensures
        absolute_axis_of(name) is None,
{
    assert(!crate::text::is_digit(name[1], 10));
    assert(name.skip(2)[at - 2] == name[at]);
}

} // verus!
