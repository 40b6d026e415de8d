//! The untyped document that a configuration is read from, the reader that
//! makes one out of text, and the accessors that take a typed value out of a
//! node or say why they cannot.

use vstd::prelude::*;
use crate::error::{ConfigError, ErrorKind, Failure};

verus! {

/// One node of an untyped document.
///
/// A table keeps its entries in the order in which the document's reader
/// walks them; an array keeps its items in the order of the text. A float and
/// a date keep no value: no field of a configuration takes one.
#[derive(Debug)]
pub enum Node {
    String(String),
    Integer(i64),
    Float,
    Boolean(bool),
    Datetime,
    Array(Vec<Node>),
    Table(Vec<(String, Node)>),
}

/// A value of the `toml` crate: what its reader makes of a text.
#[verifier::external_type_specification]
#[verifier::external_body]
pub struct ExTomlValue(toml::Value);

/// What the `toml` crate reads out of a text: the document's root, or the
/// message of the error that it reports.
pub uninterp spec fn toml_document(text: Seq<char>) -> Result<Node, Seq<char>>;

/// The node that a value of the `toml` crate holds.
pub uninterp spec fn toml_node(value: toml::Value) -> Node;

/// Reads a text with `toml::Value`'s `from_str`, and takes the text of the
/// error with `to_string` where it fails. The outcome depends on the text
/// alone; `toml_document` stands for it.
#[verifier::external_body]
pub(crate) fn parse_toml(text: &str) -> (parsed: Result<toml::Value, String>)
    ensures
        match parsed {
            Ok(value) => toml_document(text@) == Ok::<Node, Seq<char>>(toml_node(value)),
            Err(message) => toml_document(text@) == Err::<Node, Seq<char>>(message@),
        },
{
    match text.parse::<toml::Value>() {
        Ok(value) => Ok(value),
        Err(error) => Err(error.to_string()),
    }
}

/// Rewrites a `toml::Value` as a `Node`, variant by variant: a table's
/// entries in the order of `toml::value::Table::iter`, an array's items in
/// their own order. A float and a date leave their value behind.
#[verifier::external_body]
pub(crate) fn node_of_toml(value: &toml::Value) -> (node: Node)
    ensures
        node == toml_node(*value),
{
    match value {
        toml::Value::String(text) => Node::String(text.clone()),
        toml::Value::Integer(number) => Node::Integer(*number),
        toml::Value::Float(_) => Node::Float,
        toml::Value::Boolean(flag) => Node::Boolean(*flag),
        toml::Value::Datetime(_) => Node::Datetime,
        toml::Value::Array(items) => Node::Array(items.iter().map(node_of_toml).collect()),
        toml::Value::Table(table) => Node::Table(
            table.iter().map(|(key, item)| (key.clone(), node_of_toml(item))).collect(),
        ),
    }
}

/// The string that a node holds.
pub open spec fn text_of(node: Node) -> Result<Seq<char>, Failure> {
    match node {
        Node::String(text) => Ok(text@),
        _ => Err(Failure::here(ErrorKind::NotAString)),
    }
}

/// The integer that a node holds.
pub open spec fn integer_of(node: Node) -> Result<i64, Failure> {
    match node {
        Node::Integer(number) => Ok(number),
        _ => Err(Failure::here(ErrorKind::NotAnInteger)),
    }
}

/// The integer that a node holds, where it fits 16 bits without a sign.
pub open spec fn u16_of(node: Node) -> Result<u16, Failure> {
    match node {
        Node::Integer(number) => if 0 <= number <= u16::MAX {
            Ok(number as u16)
        } else {
            Err(Failure::here(ErrorKind::OutOfRange))
        },
        _ => Err(Failure::here(ErrorKind::NotAnInteger)),
    }
}

/// The integer that a node holds, where it fits 32 bits with a sign.
pub open spec fn i32_of(node: Node) -> Result<i32, Failure> {
    match node {
        Node::Integer(number) => if i32::MIN <= number <= i32::MAX {
            Ok(number as i32)
        } else {
            Err(Failure::here(ErrorKind::OutOfRange))
        },
        _ => Err(Failure::here(ErrorKind::NotAnInteger)),
    }
}

/// The boolean that a node holds.
pub open spec fn flag_of(node: Node) -> Result<bool, Failure> {
    match node {
        Node::Boolean(flag) => Ok(flag),
        _ => Err(Failure::here(ErrorKind::NotABoolean)),
    }
}

/// The items of the array that a node is.
pub open spec fn items_of(node: Node) -> Result<Seq<Node>, Failure> {
    match node {
        Node::Array(items) => Ok(items@),
        _ => Err(Failure::here(ErrorKind::NotAnArray)),
    }
}

/// The entries of the table that a node is.
pub open spec fn entries_of(node: Node) -> Result<Seq<(String, Node)>, Failure> {
    match node {
        Node::Table(entries) => Ok(entries@),
        _ => Err(Failure::here(ErrorKind::NotATable)),
    }
}

impl Node {
    /// The string that the node holds, or `NotAString`.
    pub fn expect_str(&self) -> (found: Result<&String, ConfigError>)
        ensures
            match found {
                Ok(text) => text_of(*self) == Ok::<Seq<char>, Failure>(text@),
                Err(error) => text_of(*self) == Err::<Seq<char>, Failure>(error@),
            },
    {
        match self {
            Node::String(text) => Ok(text),
            _ => Err(ConfigError::here(ErrorKind::NotAString)),
        }
    }

    /// The integer that the node holds, or `NotAnInteger`.
    pub fn expect_integer(&self) -> (found: Result<i64, ConfigError>)
        ensures
            match found {
                Ok(number) => integer_of(*self) == Ok::<i64, Failure>(number),
                Err(error) => integer_of(*self) == Err::<i64, Failure>(error@),
            },
    {
        match self {
            Node::Integer(number) => Ok(*number),
            _ => Err(ConfigError::here(ErrorKind::NotAnInteger)),
        }
    }

    /// The integer that the node holds, narrowed to 16 bits without a sign:
    /// `NotAnInteger` where it holds none, `OutOfRange` where the integer
    /// does not fit.
    pub fn expect_u16(&self) -> (found: Result<u16, ConfigError>)
        ensures
            match found {
                Ok(number) => u16_of(*self) == Ok::<u16, Failure>(number),
                Err(error) => u16_of(*self) == Err::<u16, Failure>(error@),
            },
    {
        match self {
            Node::Integer(number) => if 0 <= *number && *number <= 0xFFFF {
                Ok(*number as u16)
            } else {
                Err(ConfigError::here(ErrorKind::OutOfRange))
            },
            _ => Err(ConfigError::here(ErrorKind::NotAnInteger)),
        }
    }

    /// The integer that the node holds, narrowed to 32 bits with a sign:
    /// `NotAnInteger` where it holds none, `OutOfRange` where the integer
    /// does not fit.
    pub fn expect_i32(&self) -> (found: Result<i32, ConfigError>)
        ensures
            match found {
                Ok(number) => i32_of(*self) == Ok::<i32, Failure>(number),
                Err(error) => i32_of(*self) == Err::<i32, Failure>(error@),
            },
    {
        match self {
            Node::Integer(number) => if -0x8000_0000 <= *number && *number <= 0x7FFF_FFFF {
                Ok(*number as i32)
            } else {
                Err(ConfigError::here(ErrorKind::OutOfRange))
            },
            _ => Err(ConfigError::here(ErrorKind::NotAnInteger)),
        }
    }

    /// The boolean that the node holds, or `NotABoolean`.
    pub fn expect_bool(&self) -> (found: Result<bool, ConfigError>)
        ensures
            match found {
                Ok(flag) => flag_of(*self) == Ok::<bool, Failure>(flag),
                Err(error) => flag_of(*self) == Err::<bool, Failure>(error@),
            },
    {
        match self {
            Node::Boolean(flag) => Ok(*flag),
            _ => Err(ConfigError::here(ErrorKind::NotABoolean)),
        }
    }

    /// The items of the array that the node is, or `NotAnArray`.
    pub fn expect_array(&self) -> (found: Result<&Vec<Node>, ConfigError>)
        ensures
            match found {
                Ok(items) => items_of(*self) == Ok::<Seq<Node>, Failure>(items@),
                Err(error) => items_of(*self) == Err::<Seq<Node>, Failure>(error@),
            },
    {
        match self {
            Node::Array(items) => Ok(items),
            _ => Err(ConfigError::here(ErrorKind::NotAnArray)),
        }
    }

    /// The entries of the table that the node is, or `NotATable`.
    pub fn expect_table(&self) -> (found: Result<&Vec<(String, Node)>, ConfigError>)
        ensures
            match found {
                Ok(entries) => entries_of(*self) == Ok::<Seq<(String, Node)>, Failure>(entries@),
                Err(error) => entries_of(*self) == Err::<Seq<(String, Node)>, Failure>(error@),
            },
    {
        match self {
            Node::Table(entries) => Ok(entries),
            _ => Err(ConfigError::here(ErrorKind::NotATable)),
        }
    }
}

} // verus!
