//! The decoded input form: a nested, named-field document tree.
//!
//! Upstream build tooling hands the decoder a loosely shaped tree of named
//! fields, lowercase and unprefixed. The strict decoder walks this tree and
//! either produces the typed model or rejects the document.

use vstd::prelude::*;

verus! {

/// One node of the input document tree.
#[derive(Debug)]
pub enum Value {
    /// A text scalar.
    Str(String),
    /// An unsigned integer scalar.
    UInt(u32),
    /// A container of named fields, in document order.
    Record(Vec<Field>),
    /// An ordered sequence of values.
    List(Vec<Value>),
}

/// A named field of a [`Value::Record`].
#[derive(Debug)]
pub struct Field {
    pub name: String,
    pub value: Value,
}

impl Field {
    /// Builds a named field.
    pub fn new(name: &str, value: Value) -> (r: Field)
        ensures
            r.name@ == name@,
            r.value == value,
    {
        Field { name: String::from_str(name), value }
    }
}

impl Value {
    /// Builds a text scalar from a string slice.
    pub fn text(s: &str) -> (r: Value)
        ensures
            r matches Value::Str(t) && t@ == s@,
    {
        Value::Str(String::from_str(s))
    }
}

} // verus!
