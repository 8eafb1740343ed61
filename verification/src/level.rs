//! What a level file says of one entity, as far as the simulation reads it.

use vstd::prelude::*;

verus! {

/// The value of a field of an entity. Numbers are fixed-point (thousandths).
#[derive(Clone, Debug)]
pub enum FieldValue {
    /// A number, if one was entered.
    Float(Option<i32>),
    /// A text, if one was entered.
    String(Option<String>),
    /// A value of any other kind.
    Other,
}

/// A field of an entity: its name and its value.
#[derive(Clone, Debug)]
pub struct FieldInstance {
    pub identifier: String,
    pub value: FieldValue,
}

/// An entity of a level: the name of its kind, and its fields in the order
/// of the level file.
#[derive(Clone, Debug)]
pub struct EntityInstance {
    pub identifier: String,
    pub field_instances: Vec<FieldInstance>,
}

impl FieldValue {
    /// The number that the value holds, if it holds one.
    pub open spec fn number(self) -> Option<i32> {
        match self {
            FieldValue::Float(Some(number)) => Some(number),
            _ => None,
        }
    }

    /// The text that the value holds, if it holds one.
    pub open spec fn text(self) -> Option<Seq<char>> {
        match self {
            FieldValue::String(Some(text)) => Some(text@),
            _ => None,
        }
    }
}

} // verus!
