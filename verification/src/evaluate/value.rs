//! Runtime values.

use vstd::prelude::*;

verus! {

/// What an expression evaluates to.
///
/// A number is held by the bits of its 64-bit binary representation. The
/// derived `==` compares those bits; the equality of the language is
/// [`crate::evaluate::eval::same`].
#[derive(Debug, PartialEq, Eq)]
pub enum Value {
    Number(u64),
    String(String),
    Bool(bool),
    Nil,
}

/// What a [`Value`] holds, as mathematical values.
pub enum ValueModel {
    Number(u64),
    String(Seq<char>),
    Bool(bool),
    Nil,
}

impl View for Value {
    type V = ValueModel;

    open spec fn view(&self) -> ValueModel {
        match self {
            Value::Number(bits) => ValueModel::Number(*bits),
            Value::String(text) => ValueModel::String(text@),
            Value::Bool(truth) => ValueModel::Bool(*truth),
            Value::Nil => ValueModel::Nil,
        }
    }
}

/// The runtime types.
#[derive(Debug, PartialEq, Eq, Clone, Copy, Structural)]
pub enum Kind {
    Number,
    String,
    Bool,
    Nil,
}

impl ValueModel {
    /// The runtime type of a value.
    pub open spec fn kind(self) -> Kind {
        match self {
            ValueModel::Number(_) => Kind::Number,
            ValueModel::String(_) => Kind::String,
            ValueModel::Bool(_) => Kind::Bool,
            ValueModel::Nil => Kind::Nil,
        }
    }
}

impl Value {
    /// Returns the runtime type of the value.
    pub fn kind(&self) -> (kind: Kind)
        ensures
            kind == self@.kind(),
    {
        match self {
            Value::Number(_) => Kind::Number,
            Value::String(_) => Kind::String,
            Value::Bool(_) => Kind::Bool,
            Value::Nil => Kind::Nil,
        }
    }
}

} // verus!
