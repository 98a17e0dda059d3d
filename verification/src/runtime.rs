//! Tags for the runtime value model that the compiled code will eventually
//! operate on; the builder's constant folding relies on which tags count as
//! truthy.

use vstd::prelude::*;

verus! {

/// The dynamic type of a runtime value.
#[derive(Clone, Copy, Debug, PartialEq, Eq, Structural, Hash)]
pub enum Type {
    False,
    Nil,
    True,
    Float,
    Int,
    LightUserdata,
    FullUserdata,
    Function,
    String,
    Table,
    Thread,
}

impl Type {
    /// Every value is truthy but `false` and `nil`.
    pub fn is_truthy(self) -> (r: bool)
        ensures
            r == !(self == Type::False || self == Type::Nil),
    {
        match self {
            Type::False | Type::Nil => false,
            _ => true,
        }
    }

    /// Does a value of this type carry no payload at all?
    pub fn is_empty(self) -> (r: bool)
        ensures
            r == (self == Type::False || self == Type::Nil || self == Type::True),
    {
        match self {
            Type::False | Type::Nil | Type::True => true,
            _ => false,
        }
    }

    /// Does a value of this type point at a heap object?
    pub fn is_object(self) -> (r: bool)
        ensures
            r == (self == Type::FullUserdata || self == Type::Function || self == Type::String
                || self == Type::Table || self == Type::Thread),
    {
        match self {
            Type::FullUserdata | Type::Function | Type::String | Type::Table | Type::Thread => true,
            _ => false,
        }
    }
}

} // verus!
