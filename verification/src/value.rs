use vstd::prelude::*;

verus! {

/// The result of evaluating a node: a closed sum of a 32-bit IEEE-754
/// number, a boolean, or nil. Values are immutable and copied by value.
///
/// The numeric payload is carried as the bit pattern of a binary32 value.
/// The core never performs floating-point arithmetic itself; producing and
/// combining number bits is left to the embedding program, which owns the
/// numeric backend.
#[derive(Debug, Clone, Copy, PartialEq, Eq, Structural)]
pub enum Value {
    /// A number, stored as the bit pattern of an IEEE-754 binary32 value.
    Number(u32),
    /// A boolean.
    Bool(bool),
    /// The absent value.
    Nil,
}

impl Value {
    /// Whether this value is a number.
    pub open spec fn spec_is_number(&self) -> bool {
        matches!(*self, Value::Number(_))
    }

    /// Whether this value is a number.
    pub fn is_number(&self) -> (b: bool)
        ensures
            b == self.spec_is_number(),
    {
        matches!(*self, Value::Number(_))
    }
}

} // verus!
