//! Byte encoding of data variables: how a variable of the data section is
//! laid into the engine's flat memory. Text values are encoded as their raw
//! character bytes, with no implicit terminator appended.
use vstd::prelude::*;

use crate::ast::{Value, ValueView, Variable, VariableView};

verus! {

/// The bytes a data variable occupies in memory: the UTF-8 encoding of its
/// text payload.
pub open spec fn variable_bytes(v: VariableView) -> Seq<u8> {
    match v.value {
        ValueView::String(s) => vstd::utf8::encode_utf8(s),
    }
}

/// Anything that can be laid into the engine's memory as a run of bytes.
pub trait Memory: DeepView<V = VariableView> {
    /// How many bytes the value occupies.
    fn size(&self) -> (n: usize)
        ensures
            n == variable_bytes(self.deep_view()).len(),
    ;

    /// The encoded bytes, in memory order.
    fn to_bytes(&self) -> (b: Vec<u8>)
        ensures
            b@ == variable_bytes(self.deep_view()),
    ;
}

impl Memory for Variable {
    fn size(&self) -> (n: usize) {
        match self.type_ {
            crate::ast::Type::Asciiz => {
                match &self.value {
                    Value::String(s) => s.as_str().as_bytes().len(),
                }
            },
        }
    }

    fn to_bytes(&self) -> (b: Vec<u8>) {
        match &self.value {
            Value::String(s) => s.as_str().as_bytes_vec(),
        }
    }
}

} // verus!
