use vstd::prelude::*;

verus! {

/// A fatal decoding failure. Any of these aborts the whole module
/// conversion: they indicate a decoder/foreign-library version mismatch
/// or a structurally inconsistent foreign module, not a recoverable data
/// condition. There is no partial result.
#[derive(PartialEq, Eq, Structural, Clone, Copy, Debug)]
pub enum DecodeError {
    /// The catalog build queried the foreign name table for an attribute
    /// name it did not recognize.
    AttributeKindNotFound,
    /// An instruction carries an opcode with no decode rule.
    UnknownOpcode { opcode: u32 },
    /// An instruction's operand count is outside the bounds its decode
    /// rule expects.
    WrongOperandCount { found: usize },
    /// An operand refers to a local value absent from the first-pass
    /// name map.
    LocalNotFound,
    /// An operand or successor refers to a basic block absent from the
    /// first-pass name map.
    BlockNotFound,
    /// An instruction that must carry call-site information does not.
    MissingCallInfo,
    /// An operand slot that must hold a constant holds something else.
    ConstantExpected,
}

} // verus!
