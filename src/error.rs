use vstd::prelude::*;

verus! {

/// Why an evaluation was abandoned.
#[derive(Clone, Debug, PartialEq)]
pub enum EvalError {
    /// An operator found fewer values on the stack than its arity.
    InsufficientOperands,
    /// The exponent of `^`, truncated to an unsigned integer, was below 2.
    UnsupportedExponent,
    /// A glyph was neither an operator nor a numeric literal.
    InvalidGlyph(String),
    /// Every glyph was consumed and the stack was left empty.
    EmptyInput,
}

} // verus!
