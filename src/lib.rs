//! Evaluation of arithmetic written in Reverse Polish Notation.
//!
//! The evaluator is generic over the value type: the host numeric type
//! supplies literal parsing and the arithmetic primitives as closures, while
//! the stack discipline, glyph classification, exponent rule and error
//! taxonomy are defined and proved here.
pub mod error;
pub mod evaluator;
pub mod glyph;
pub mod laws;
pub mod machine;

pub use error::EvalError;
pub use evaluator::{evaluate, Evaluation};
pub use glyph::{classify, Glyph, Op};
pub use machine::{binop, power, unop};
