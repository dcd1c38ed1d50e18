//! Why a line was not read.

use vstd::prelude::*;

verus! {

/// The ways in which a line can fail to be an entity. Fields are counted
/// from zero, starting after the leading token.
#[derive(Debug, Clone, Copy, PartialEq, Eq)]
pub enum ParseError {
    /// The line holds no token at all.
    EmptyLine,
    /// The leading token names no entity.
    UnknownEntity,
    /// The entity does not take as many fields as the line holds.
    WrongArity { found: usize },
    /// The field is not a numeric literal.
    MalformedNumber { field: usize },
    /// The field is not made of 64-bit integers in decimal notation.
    MalformedInteger { field: usize },
    /// The integer is not the code of an illumination model.
    UnknownIllumMode { code: i64 },
}

} // verus!
