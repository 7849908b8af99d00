//! Errors of the parser.

use vstd::prelude::*;

verus! {

/// A token in a primitive slot that is not a primitive keyword.
#[derive(Debug)]
pub struct InvalidPrimitiveType(pub String);

/// A token in a vector-dimension slot that is not `2`, `3` or `4`.
#[derive(Debug)]
pub struct InvalidVectorDimension(pub String);

/// Where the module text stopped matching the grammar.
#[derive(Debug, Clone, Copy, PartialEq, Eq, Structural)]
pub struct SyntaxError {
    /// The character offset.
    pub position: usize,
    /// The line, from 1.
    pub line: usize,
    /// The column, from 1.
    pub column: usize,
}

/// Why parsing failed.
#[derive(Debug)]
pub enum ParsingError {
    /// An invalid primitive keyword.
    InvalidPrimitiveType(InvalidPrimitiveType),
    /// An invalid vector dimension.
    InvalidVectorDimension(InvalidVectorDimension),
    /// The module text does not match the grammar.
    InputParsingError(SyntaxError),
}

} // verus!
