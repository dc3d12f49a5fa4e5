//! The ways a parse can fail.

use vstd::prelude::*;

verus! {

/// A parse failure. Each variant carries the offending input text, so the
/// caller can report what was rejected. Errors are never recovered internally:
/// the first failure of a multi-step parse is returned to the caller unchanged.
#[derive(Debug)]
pub enum ParseError {
    /// The value token at the front of the carried text could not be decoded.
    UnrecognizedCardValue(String),
    /// The suit token at the front of the carried text could not be decoded.
    UnrecognizedSuit(String),
}

/// The mathematical view of a [`ParseError`]: the same two kinds, with the
/// offending text as a sequence of characters.
pub enum SpecError {
    UnrecognizedCardValue(Seq<char>),
    UnrecognizedSuit(Seq<char>),
}

impl View for ParseError {
    type V = SpecError;

    open spec fn view(&self) -> SpecError {
        match self {
            ParseError::UnrecognizedCardValue(t) => SpecError::UnrecognizedCardValue(t@),
            ParseError::UnrecognizedSuit(t) => SpecError::UnrecognizedSuit(t@),
        }
    }
}

} // verus!
