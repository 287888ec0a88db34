//! The errors that the library returns.

use vstd::prelude::*;

verus! {

/// What can go wrong while a file is dispatched, scanned or sliced.
#[derive(Clone, Debug, PartialEq)]
pub enum SourcelinkError {
    /// The scan ended inside a string, a line comment or a block comment.
    ParseError,
    /// No language is known for the extension of this file name.
    UnknownLanguage(String),
    /// A value (first field) lies outside the range given by the other two.
    OutOfRange(usize, usize, usize),
    /// The content ended where more was expected.
    UnexpectedEOF,
    /// A character range reaches past the end of the text.
    SubstrRange,
}

impl Default for SourcelinkError {
    fn default() -> (r: Self)
        ensures
            r == SourcelinkError::ParseError,
    {
        SourcelinkError::ParseError
    }
}

} // verus!
