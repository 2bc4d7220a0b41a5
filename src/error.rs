//! Why a citation could not be parsed.
use vstd::prelude::*;

verus! {

/// The ways a citation can fail to parse.
#[derive(Debug, Clone, Copy, PartialEq, Eq, Structural)]
pub enum ParseError {
    /// The cleaned citation holds no space, so no book name can be split off.
    NoSpaceFound,
    /// The text before the last space is empty once trimmed.
    EmptyBookName,
    /// No colon, and the text before the last space is no single-chapter book.
    NoColonFound,
    /// Neither a colon nor a space.
    NoColonOrSpace,
    /// A hyphenated locator whose sides do not parse, or whose end precedes its start.
    InvalidRange,
    /// A locator without a hyphen that does not start with a digit.
    InvalidVerse,
}

} // verus!
