//! The classified failures of token extraction and year resolution.

use vstd::prelude::*;

verus! {

/// Why no date token could be taken from a file stem.
#[derive(Clone, Copy, Debug, PartialEq, Eq, Structural)]
pub enum ExtractError {
    /// The stem holds no segment with at least one character in it.
    NoToken,
}

/// Why a date token names no financial year.
#[derive(Clone, Copy, Debug, PartialEq, Eq, Structural)]
pub enum ResolveError {
    /// The token's length is that of none of the known encodings.
    UnrecognizedFormat,
    /// A six-character token is not a year followed by `FY`.
    InvalidFormat,
    /// The year field after a month code is not a number.
    InvalidYear,
    /// The day field of a full date is not a number.
    InvalidDay,
    /// The month field is none of the twelve month codes.
    UnknownMonth,
}

/// Why a file stem could not be classified.
#[derive(Clone, Copy, Debug, PartialEq, Eq, Structural)]
pub enum ClassifyError {
    /// No token could be taken from the stem.
    Extract(ExtractError),
    /// The token taken from the stem names no financial year.
    Resolve(ResolveError),
}

} // verus!
