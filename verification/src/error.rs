//! The tool's error taxonomy. Every failure is terminal: the driver prints
//! the carried message and the process exits with code 1.

use vstd::prelude::*;

verus! {

/// One variant per failure class; each carries the single descriptive line
/// that is printed for it.
#[derive(Debug, Clone)]
pub enum PotdError {
    /// The seed's length or character set is outside the generation
    /// library's contract.
    InvalidSeed(String),
    /// A date string is malformed or its components are out of range.
    InvalidDate(String),
    /// A range's start lies after its end, or an endpoint is invalid.
    InvalidRange(String),
    /// The display pattern could not be applied to a date.
    DateFormat(String),
    /// An opaque failure surfaced verbatim from the generation library.
    Generation(String),
    /// A report could not be rendered in the requested representation.
    Serialization(String),
    /// The destination file could not be opened or created.
    Sink(String),
}

impl PotdError {
    /// The single descriptive line carried by this error.
    pub open spec fn text(&self) -> Seq<char> {
        match self {
            PotdError::InvalidSeed(m) => m@,
            PotdError::InvalidDate(m) => m@,
            PotdError::InvalidRange(m) => m@,
            PotdError::DateFormat(m) => m@,
            PotdError::Generation(m) => m@,
            PotdError::Serialization(m) => m@,
            PotdError::Sink(m) => m@,
        }
    }

    pub fn message(&self) -> (r: String)
        ensures
            r@ == self.text(),
    {
        match self {
            PotdError::InvalidSeed(m) => m.clone(),
            PotdError::InvalidDate(m) => m.clone(),
            PotdError::InvalidRange(m) => m.clone(),
            PotdError::DateFormat(m) => m.clone(),
            PotdError::Generation(m) => m.clone(),
            PotdError::Serialization(m) => m.clone(),
            PotdError::Sink(m) => m.clone(),
        }
    }
}

} // verus!
