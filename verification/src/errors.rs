//! Errors of the retrieval scheme.
use crate::numbers::{decimal_string, decimal_text};
use vstd::prelude::*;

verus! {

/// An input whose size does not fit the operation it was handed to.
#[derive(Debug)]
pub struct ErrorUnexpectedInputSize {
    details: String,
}

impl ErrorUnexpectedInputSize {
    /// The text that says which sizes were met.
    pub closed spec fn details(&self) -> Seq<char> {
        self.details@
    }

    /// The error with the text that says which sizes were met.
    pub fn new(details: String) -> (e: Self)
        ensures
            e.details() == details@,
    {
        Self { details }
    }

    /// The message of this error: a fixed heading, then the details.
    pub fn message(&self) -> (text: String)
        ensures
            text@ == "Unexpected input size error: "@ + self.details(),
    {
        String::from_str("Unexpected input size error: ").concat(self.details.as_str())
    }
}

/// Query parameters were handed to a second query.
#[derive(Debug, Clone, Copy, PartialEq, Eq, Structural)]
pub struct ErrorQueryParamsReused;

impl ErrorQueryParamsReused {
    /// The message of this error.
    pub fn message(&self) -> (text: String)
        ensures
            text@ == "Attempted to reuse query parameters that were used already"@,
    {
        String::from_str("Attempted to reuse query parameters that were used already")
    }
}

/// Adding the query indicator would have left the 32-bit range.
#[derive(Debug, Clone, Copy, PartialEq, Eq, Structural)]
pub struct ErrorOverflownAdd;

impl ErrorOverflownAdd {
    /// The message of this error.
    pub fn message(&self) -> (text: String)
        ensures
            text@ == "Attempted to overflow addition"@,
    {
        String::from_str("Attempted to overflow addition")
    }
}

/// What the retrieval scheme reports instead of a result.
#[derive(Debug)]
pub enum PirError {
    /// The record at `index` is no base64 text, or its bits do not fill the limbs asked for.
    BadRecord { index: usize },
    /// Two vectors that were to be multiplied have different lengths.
    DimensionMismatch(ErrorUnexpectedInputSize),
    /// Query parameters were handed to a second query.
    QueryParamsReused(ErrorQueryParamsReused),
    /// The query indicator does not fit on top of the masked entry.
    OverflowAdd(ErrorOverflownAdd),
    /// A value could not be written in its wire form, or bytes are no wire form.
    Serde,
}

impl PirError {
    /// The message of this error, as a text.
    pub open spec fn message_text(&self) -> Seq<char> {
        match self {
            PirError::BadRecord { index } => "Bad record at index "@ + decimal_text(*index as nat),
            PirError::DimensionMismatch(e) => "Unexpected input size error: "@ + e.details(),
            PirError::QueryParamsReused(_) =>
                "Attempted to reuse query parameters that were used already"@,
            PirError::OverflowAdd(_) => "Attempted to overflow addition"@,
            PirError::Serde => "Error occurred during serialization of data"@,
        }
    }

    /// The message of this error.
    pub fn message(&self) -> (text: String)
        ensures
            text@ == self.message_text(),
    {
        match self {
            PirError::BadRecord { index } => String::from_str("Bad record at index ").concat(
                decimal_string(*index).as_str(),
            ),
            PirError::DimensionMismatch(e) => e.message(),
            PirError::QueryParamsReused(e) => e.message(),
            PirError::OverflowAdd(e) => e.message(),
            PirError::Serde => String::from_str("Error occurred during serialization of data"),
        }
    }
}

} // verus!
