//! Errors of the credential lookup.
use crate::errors::PirError;
use crate::numbers::{decimal_string, decimal_text};
use vstd::prelude::*;

verus! {

/// What the credential lookup reports instead of a result.
#[derive(Debug)]
pub enum C3Error {
    /// The bucket file at a path could not be loaded, with the reason.
    LoadBucketError(String, String),
    /// The retrieval scheme failed.
    PIRError(PirError),
    /// The client handed over different numbers of query parameters and of
    /// row indices; both numbers in that order.
    ClientQueryError(usize, usize),
    /// Bytes from the wire are no message.
    SerdeError,
    /// A keyword table could not be built.
    KeywordIndexMappingError,
    /// No row is listed for a keyword.
    KeywordIndexNotFoundError,
    /// The oblivious pseudorandom function refused a key, an element or an input.
    OprfError,
}

impl C3Error {
    /// The message of this error, as a text.
    pub open spec fn message_text(&self) -> Seq<char> {
        match self {
            C3Error::LoadBucketError(path, reason) =>
                "Error occurred loading bucket file at path "@ + path@ + ", error: "@ + reason@
                    + "."@,
            C3Error::KeywordIndexMappingError =>
                "Error occurred while processing KeywordIndexMapping"@,
            C3Error::KeywordIndexNotFoundError => "Error occurred, no index found for keyword"@,
            C3Error::PIRError(e) => "Error occurred in underlying PIR scheme: "@ + e.message_text()
                + "."@,
            C3Error::ClientQueryError(query_len, params_len) =>
                "Error occurred as client specified inconsistent numbers of query parameters for each individual query, number of queries requested: "@
                    + decimal_text(*query_len as nat) + ", number of params objects: "@
                    + decimal_text(*params_len as nat) + "."@,
            C3Error::SerdeError => "Error occurred during serialization of data."@,
            C3Error::OprfError => "Error occurred during operation of OPRF."@,
        }
    }

    /// The message of this error.
    pub fn message(&self) -> (text: String)
        ensures
            text@ == self.message_text(),
    {
        match self {
            C3Error::LoadBucketError(path, reason) => String::from_str(
                "Error occurred loading bucket file at path ",
            ).concat(path.as_str()).concat(", error: ").concat(reason.as_str()).concat("."),
            C3Error::KeywordIndexMappingError => String::from_str(
                "Error occurred while processing KeywordIndexMapping",
            ),
            C3Error::KeywordIndexNotFoundError => String::from_str(
                "Error occurred, no index found for keyword",
            ),
            C3Error::PIRError(e) => String::from_str(
                "Error occurred in underlying PIR scheme: ",
            ).concat(e.message().as_str()).concat("."),
            C3Error::ClientQueryError(query_len, params_len) => String::from_str(
                "Error occurred as client specified inconsistent numbers of query parameters for each individual query, number of queries requested: ",
            ).concat(decimal_string(*query_len).as_str()).concat(
                ", number of params objects: ",
            ).concat(decimal_string(*params_len).as_str()).concat("."),
            C3Error::SerdeError => String::from_str(
                "Error occurred during serialization of data.",
            ),
            C3Error::OprfError => String::from_str("Error occurred during operation of OPRF."),
        }
    }
}

} // verus!
