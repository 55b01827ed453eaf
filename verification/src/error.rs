//! The error taxonomy: every failure an operation can report is exactly
//! one of these classifications.
use vstd::prelude::*;
use crate::dto;

verus! {

/// Classification of every external-boundary failure.
///
/// - `Network`: the transport failed before or during receiving a
///   response; carries a human-readable detail string.
/// - `InvalidJson`: a response body could not be decoded against the
///   expected schema; carries the decoder's diagnostic text.
/// - `InvalidSheetName`: a lookup by sheet title found no match among
///   the fetched sheet index; carries the name that was searched.
/// - `SmartsheetOther`: the server returned a non-success HTTP status
///   together with a structured error payload; `code` is the server's
///   domain error code, not the HTTP status.
/// - `Other`: locally raised, non-transport domain failures.
#[derive(Debug, PartialEq)]
pub enum Error {
    Network(String),
    InvalidJson(String),
    InvalidSheetName(String),
    SmartsheetOther { code: u64, message: String },
    Other(String),
}

impl From<dto::Error> for Error {
    fn from(error: dto::Error) -> (r: Error) {
        Error::SmartsheetOther { code: error.error_code, message: error.message }
    }
}

impl vstd::std_specs::convert::FromSpecImpl<dto::Error> for Error {
    open spec fn obeys_from_spec() -> bool {
        true
    }

    open spec fn from_spec(error: dto::Error) -> Error {
        Error::SmartsheetOther { code: error.error_code, message: error.message }
    }
}

impl Error {
    /// Wraps a locally raised diagnostic that fits no other classification.
    pub fn other(detail: &str) -> (r: Error)
        ensures
            r matches Error::Other(d) && d@ == detail@,
    {
        Error::Other(detail.to_owned())
    }
}

} // verus!
