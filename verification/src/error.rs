//! The ways in which serving a request can fail.

use vstd::prelude::*;

verus! {

/// Why a connection ends without a response.
#[derive(Clone, Copy, Debug, PartialEq, Eq, Structural)]
pub enum GopherError {
    /// The resource does not exist.
    NotFound,
    /// The selector leads out of the served directory.
    PermissionDenied,
    /// Reading the resource or writing the response failed.
    Io,
    /// The selector line was not ended by CRLF before the input ended.
    MalformedRequest,
    /// Shutdown began before the response was due.
    Cancelled,
}

impl GopherError {
    /// Whether the failure comes from shutdown rather than from the request.
    pub fn is_cancellation(&self) -> (cancellation: bool)
        ensures
            cancellation == (*self == GopherError::Cancelled),
    {
        match self {
            GopherError::Cancelled => true,
            _ => false,
        }
    }
}

/// What a fetch or a lookup gave, as a mathematical value: the bytes, or the
/// failure.
pub open spec fn outcome_view(outcome: Result<Vec<u8>, GopherError>) -> Result<
    Seq<u8>,
    GopherError,
> {
    match outcome {
        Ok(bytes) => Ok(bytes@),
        Err(error) => Err(error),
    }
}

} // verus!
