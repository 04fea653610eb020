//! Failures of decoding and of request handling.

use vstd::prelude::*;

verus! {

/// What went wrong while decoding a frame or building a response.
///
/// The two `Unsupported` variants carry the raw wire value and, once the
/// request header has been decoded far enough, the correlation id of the
/// request, so that the transport can still answer with a correlated error
/// frame.
#[derive(Debug, Clone, Copy, PartialEq, Eq, Structural)]
pub enum Error {
    /// The request named an API version outside the supported range.
    UnsupportedApiVersion(u16, Option<u32>),
    /// The request named an API key that is not served.
    UnsupportedApiKey(u16, Option<u32>),
    /// The input ended before the value was complete.
    Incomplete,
    /// A varint encoded a value that does not fit in 64 bits.
    Overflow,
    /// A length prefix pointed past the end of the input.
    BadLength,
    /// String bytes were not valid UTF-8.
    InvalidUtf8,
}

impl Error {
    /// Tags the error with the request's correlation id, once it is known.
    pub fn with_correlation_id(&self, id: u32) -> (r: Error)
        ensures
            r == self.spec_with_correlation_id(id),
    {
        match self {
            Error::UnsupportedApiVersion(v, _) => Error::UnsupportedApiVersion(*v, Some(id)),
            Error::UnsupportedApiKey(v, _) => Error::UnsupportedApiKey(*v, Some(id)),
            _ => self.clone(),
        }
    }

    /// What `with_correlation_id` returns.
    pub open spec fn spec_with_correlation_id(self, id: u32) -> Error {
        match self {
            Error::UnsupportedApiVersion(v, _) => Error::UnsupportedApiVersion(v, Some(id)),
            Error::UnsupportedApiKey(v, _) => Error::UnsupportedApiKey(v, Some(id)),
            _ => self,
        }
    }
}

} // verus!
