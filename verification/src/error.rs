//! The ways in which handling one request can fail.

use vstd::prelude::*;

verus! {

/// Why a request was not answered, or why the store could not be set up.
#[derive(Debug, Clone, Copy, PartialEq, Eq, Structural)]
pub enum ProxyError {
    /// The inbound request is not a GET.
    UnsupportedMethod,
    /// The inbound path names no target, or the target is no URL.
    TranslationError,
    /// Every attempt to reach the target failed.
    ForwardingExhausted,
    /// A response could not be brought into canonical form: its body claims
    /// to be JSON and is not, or its content type cannot be read.
    SerializationError,
    /// A document could not be written.
    StoreIOError,
    /// A document file could not be read at startup.
    StartupLoadError,
}

impl ProxyError {
    /// A sentence for the one who made the request.
    pub fn message(&self) -> (r: String)
        ensures
            r@ == match *self {
                ProxyError::UnsupportedMethod => "Only GET requests are supported"@,
                ProxyError::TranslationError => "The request path names no target URL"@,
                ProxyError::ForwardingExhausted => "Could not get correct response from server"@,
                ProxyError::SerializationError => "The response could not be normalised"@,
                ProxyError::StoreIOError => "The pact could not be written"@,
                ProxyError::StartupLoadError => "A pact file could not be read"@,
            },
    {
        match self {
            ProxyError::UnsupportedMethod => String::from_str("Only GET requests are supported"),
            ProxyError::TranslationError => String::from_str(
                "The request path names no target URL",
            ),
            ProxyError::ForwardingExhausted => String::from_str(
                "Could not get correct response from server",
            ),
            ProxyError::SerializationError => String::from_str(
                "The response could not be normalised",
            ),
            ProxyError::StoreIOError => String::from_str("The pact could not be written"),
            ProxyError::StartupLoadError => String::from_str("A pact file could not be read"),
        }
    }
}

} // verus!
