//! From the canonical request to the request that is sent to the target.

use crate::error::ProxyError;
use crate::model::{HttpRequest, RequestView};
use crate::multimap::pair_texts;
use crate::pact_to_response::header_lines;
use vstd::prelude::*;

verus! {

/// A request as it is sent to the target: the method, the target URL,
/// and one header line per value.
#[derive(Debug, PartialEq, Eq)]
pub struct OutboundRequest {
    pub method: String,
    pub url: String,
    pub headers: Vec<(String, String)>,
}

/// What an outbound request says.
pub struct OutboundView {
    pub method: Seq<char>,
    pub url: Seq<char>,
    pub headers: Seq<(Seq<char>, Seq<char>)>,
}

impl View for OutboundRequest {
    type V = OutboundView;

    open spec fn view(&self) -> OutboundView {
        OutboundView { method: self.method@, url: self.url@, headers: pair_texts(self.headers@) }
    }
}

/// The error of `http::Method::from_bytes`.
#[verifier::external_type_specification]
#[verifier::external_body]
pub struct ExInvalidMethod(http::method::InvalidMethod);

/// What `http::Method::from_bytes` makes of the bytes of a text: nothing
/// where it rejects them, else the method as its `as_str` writes it.
pub uninterp spec fn http_method(text: Seq<char>) -> Option<Seq<char>>;

/// Calls `http::Method::from_bytes` on the bytes of the text and
/// `as_str` on the method. Trusted: the result is what `http_method`
/// names for this text, and an error comes exactly where `http_method`
/// is nothing.
#[verifier::external_body]
fn method_from_bytes(method: &str) -> (r: Result<String, http::method::InvalidMethod>)
    ensures
        match r {
            Ok(m) => http_method(method@) == Some(m@),
            Err(_) => http_method(method@).is_none(),
        },
{
    let parsed = http::Method::from_bytes(method.as_bytes())?;
    Ok(parsed.as_str().to_string())
}

/// The outbound request with this method for a canonical request: its
/// path as the URL, and every header value as a line of its own.
pub open spec fn outbound_with(request: RequestView, method: Seq<char>) -> OutboundView {
    OutboundView { method, url: request.path, headers: header_lines(request.headers) }
}

/// The outbound request for a canonical request. A method that is no
/// HTTP method is not sent.
pub open spec fn outbound_of(request: RequestView) -> Result<OutboundView, ProxyError> {
    match http_method(request.method) {
        Some(method) => Ok(outbound_with(request, method)),
        None => Err(ProxyError::UnsupportedMethod),
    }
}

/// Adds the headers of the canonical request to the outbound request,
/// after the lines that it has.
pub fn copy_pact_headers_to_request(pact_request: &HttpRequest, reqwest_request: OutboundRequest) -> (r:
    Result<OutboundRequest, ProxyError>)
    ensures
        r is Ok,
        r.unwrap()@ == (OutboundView {
            headers: reqwest_request@.headers + header_lines(pact_request@.headers),
            ..reqwest_request@
        }),
{
    Ok(with_pact_headers(pact_request, reqwest_request))
}

/// The outbound request with the headers of the canonical request after
/// the lines that it has.
fn with_pact_headers(pact_request: &HttpRequest, reqwest_request: OutboundRequest) -> (r:
    OutboundRequest)
    ensures
        r@ == (OutboundView {
            headers: reqwest_request@.headers + header_lines(pact_request@.headers),
            ..reqwest_request@
        }),
{
    let mut request = reqwest_request;
    match &pact_request.headers {
        Some(h) => {
            let mut lines = h.flatten();
            let ghost before = pair_texts(request.headers@);
            let ghost added = pair_texts(lines@);
            request.headers.append(&mut lines);
            assert(pair_texts(request.headers@) =~= before + added);
        },
        None => {
            assert(pair_texts(request.headers@) + Seq::empty() =~= pair_texts(request.headers@));
        },
    }
    request
}

/// The outbound request with this method for a canonical request.
pub fn request_with_method(pact_request: &HttpRequest, method: String) -> (r: OutboundRequest)
    ensures
        r@ == outbound_with(pact_request@, method@),
{
    let request = OutboundRequest { method, url: pact_request.path.clone(), headers: Vec::new() };
    assert(pair_texts(request.headers@) =~= Seq::empty());
    assert(Seq::<(Seq<char>, Seq<char>)>::empty() + header_lines(pact_request@.headers)
        =~= header_lines(pact_request@.headers));
    with_pact_headers(pact_request, request)
}

/// The outbound request for a canonical request.
pub fn build_request(pact_request: &HttpRequest) -> (r: Result<OutboundRequest, ProxyError>)
    ensures
        match r {
            Ok(request) => outbound_of(pact_request@) == Ok::<OutboundView, ProxyError>(request@),
            Err(e) => outbound_of(pact_request@) == Err::<OutboundView, ProxyError>(e),
        },
{
    match method_from_bytes(pact_request.method.as_str()) {
        Ok(method) => Ok(request_with_method(pact_request, method)),
        Err(_) => Err(ProxyError::UnsupportedMethod),
    }
}

} // verus!
