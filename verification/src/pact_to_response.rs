//! From the canonical response to the response that goes on the wire.

use crate::error::ProxyError;
use crate::model::{HttpResponse, ResponseView};
use crate::multimap::{flattened, pair_texts};
use vstd::prelude::*;

verus! {

/// A response as the serving transport sends it: the status, one header
/// line per value, and the bytes of the body.
#[derive(Debug, PartialEq, Eq)]
pub struct WireResponse {
    pub status: u16,
    pub headers: Vec<(String, String)>,
    pub body: Vec<u8>,
}

/// What a wire response says.
pub struct WireView {
    pub status: u16,
    pub headers: Seq<(Seq<char>, Seq<char>)>,
    pub body: Seq<u8>,
}

impl View for WireResponse {
    type V = WireView;

    open spec fn view(&self) -> WireView {
        WireView { status: self.status, headers: pair_texts(self.headers@), body: self.body@ }
    }
}

/// The header lines of an optional mapping: one line per value per key.
pub open spec fn header_lines(headers: Option<Seq<(Seq<char>, Seq<Seq<char>>)>>) -> Seq<
    (Seq<char>, Seq<char>),
> {
    match headers {
        Some(h) => flattened(h),
        None => Seq::empty(),
    }
}

/// The wire response for a canonical response: the same status, one
/// header line per value per key, and the bytes of a present body, none
/// for any other body.
pub open spec fn encoded(response: ResponseView) -> WireView {
    WireView {
        status: response.status,
        headers: header_lines(response.headers),
        body: response.body.wire_bytes(),
    }
}

/// Encodes a canonical response for the wire.
pub fn pact_response_to_http_response(pact_response: &HttpResponse) -> (r: Result<
    WireResponse,
    ProxyError,
>)
    ensures
        r is Ok,
        r.unwrap()@ == encoded(pact_response@),
{
    let body = pact_response.body.wire_bytes();
    let headers = match &pact_response.headers {
        Some(h) => h.flatten(),
        None => {
            let lines: Vec<(String, String)> = Vec::new();
            assert(pair_texts(lines@) =~= Seq::empty());
            lines
        },
    };
    Ok(WireResponse { status: pact_response.status, headers, body })
}

} // verus!
