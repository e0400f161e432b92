//! From the answer of the target to the canonical response.

use crate::error::ProxyError;
use crate::model::{
    clone_bytes, option_map_view, option_map_wf, BodyView, ContentType, ContentTypeView,
    HttpResponse, OptionalBody, ResponseView,
};
use crate::multimap::{collected, pair_texts, values_of, MultiMap};
use vstd::prelude::*;

verus! {

/// The answer of the target as it came over the wire: the status, the
/// header lines in their order, and the bytes of the body.
#[derive(Debug, PartialEq, Eq)]
pub struct UpstreamResponse {
    pub status: u16,
    pub headers: Vec<(String, String)>,
    pub body: Vec<u8>,
}

/// What an answer of the target says.
pub struct UpstreamView {
    pub status: u16,
    pub headers: Seq<(Seq<char>, Seq<char>)>,
    pub body: Seq<u8>,
}

impl View for UpstreamResponse {
    type V = UpstreamView;

    open spec fn view(&self) -> UpstreamView {
        UpstreamView { status: self.status, headers: pair_texts(self.headers@), body: self.body@ }
    }
}

/// What `str::to_lowercase` makes of a text.
pub uninterp spec fn lowercase(text: Seq<char>) -> Seq<char>;

/// Calls `str::to_lowercase`. Trusted: the result is what `lowercase`
/// names for this text.
#[verifier::external_body]
fn to_lowercase(text: &str) -> (r: String)
    ensures
        r@ == lowercase(text@),
{
    text.to_lowercase()
}

/// What `pact_models::content_types::ContentType::parse` makes of a text:
/// nothing where it rejects the text, else the main type, the sub type,
/// the attributes in the order of their names, and the suffix.
pub uninterp spec fn parsed_content_type(text: Seq<char>) -> Option<
    (Seq<char>, Seq<char>, Seq<(Seq<char>, Seq<char>)>, Option<Seq<char>>),
>;

/// The content type that the four parts make up.
pub open spec fn content_type_of(
    parts: (Seq<char>, Seq<char>, Seq<(Seq<char>, Seq<char>)>, Option<Seq<char>>),
) -> ContentTypeView {
    ContentTypeView {
        main_type: parts.0,
        sub_type: parts.1,
        attributes: parts.2,
        suffix: parts.3,
    }
}

/// Calls `pact_models::content_types::ContentType::parse` and moves the
/// fields of what it returns. Trusted: the result is what
/// `parsed_content_type` names for this text, and nothing exactly where
/// the parser returns an error.
#[verifier::external_body]
fn parse_content_type(text: &str) -> (r: Option<ContentType>)
    ensures
        match r {
            Some(c) => parsed_content_type(text@).is_some() && c@ == content_type_of(
                parsed_content_type(text@).unwrap(),
            ),
            None => parsed_content_type(text@).is_none(),
        },
{
    match pact_models::content_types::ContentType::parse(text) {
        Ok(c) => Some(
            ContentType {
                main_type: c.main_type,
                sub_type: c.sub_type,
                attributes: c.attributes.into_iter().collect(),
                suffix: c.suffix,
            },
        ),
        Err(_) => None,
    }
}

/// The header lines with each name in lower case.
pub open spec fn lowered(lines: Seq<(Seq<char>, Seq<char>)>) -> Seq<(Seq<char>, Seq<char>)> {
    Seq::new(lines.len(), |i: int| (lowercase(lines[i].0), lines[i].1))
}

/// The headers of the canonical response: the lines collected under
/// their names in lower case, or nothing where there is no line.
pub open spec fn response_headers(lines: Seq<(Seq<char>, Seq<char>)>) -> Option<
    Seq<(Seq<char>, Seq<Seq<char>>)>,
> {
    if collected(lowered(lines)).len() == 0 {
        None
    } else {
        Some(collected(lowered(lines)))
    }
}

/// The first value of the `content-type` header, if it is held.
pub open spec fn content_type_header(headers: Option<Seq<(Seq<char>, Seq<Seq<char>>)>>) -> Option<
    Seq<char>,
> {
    match headers {
        Some(h) => match values_of(h, "content-type"@) {
            Some(vs) => if vs.len() > 0 {
                Some(vs[0])
            } else {
                None
            },
            None => None,
        },
        None => None,
    }
}

/// The body of the canonical response: without a content type the bytes
/// are not kept; with one that can be read they are kept under it.
pub open spec fn response_body(
    body: Seq<u8>,
    header: Option<Seq<char>>,
) -> Result<BodyView, ProxyError> {
    match header {
        None => Ok(BodyView::Missing),
        Some(text) => match parsed_content_type(text) {
            Some(parts) => Ok(BodyView::Present(body, Some(content_type_of(parts)))),
            None => Err(ProxyError::SerializationError),
        },
    }
}

/// The canonical response for an answer of the target.
pub open spec fn response_of(upstream: UpstreamView) -> Result<ResponseView, ProxyError> {
    let headers = response_headers(upstream.headers);
    match response_body(upstream.body, content_type_header(headers)) {
        Ok(body) => Ok(ResponseView { status: upstream.status, headers, body }),
        Err(e) => Err(e),
    }
}

/// The header lines with each name in lower case.
fn lower_names(lines: &Vec<(String, String)>) -> (r: Vec<(String, String)>)
    ensures
        pair_texts(r@) == lowered(pair_texts(lines@)),
{
    let mut r: Vec<(String, String)> = Vec::new();
    let mut i: usize = 0;
    while i < lines.len()
        invariant
            i <= lines.len(),
            r@.len() == i,
            forall|j: int|
                0 <= j < i ==> (#[trigger] r@[j]).0@ == lowercase(lines@[j].0@) && r@[j].1@
                    == lines@[j].1@,
        decreases lines.len() - i,
    {
        let name = to_lowercase(lines[i].0.as_str());
        let value = lines[i].1.clone();
        r.push((name, value));
        i += 1;
    }
    assert(pair_texts(r@) =~= lowered(pair_texts(lines@)));
    r
}

/// The headers of the canonical response. Names are kept in lower case
/// only: any other way of keeping them is not offered.
pub fn reqwest_headers_to_pact_headers(headers: &Vec<(String, String)>, make_small_cap: bool) -> (r:
    Option<MultiMap>)
    requires
        make_small_cap,
    ensures
        option_map_view(r) == response_headers(pair_texts(headers@)),
        option_map_wf(r),
{
    let lowered_lines = lower_names(headers);
    let pact_headers = MultiMap::from_pairs(&lowered_lines);
    if pact_headers.is_empty() {
        None
    } else {
        Some(pact_headers)
    }
}

/// Sets the status of the canonical response.
pub fn set_pact_response_status(response: &UpstreamResponse, pact_response: &mut HttpResponse)
    ensures
        final(pact_response).status == response.status,
        final(pact_response).headers == old(pact_response).headers,
        final(pact_response).body == old(pact_response).body,
{
    pact_response.status = response.status;
}

/// Sets the headers of the canonical response.
pub fn set_pact_response_headers(
    response: &UpstreamResponse,
    pact_response: &mut HttpResponse,
    make_small_cap: bool,
)
    requires
        make_small_cap,
    ensures
        final(pact_response).status == old(pact_response).status,
        option_map_view(final(pact_response).headers) == response_headers(response@.headers),
        final(pact_response).wf(),
        final(pact_response).body == old(pact_response).body,
{
    pact_response.headers = reqwest_headers_to_pact_headers(&response.headers, make_small_cap);
}

/// The first value of the `content-type` header of the canonical
/// response, if it has one.
pub fn find_content_type(pact_response: &HttpResponse) -> (r: Option<String>)
    requires
        pact_response.wf(),
    ensures
        crate::model::option_text(r) == content_type_header(pact_response@.headers),
{
    match &pact_response.headers {
        Some(headers) => match headers.get("content-type") {
            Some(values) => if values.len() > 0 {
                assert(crate::multimap::texts(values@)[0] == values@[0]@);
                Some(values[0].clone())
            } else {
                None
            },
            None => None,
        },
        None => None,
    }
}

/// The body of the canonical response, given what the parser made of the
/// content type: `None` where the answer named none, `Some(None)` where
/// the parser refused it.
pub fn body_with_content_type(body: &Vec<u8>, parsed: Option<Option<ContentType>>) -> (r: Result<
    OptionalBody,
    ProxyError,
>)
    ensures
        match parsed {
            None => r is Ok && r.unwrap()@ == BodyView::Missing,
            Some(None) => r == Err::<OptionalBody, ProxyError>(ProxyError::SerializationError),
            Some(Some(c)) => r is Ok && r.unwrap()@ == BodyView::Present(body@, Some(c@)),
        },
{
    match parsed {
        None => Ok(OptionalBody::Missing),
        Some(None) => Err(ProxyError::SerializationError),
        Some(Some(c)) => Ok(OptionalBody::Present(clone_bytes(body), Some(c))),
    }
}

/// Sets the body of the canonical response from the bytes of the answer
/// and the content type among the headers already set.
pub fn set_pact_response_body(response: &UpstreamResponse, pact_response: &mut HttpResponse) -> (r:
    Result<(), ProxyError>)
    requires
        old(pact_response).wf(),
    ensures
        final(pact_response).status == old(pact_response).status,
        final(pact_response).headers == old(pact_response).headers,
        match r {
            Ok(_) => response_body(response@.body, content_type_header(old(pact_response)@.headers))
                == Ok::<BodyView, ProxyError>(final(pact_response).body@),
            Err(e) => response_body(response@.body, content_type_header(old(pact_response)@.headers))
                == Err::<BodyView, ProxyError>(e) && final(pact_response).body == old(pact_response).body,
        },
{
    let parsed = match find_content_type(pact_response) {
        Some(text) => Some(parse_content_type(text.as_str())),
        None => None,
    };
    match body_with_content_type(&response.body, parsed) {
        Ok(body) => {
            pact_response.body = body;
            Ok(())
        },
        Err(e) => Err(e),
    }
}

/// The canonical response for an answer of the target: its status, its
/// headers under lower-case names, and its body where the answer names a
/// content type. A content type that cannot be read fails the
/// conversion.
pub fn reqwest_response_to_pact(response: &UpstreamResponse) -> (r: Result<HttpResponse, ProxyError>)
    ensures
        match r {
            Ok(p) => response_of(response@) == Ok::<ResponseView, ProxyError>(p@) && p.wf(),
            Err(e) => response_of(response@) == Err::<ResponseView, ProxyError>(e),
        },
{
    let mut pact_response = HttpResponse {
        status: 200,
        headers: None,
        body: OptionalBody::Missing,
    };
    set_pact_response_status(response, &mut pact_response);
    set_pact_response_headers(response, &mut pact_response, true);
    match set_pact_response_body(response, &mut pact_response) {
        Ok(_) => Ok(pact_response),
        Err(e) => Err(e),
    }
}

} // verus!
