//! From a request as the proxy receives it, whose path names the target,
//! to the canonical request.

use crate::error::ProxyError;
use crate::model::{BodyView, HttpRequest, OptionalBody, RequestView};
use crate::multimap::{collected, has_key, pair_texts, with_values, MultiMap};
use crate::target_url::{parse_url, parsed_url, UrlParts};
use vstd::prelude::*;
use vstd::string::StringSliceAdditionalSpecFns;

verus! {

/// A request as it came in: the method, the path with its query string,
/// and the header lines in their order.
#[derive(Debug, PartialEq, Eq)]
pub struct InboundRequest {
    pub method: String,
    pub url: String,
    pub headers: Vec<(String, String)>,
}

/// What an inbound request says.
pub struct InboundView {
    pub method: Seq<char>,
    pub url: Seq<char>,
    pub headers: Seq<(Seq<char>, Seq<char>)>,
}

impl View for InboundRequest {
    type V = InboundView;

    open spec fn view(&self) -> InboundView {
        InboundView { method: self.method@, url: self.url@, headers: pair_texts(self.headers@) }
    }
}

/// `i` is the place of the first slash of `s`, or its length where it has
/// none.
pub open spec fn is_first_slash(s: Seq<char>, i: int) -> bool {
    &&& 0 <= i <= s.len()
    &&& i < s.len() ==> s[i] == '/'
    &&& forall|j: int| 0 <= j < i ==> s[j] != '/'
}

/// The place of the first slash of `s`, or its length where it has none.
pub open spec fn first_slash(s: Seq<char>) -> int {
    choose|i: int| is_first_slash(s, i)
}

/// The path without one leading slash.
pub open spec fn without_leading_slash(url: Seq<char>) -> Seq<char> {
    if url.len() > 0 && url[0] == '/' {
        url.subrange(1, url.len() as int)
    } else {
        url
    }
}

/// The target that a proxy path names: of `/scheme/host/rest` it is
/// `scheme://host/rest`, and nothing where the path has no second segment.
pub open spec fn forward_text(url: Seq<char>) -> Option<Seq<char>> {
    let rel = without_leading_slash(url);
    let i = first_slash(rel);
    if i == rel.len() {
        None
    } else {
        let rest = rel.subrange(i + 1, rel.len() as int);
        let j = first_slash(rest);
        let path = if j == rest.len() {
            Seq::empty()
        } else {
            rest.subrange(j + 1, rest.len() as int)
        };
        Some(rel.subrange(0, i) + "://"@ + rest.subrange(0, j) + "/"@ + path)
    }
}

/// The headers after the values of `host` and of `Host`, where they are
/// held, were replaced by the one target host.
pub open spec fn host_overridden(
    headers: Seq<(Seq<char>, Seq<Seq<char>>)>,
    host: Seq<char>,
) -> Seq<(Seq<char>, Seq<Seq<char>>)> {
    let lower = if has_key(headers, "host"@) {
        with_values(headers, "host"@, seq![host])
    } else {
        headers
    };
    if has_key(lower, "Host"@) {
        with_values(lower, "Host"@, seq![host])
    } else {
        lower
    }
}

/// The query parameters of the target, or nothing where it has none.
pub open spec fn query_of(pairs: Seq<(Seq<char>, Seq<char>)>) -> Option<
    Seq<(Seq<char>, Seq<Seq<char>>)>,
> {
    if collected(pairs).len() == 0 {
        None
    } else {
        Some(collected(pairs))
    }
}

/// The canonical request for an inbound request whose target was parsed
/// into `url`.
pub open spec fn request_of(
    inbound: InboundView,
    url: (Seq<char>, Option<Seq<char>>, Option<Seq<char>>, Seq<(Seq<char>, Seq<char>)>),
) -> Result<RequestView, ProxyError> {
    let lines = collected(inbound.headers);
    if inbound.method != "GET"@ {
        Err(ProxyError::UnsupportedMethod)
    } else if inbound.headers.len() == 0 {
        Ok(
            RequestView {
                method: "GET"@,
                path: url.0,
                query: query_of(url.3),
                headers: None,
                body: BodyView::Missing,
            },
        )
    } else if url.1 is None {
        if has_key(lines, "host"@) || has_key(lines, "Host"@) {
            Err(ProxyError::TranslationError)
        } else {
            Ok(
                RequestView {
                    method: "GET"@,
                    path: url.0,
                    query: query_of(url.3),
                    headers: Some(lines),
                    body: BodyView::Missing,
                },
            )
        }
    } else {
        Ok(
            RequestView {
                method: "GET"@,
                path: url.0,
                query: query_of(url.3),
                headers: Some(host_overridden(lines, url.1.unwrap())),
                body: BodyView::Missing,
            },
        )
    }
}

/// The canonical request for an inbound request: a request that is no GET
/// is refused first, then a path that names no target, then a target that
/// is no URL.
pub open spec fn translated(inbound: InboundView) -> Result<RequestView, ProxyError> {
    if inbound.method != "GET"@ {
        Err(ProxyError::UnsupportedMethod)
    } else {
        match forward_text(inbound.url) {
            None => Err(ProxyError::TranslationError),
            Some(text) => match parsed_url(text) {
                None => Err(ProxyError::TranslationError),
                Some(url) => request_of(inbound, url),
            },
        }
    }
}

/// The place of the first slash of `s`, or its length in characters.
pub fn find_slash(s: &str) -> (r: usize)
    ensures
        r == first_slash(s@),
        is_first_slash(s@, r as int),
{
    let n = s.unicode_len();
    let mut i: usize = 0;
    while i < n && s.get_char(i) != '/'
        invariant
            n == s@.len(),
            i <= n,
            forall|j: int| 0 <= j < i ==> s@[j] != '/',
        decreases n - i,
    {
        i += 1;
    }
    proof {
        assert(is_first_slash(s@, i as int));
        let c = first_slash(s@);
        assert(is_first_slash(s@, c));
        if c < i {
            assert(s@[c] != '/');
        }
        if i < c {
            assert(s@[i as int] != '/');
        }
    }
    i
}

/// The target that the proxy path names, as a text.
pub fn get_forward_url(url: &str) -> (r: Option<String>)
    ensures
        option_string_view(r) == forward_text(url@),
{
    let n = url.unicode_len();
    let rel = if n > 0 && url.get_char(0) == '/' {
        url.substring_char(1, n)
    } else {
        url
    };
    let m = rel.unicode_len();
    let i = find_slash(rel);
    if i == m {
        return None;
    }
    let rest = rel.substring_char(i + 1, m);
    let k = rest.unicode_len();
    let j = find_slash(rest);
    let mut text = String::from_str(rel.substring_char(0, i));
    text.append("://");
    text.append(rest.substring_char(0, j));
    text.append("/");
    if j < k {
        text.append(rest.substring_char(j + 1, k));
    }
    proof {
        if j == k {
            assert(text@ =~= rel@.subrange(0, i as int) + "://"@ + rest@.subrange(0, j as int)
                + "/"@ + Seq::<char>::empty());
        }
    }
    Some(text)
}

/// The text of an optional string.
pub open spec fn option_string_view(s: Option<String>) -> Option<Seq<char>> {
    match s {
        Some(t) => Some(t@),
        None => None,
    }
}

/// Whether the request is a GET.
pub fn set_method(request: &InboundRequest) -> (r: Result<String, ProxyError>)
    ensures
        match r {
            Ok(m) => request@.method == "GET"@ && m@ == "GET"@,
            Err(e) => request@.method != "GET"@ && e == ProxyError::UnsupportedMethod,
        },
{
    let get = String::from_str("GET");
    if request.method == get {
        Ok(get)
    } else {
        Err(ProxyError::UnsupportedMethod)
    }
}

/// The body that was read with the request: empty where nothing came,
/// else the bytes, of unknown content type. The canonical request does
/// not carry it.
pub fn set_body(content: &str) -> (r: OptionalBody)
    ensures
        r@ == if content@.len() == 0 {
            BodyView::Empty
        } else {
            BodyView::Present(content.spec_bytes(), None)
        },
{
    if content.is_empty() {
        OptionalBody::Empty
    } else {
        OptionalBody::Present(content.as_bytes_vec(), None)
    }
}

/// The query parameters of the target.
pub fn set_query(url: &UrlParts) -> (r: Option<MultiMap>)
    ensures
        crate::model::option_map_view(r) == query_of(url@.3),
        crate::model::option_map_wf(r),
{
    let map = MultiMap::from_pairs(&url.query_pairs);
    if map.is_empty() {
        None
    } else {
        Some(map)
    }
}

/// Replaces the values of `key`, where it is held, by the one host.
fn override_host(headers: &mut MultiMap, key: &str, host: &str)
    requires
        old(headers).wf(),
    ensures
        final(headers).wf(),
        final(headers)@ == if has_key(old(headers)@, key@) {
            with_values(old(headers)@, key@, seq![host@])
        } else {
            old(headers)@
        },
{
    if headers.contains_key(key) {
        let mut values: Vec<String> = Vec::new();
        values.push(String::from_str(host));
        assert(crate::multimap::texts(values@) =~= seq![host@]);
        headers.insert(key, values);
    }
}

/// Sets the value of a `host` or `Host` header to the target's host.
pub fn set_host_header(headers: &mut MultiMap, url: &UrlParts) -> (r: Result<(), ProxyError>)
    requires
        old(headers).wf(),
    ensures
        final(headers).wf(),
        match r {
            Ok(_) => match url@.1 {
                Some(host) => final(headers)@ == host_overridden(old(headers)@, host),
                None => final(headers)@ == old(headers)@ && !has_key(old(headers)@, "host"@)
                    && !has_key(old(headers)@, "Host"@),
            },
            Err(e) => e == ProxyError::TranslationError && url@.1 is None && final(headers)@ == old(headers)@ && (has_key(old(headers)@, "host"@) || has_key(old(headers)@, "Host"@)),
        },
{
    match &url.host {
        Some(host) => {
            override_host(headers, "host", host.as_str());
            override_host(headers, "Host", host.as_str());
            Ok(())
        },
        None => {
            if headers.contains_key("host") || headers.contains_key("Host") {
                Err(ProxyError::TranslationError)
            } else {
                Ok(())
            }
        },
    }
}

/// The headers of the canonical request: the inbound lines collected by
/// name, the host set to the target's.
pub fn set_headers(request: &InboundRequest, url: &UrlParts) -> (r: Result<
    Option<MultiMap>,
    ProxyError,
>)
    ensures
        match r {
            Ok(h) => crate::model::option_map_wf(h) && crate::model::option_map_view(h) == if request@.headers.len()
                == 0 {
                None
            } else {
                Some(
                    match url@.1 {
                        Some(host) => host_overridden(collected(request@.headers), host),
                        None => collected(request@.headers),
                    },
                )
            } && (request@.headers.len() > 0 && url@.1 is None ==> !has_key(
                collected(request@.headers),
                "host"@,
            ) && !has_key(collected(request@.headers), "Host"@)),
            Err(e) => e == ProxyError::TranslationError && request@.headers.len() > 0 && url@.1 is None
                && (has_key(collected(request@.headers), "host"@) || has_key(
                collected(request@.headers),
                "Host"@,
            )),
        },
{
    if request.headers.len() == 0 {
        return Ok(None);
    }
    let mut map = MultiMap::from_pairs(&request.headers);
    match set_host_header(&mut map, url) {
        Ok(_) => Ok(Some(map)),
        Err(e) => Err(e),
    }
}

/// The canonical request for an inbound request whose target was parsed
/// into `url`.
pub fn request_with_url(request: &InboundRequest, url: &UrlParts) -> (r: Result<
    HttpRequest,
    ProxyError,
>)
    ensures
        match r {
            Ok(p) => request_of(request@, url@) == Ok::<RequestView, ProxyError>(p@) && p.wf(),
            Err(e) => request_of(request@, url@) == Err::<RequestView, ProxyError>(e),
        },
{
    let method = match set_method(request) {
        Ok(m) => m,
        Err(e) => {
            return Err(e);
        },
    };
    let query = set_query(url);
    let headers = match set_headers(request, url) {
        Ok(h) => h,
        Err(e) => {
            return Err(e);
        },
    };
    Ok(HttpRequest { method, path: url.text.clone(), query, headers, body: OptionalBody::Missing })
}

/// Translates an inbound request into the canonical request for its
/// target. Only a GET is translated.
pub fn http_request_to_pact(request: &InboundRequest) -> (r: Result<HttpRequest, ProxyError>)
    ensures
        match r {
            Ok(p) => translated(request@) == Ok::<RequestView, ProxyError>(p@) && p.wf(),
            Err(e) => translated(request@) == Err::<RequestView, ProxyError>(e),
        },
        request@.method != "GET"@ ==> r == Err::<HttpRequest, ProxyError>(
            ProxyError::UnsupportedMethod,
        ),
{
    match set_method(request) {
        Ok(_) => {},
        Err(e) => {
            return Err(e);
        },
    }
    let text = match get_forward_url(request.url.as_str()) {
        Some(t) => t,
        None => {
            return Err(ProxyError::TranslationError);
        },
    };
    match parse_url(text.as_str()) {
        Ok(url) => request_with_url(request, &url),
        Err(_) => Err(ProxyError::TranslationError),
    }
}

} // verus!
