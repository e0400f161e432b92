//! The canonical records: requests, responses, interactions and the
//! document that collects the interactions of one consumer/provider pair.

use crate::multimap::{pair_texts, MultiMap};
use vstd::prelude::*;

verus! {

/// What a content type says.
pub struct ContentTypeView {
    pub main_type: Seq<char>,
    pub sub_type: Seq<char>,
    pub attributes: Seq<(Seq<char>, Seq<char>)>,
    pub suffix: Option<Seq<char>>,
}

/// A media type: `main/sub+suffix;attribute=value`.
#[derive(Debug, PartialEq, Eq)]
pub struct ContentType {
    pub main_type: String,
    pub sub_type: String,
    pub attributes: Vec<(String, String)>,
    pub suffix: Option<String>,
}

/// The text of an optional string.
pub open spec fn option_text(s: Option<String>) -> Option<Seq<char>> {
    match s {
        Some(t) => Some(t@),
        None => None,
    }
}

/// A copy of a list of bytes.
pub fn clone_bytes(v: &Vec<u8>) -> (r: Vec<u8>)
    ensures
        r@ == v@,
{
    let mut r: Vec<u8> = Vec::new();
    let mut i: usize = 0;
    while i < v.len()
        invariant
            i <= v.len(),
            r@ == v@.subrange(0, i as int),
        decreases v.len() - i,
    {
        r.push(v[i]);
        assert(r@ =~= v@.subrange(0, i + 1));
        i += 1;
    }
    assert(r@ =~= v@);
    r
}

/// A copy of a list of pairs of strings.
pub fn clone_pairs(v: &Vec<(String, String)>) -> (r: Vec<(String, String)>)
    ensures
        r@ == v@,
{
    let mut r: Vec<(String, String)> = Vec::new();
    let mut i: usize = 0;
    while i < v.len()
        invariant
            i <= v.len(),
            r@ == v@.subrange(0, i as int),
        decreases v.len() - i,
    {
        let a = v[i].0.clone();
        let b = v[i].1.clone();
        r.push((a, b));
        assert(r@ =~= v@.subrange(0, i + 1));
        i += 1;
    }
    assert(r@ =~= v@);
    r
}

impl View for ContentType {
    type V = ContentTypeView;

    open spec fn view(&self) -> ContentTypeView {
        ContentTypeView {
            main_type: self.main_type@,
            sub_type: self.sub_type@,
            attributes: pair_texts(self.attributes@),
            suffix: option_text(self.suffix),
        }
    }
}

/// The attributes as they are written: each after a semicolon, as
/// `name=value`.
pub open spec fn attribute_texts(attributes: Seq<(Seq<char>, Seq<char>)>) -> Seq<char>
    decreases attributes.len(),
{
    if attributes.len() == 0 {
        Seq::empty()
    } else {
        attribute_texts(attributes.drop_last()) + ";"@ + attributes.last().0 + "="@
            + attributes.last().1
    }
}

/// The content type as it is written: `main/sub`, then `+suffix` where
/// it has one, then the attributes.
pub open spec fn content_type_text(c: ContentTypeView) -> Seq<char> {
    c.main_type + "/"@ + c.sub_type + match c.suffix {
        Some(s) => "+"@ + s,
        None => Seq::empty(),
    } + attribute_texts(c.attributes)
}

impl ContentType {
    /// The content type as it is written.
    pub fn text(&self) -> (r: String)
        ensures
            r@ == content_type_text(self@),
    {
        let mut text = self.main_type.clone();
        text.append("/");
        text.append(self.sub_type.as_str());
        match &self.suffix {
            Some(s) => {
                text.append("+");
                text.append(s.as_str());
                assert(text@ =~= self@.main_type + "/"@ + self@.sub_type + ("+"@ + s@));
            },
            None => {
                assert(text@ =~= self@.main_type + "/"@ + self@.sub_type + Seq::<char>::empty());
            },
        }
        let ghost base = text@;
        let ghost all = pair_texts(self.attributes@);
        let mut i: usize = 0;
        proof {
            assert(all.subrange(0, 0) =~= Seq::empty());
            assert(text@ =~= base + attribute_texts(all.subrange(0, 0)));
        }
        while i < self.attributes.len()
            invariant
                i <= self.attributes.len(),
                all == pair_texts(self.attributes@),
                text@ == base + attribute_texts(all.subrange(0, i as int)),
            decreases self.attributes.len() - i,
        {
            let ghost before = text@;
            text.append(";");
            text.append(self.attributes[i].0.as_str());
            text.append("=");
            text.append(self.attributes[i].1.as_str());
            proof {
                let next = all.subrange(0, i + 1);
                assert(next.drop_last() =~= all.subrange(0, i as int));
                assert(next.last() == all[i as int]);
                assert(text@ =~= base + attribute_texts(next));
            }
            i += 1;
        }
        assert(all.subrange(0, i as int) =~= all);
        text
    }

    /// A copy of the content type.
    pub fn copy(&self) -> (r: ContentType)
        ensures
            r@ == self@,
    {
        let suffix = match &self.suffix {
            Some(s) => Some(s.clone()),
            None => None,
        };
        ContentType {
            main_type: self.main_type.clone(),
            sub_type: self.sub_type.clone(),
            attributes: clone_pairs(&self.attributes),
            suffix,
        }
    }

    /// Whether this is `application/json`, whatever its attributes.
    pub fn is_application_json(&self) -> (b: bool)
        ensures
            b == (self@.main_type == "application"@ && self@.sub_type == "json"@),
    {
        let main = String::from_str("application");
        let sub = String::from_str("json");
        self.main_type == main && self.sub_type == sub
    }
}

/// What a body holds.
pub enum BodyView {
    Missing,
    Empty,
    Null,
    Present(Seq<u8>, Option<ContentTypeView>),
}

/// The body of a request or a response.
#[derive(Debug, PartialEq, Eq)]
pub enum OptionalBody {
    /// No body was given.
    Missing,
    /// A body of no bytes.
    Empty,
    /// A JSON null.
    Null,
    /// The bytes, with their content type where it is known.
    Present(Vec<u8>, Option<ContentType>),
}

impl View for OptionalBody {
    type V = BodyView;

    open spec fn view(&self) -> BodyView {
        match self {
            OptionalBody::Missing => BodyView::Missing,
            OptionalBody::Empty => BodyView::Empty,
            OptionalBody::Null => BodyView::Null,
            OptionalBody::Present(bytes, content_type) => BodyView::Present(
                bytes@,
                match content_type {
                    Some(c) => Some(c@),
                    None => None,
                },
            ),
        }
    }
}

impl BodyView {
    /// The bytes that go on the wire: none unless the body is present.
    pub open spec fn wire_bytes(self) -> Seq<u8> {
        match self {
            BodyView::Present(bytes, _) => bytes,
            _ => Seq::empty(),
        }
    }

    /// The content type of a present body that has one.
    pub open spec fn content_type(self) -> Option<ContentTypeView> {
        match self {
            BodyView::Present(_, content_type) => content_type,
            _ => None,
        }
    }
}

impl OptionalBody {
    /// A copy of the body.
    pub fn copy(&self) -> (r: OptionalBody)
        ensures
            r@ == self@,
    {
        match self {
            OptionalBody::Missing => OptionalBody::Missing,
            OptionalBody::Empty => OptionalBody::Empty,
            OptionalBody::Null => OptionalBody::Null,
            OptionalBody::Present(bytes, content_type) => {
                let c = match content_type {
                    Some(c) => Some(c.copy()),
                    None => None,
                };
                OptionalBody::Present(clone_bytes(bytes), c)
            },
        }
    }

    /// A copy of the content type of a present body that has one.
    pub fn content_type(&self) -> (r: Option<ContentType>)
        ensures
            match r {
                Some(c) => self@.content_type() == Some(c@),
                None => self@.content_type().is_none(),
            },
    {
        match self {
            OptionalBody::Present(_, Some(c)) => Some(c.copy()),
            _ => None,
        }
    }

    /// The bytes that go on the wire.
    pub fn wire_bytes(&self) -> (r: Vec<u8>)
        ensures
            r@ == self@.wire_bytes(),
    {
        match self {
            OptionalBody::Present(bytes, _) => clone_bytes(bytes),
            _ => Vec::new(),
        }
    }
}

/// The view of an optional mapping.
pub open spec fn option_map_view(m: Option<MultiMap>) -> Option<Seq<(Seq<char>, Seq<Seq<char>>)>> {
    match m {
        Some(x) => Some(x@),
        None => None,
    }
}

/// Each key of an optional mapping occurs once.
pub open spec fn option_map_wf(m: Option<MultiMap>) -> bool {
    match m {
        Some(x) => x.wf(),
        None => true,
    }
}

/// A copy of an optional mapping.
pub fn copy_option_map(m: &Option<MultiMap>) -> (r: Option<MultiMap>)
    ensures
        option_map_view(r) == option_map_view(*m),
{
    match m {
        Some(x) => Some(x.copy()),
        None => None,
    }
}

/// What a canonical request says.
pub struct RequestView {
    pub method: Seq<char>,
    pub path: Seq<char>,
    pub query: Option<Seq<(Seq<char>, Seq<Seq<char>>)>>,
    pub headers: Option<Seq<(Seq<char>, Seq<Seq<char>>)>>,
    pub body: BodyView,
}

/// A canonical request. For a forwarded call `path` is the whole target URL.
#[derive(Debug, PartialEq, Eq)]
pub struct HttpRequest {
    pub method: String,
    pub path: String,
    pub query: Option<MultiMap>,
    pub headers: Option<MultiMap>,
    pub body: OptionalBody,
}

impl View for HttpRequest {
    type V = RequestView;

    open spec fn view(&self) -> RequestView {
        RequestView {
            method: self.method@,
            path: self.path@,
            query: option_map_view(self.query),
            headers: option_map_view(self.headers),
            body: self.body@,
        }
    }
}

impl HttpRequest {
    /// No key occurs twice among the query parameters or among the headers.
    pub open spec fn wf(&self) -> bool {
        option_map_wf(self.query) && option_map_wf(self.headers)
    }

    /// A copy of the request.
    pub fn copy(&self) -> (r: HttpRequest)
        ensures
            r@ == self@,
    {
        HttpRequest {
            method: self.method.clone(),
            path: self.path.clone(),
            query: copy_option_map(&self.query),
            headers: copy_option_map(&self.headers),
            body: self.body.copy(),
        }
    }
}

/// What a canonical response says.
pub struct ResponseView {
    pub status: u16,
    pub headers: Option<Seq<(Seq<char>, Seq<Seq<char>>)>>,
    pub body: BodyView,
}

/// A canonical response.
#[derive(Debug, PartialEq, Eq)]
pub struct HttpResponse {
    pub status: u16,
    pub headers: Option<MultiMap>,
    pub body: OptionalBody,
}

impl View for HttpResponse {
    type V = ResponseView;

    open spec fn view(&self) -> ResponseView {
        ResponseView {
            status: self.status,
            headers: option_map_view(self.headers),
            body: self.body@,
        }
    }
}

impl HttpResponse {
    /// No key occurs twice among the headers.
    pub open spec fn wf(&self) -> bool {
        option_map_wf(self.headers)
    }

    /// A copy of the response.
    pub fn copy(&self) -> (r: HttpResponse)
        ensures
            r@ == self@,
    {
        HttpResponse {
            status: self.status,
            headers: copy_option_map(&self.headers),
            body: self.body.copy(),
        }
    }
}

/// What an interaction says.
pub struct InteractionView {
    pub description: Seq<char>,
    pub request: RequestView,
    pub response: ResponseView,
}

/// One recorded exchange. The description is the text by which it is found
/// again.
#[derive(Debug, PartialEq, Eq)]
pub struct Interaction {
    pub description: String,
    pub request: HttpRequest,
    pub response: HttpResponse,
}

impl View for Interaction {
    type V = InteractionView;

    open spec fn view(&self) -> InteractionView {
        InteractionView {
            description: self.description@,
            request: self.request@,
            response: self.response@,
        }
    }
}

impl Interaction {
    /// A copy of the interaction.
    pub fn copy(&self) -> (r: Interaction)
        ensures
            r@ == self@,
    {
        Interaction {
            description: self.description.clone(),
            request: self.request.copy(),
            response: self.response.copy(),
        }
    }
}

/// The views of a list of interactions.
pub open spec fn interaction_views(v: Seq<Interaction>) -> Seq<InteractionView> {
    Seq::new(v.len(), |i: int| v[i]@)
}

/// What a document says.
pub struct PactView {
    pub consumer: Seq<char>,
    pub provider: Seq<char>,
    pub interactions: Seq<InteractionView>,
}

/// The document of one consumer/provider pair: its interactions in the
/// order in which they were recorded.
#[derive(Debug, PartialEq, Eq)]
pub struct Pact {
    pub consumer: String,
    pub provider: String,
    pub interactions: Vec<Interaction>,
}

impl View for Pact {
    type V = PactView;

    open spec fn view(&self) -> PactView {
        PactView {
            consumer: self.consumer@,
            provider: self.provider@,
            interactions: interaction_views(self.interactions@),
        }
    }
}

impl Pact {
    /// A copy of the document.
    pub fn copy(&self) -> (r: Pact)
        ensures
            r@ == self@,
    {
        let mut interactions: Vec<Interaction> = Vec::new();
        let mut i: usize = 0;
        while i < self.interactions.len()
            invariant
                i <= self.interactions.len(),
                interactions@.len() == i,
                forall|j: int| 0 <= j < i ==> (#[trigger] interactions@[j])@ == self.interactions@[j]@,
            decreases self.interactions.len() - i,
        {
            interactions.push(self.interactions[i].copy());
            i += 1;
        }
        let r = Pact {
            consumer: self.consumer.clone(),
            provider: self.provider.clone(),
            interactions,
        };
        assert(r@.interactions =~= self@.interactions);
        r
    }
}

} // verus!
