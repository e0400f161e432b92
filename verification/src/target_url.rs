//! Absolute URLs, as the `url` crate reads them.

use crate::model::option_text;
use crate::multimap::pair_texts;
use vstd::prelude::*;

verus! {

/// The parse error of the `url` crate.
#[verifier::external_type_specification]
#[verifier::external_body]
pub struct ExUrlParseError(url::ParseError);

/// What this crate reads off a parsed URL.
#[derive(Debug, PartialEq, Eq)]
pub struct UrlParts {
    /// The URL as the parser writes it out again.
    pub text: String,
    /// The host as the parser displays it, where the URL has one.
    pub host: Option<String>,
    /// The host as it stands in `text`, where the URL has one.
    pub host_str: Option<String>,
    /// The pairs of the query string, decoded, in their order.
    pub query_pairs: Vec<(String, String)>,
}

impl View for UrlParts {
    type V = (Seq<char>, Option<Seq<char>>, Option<Seq<char>>, Seq<(Seq<char>, Seq<char>)>);

    open spec fn view(&self) -> (
        Seq<char>,
        Option<Seq<char>>,
        Option<Seq<char>>,
        Seq<(Seq<char>, Seq<char>)>,
    ) {
        (
            self.text@,
            option_text(self.host),
            option_text(self.host_str),
            pair_texts(self.query_pairs@),
        )
    }
}

/// What `url::Url::parse` makes of a text: nothing where it rejects the
/// text, else the URL written out, its host as displayed, its host as
/// written, and its decoded query pairs.
pub uninterp spec fn parsed_url(text: Seq<char>) -> Option<
    (Seq<char>, Option<Seq<char>>, Option<Seq<char>>, Seq<(Seq<char>, Seq<char>)>),
>;

/// Calls `url::Url::parse` and reads off the result its `to_string`,
/// `host`, `host_str` and `query_pairs`. Trusted: the result is what
/// `parsed_url` names for this text, and an error comes exactly where
/// `parsed_url` is nothing.
#[verifier::external_body]
pub(crate) fn parse_url(text: &str) -> (r: Result<UrlParts, url::ParseError>)
    ensures
        match r {
            Ok(u) => parsed_url(text@) == Some(u@),
            Err(_) => parsed_url(text@).is_none(),
        },
{
    let url = url::Url::parse(text)?;
    Ok(
        UrlParts {
            text: url.to_string(),
            host: url.host().map(|h| h.to_string()),
            host_str: url.host_str().map(|h| h.to_string()),
            query_pairs: url.query_pairs().map(|(k, v)| (k.into_owned(), v.into_owned())).collect(),
        },
    )
}

} // verus!
