//! Parsing of URLs by the `url` crate.
use vstd::prelude::*;

verus! {

/// What `url::Url::parse` makes of `text`: the URL's serialization, its
/// scheme, its host (where it has one) and its explicit port; `None` where
/// it refuses the text.
pub uninterp spec fn url_parse(text: Seq<char>) -> Option<(Seq<char>, Seq<char>, Option<Seq<char>>, Option<u16>)>;

/// The serialization of the URL that `url::Url::parse` makes of `text`.
pub open spec fn parsed_url(text: Seq<char>) -> Option<Seq<char>> {
    match url_parse(text) {
        Some(u) => Some(u.0),
        None => None,
    }
}

/// The scheme, host and explicit port of the URL that `url::Url::parse`
/// makes of `text`.
pub open spec fn url_parts(text: Seq<char>) -> Option<(Seq<char>, Option<Seq<char>>, Option<u16>)> {
    match url_parse(text) {
        Some(u) => Some((u.1, u.2, u.3)),
        None => None,
    }
}

/// The view of an optional text.
pub open spec fn opt_view(t: Option<String>) -> Option<Seq<char>> {
    match t {
        Some(s) => Some(s@),
        None => None,
    }
}

/// A URL as the `url` crate parsed it.
pub(crate) struct ParsedUrl {
    /// The serialization (`Url::as_str`).
    pub(crate) text: String,
    pub(crate) scheme: String,
    /// The host (`Url::host_str`), where the URL has one.
    pub(crate) host: Option<String>,
    /// The explicit port (`Url::port`), none where it is the scheme's
    /// default.
    pub(crate) port: Option<u16>,
}

/// Parses an absolute URL (`url::Url::parse`) and gives its serialization,
/// scheme, host and explicit port. The result is named `url_parse` of the
/// text; nothing more is stated of it.
#[verifier::external_body]
pub(crate) fn parse_url_full(text: &str) -> (r: Option<ParsedUrl>)
    ensures
        url_parse(text@) == match r {
            Some(u) => Some((u.text@, u.scheme@, opt_view(u.host), u.port)),
            None => None,
        },
{
    let u = match url::Url::parse(text) {
        Ok(u) => u,
        Err(_) => return None,
    };
    let host = match u.host_str() {
        Some(h) => Some(h.to_string()),
        None => None,
    };
    Some(ParsedUrl { text: u.as_str().to_string(), scheme: u.scheme().to_string(), host, port: u.port() })
}

/// The serialization of the URL that `text` parses to, if it parses.
pub(crate) fn parse_url(text: &str) -> (r: Option<String>)
    ensures
        parsed_url(text@) == match r {
            Some(u) => Some(u@),
            None => None,
        },
{
    match parse_url_full(text) {
        Some(u) => Some(u.text),
        None => None,
    }
}

} // verus!
