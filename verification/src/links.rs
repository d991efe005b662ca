//! URLs, as the `url` crate parses and joins them.

use crate::text::{opt_text, text_pairs, texts};
use vstd::prelude::*;

verus! {

/// The parts of a parsed URL that link resolution reads.
#[derive(Debug, Clone)]
pub struct UrlParts {
    /// Scheme, without the colon.
    pub scheme: String,
    /// Host, where the URL has one.
    pub host: Option<String>,
    /// Path, percent-encoded.
    pub path: String,
    /// Path segments, where the URL can be a base.
    pub segments: Option<Vec<String>>,
    /// Decoded query pairs, in order.
    pub query: Vec<(String, String)>,
}

/// Mathematical counterpart of [`UrlParts`].
pub struct UrlModel {
    pub scheme: Seq<char>,
    pub host: Option<Seq<char>>,
    pub path: Seq<char>,
    pub segments: Option<Seq<Seq<char>>>,
    pub query: Seq<(Seq<char>, Seq<char>)>,
}

impl View for UrlParts {
    type V = UrlModel;

    open spec fn view(&self) -> UrlModel {
        UrlModel {
            scheme: self.scheme@,
            host: opt_text(self.host),
            path: self.path@,
            segments: match self.segments {
                Some(v) => Some(texts(v@)),
                None => None,
            },
            query: text_pairs(self.query@),
        }
    }
}

/// What `url::Url::parse` makes of a text: the URL's parts, or the error's text.
pub uninterp spec fn url_parse(text: Seq<char>) -> Result<UrlModel, Seq<char>>;

/// What `url::Url::join` makes of a reference against a base, both given as
/// text; `None` where either is refused.
pub uninterp spec fn url_join(base: Seq<char>, reference: Seq<char>) -> Option<Seq<char>>;

/// `url::Url::parse`, with the parsed URL taken apart.
#[verifier::external_body]
pub(crate) fn parse_url(text: &str) -> (r: Result<UrlParts, String>)
    ensures
        match r {
            Ok(parts) => url_parse(text@) == Ok::<UrlModel, Seq<char>>(parts@),
            Err(message) => url_parse(text@) == Err::<UrlModel, Seq<char>>(message@),
        },
{
    let u = url::Url::parse(text).map_err(|e| e.to_string())?;
    Ok(UrlParts {
        scheme: u.scheme().to_string(),
        host: u.host_str().map(|h| h.to_string()),
        path: u.path().to_string(),
        segments: u.path_segments().map(|s| s.map(|p| p.to_string()).collect()),
        query: u.query_pairs().map(|(k, v)| (k.to_string(), v.to_string())).collect(),
    })
}

/// `url::Url::join`: resolves a reference against a base URL.
#[verifier::external_body]
pub(crate) fn join_url(base: &str, reference: &str) -> (r: Option<String>)
    ensures
        opt_text(r) == url_join(base@, reference@),
        r is Some ==> url_parse(base@) is Ok,
{
    let parsed = url::Url::parse(base).ok()?;
    parsed.join(reference).ok().map(|u| u.to_string())
}

} // verus!
