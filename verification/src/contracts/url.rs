//! What the engine reads of a service URL.
use crate::text::same_text;
use vstd::prelude::*;

verus! {

/// The parts of a URL that decide whether it can name a service.
#[derive(Debug, Clone, Copy, PartialEq, Eq, Structural)]
pub struct UrlParts {
    /// The scheme is `http` or `https`.
    pub web: bool,
    pub host: bool,
    /// A user name or a password.
    pub credentials: bool,
    pub query: bool,
    pub fragment: bool,
}

/// What the URL parser makes of a text: nothing where it is no absolute URL.
pub uninterp spec fn parsed_url(text: Seq<char>) -> Option<(
    Seq<char>,
    bool,
    Seq<char>,
    bool,
    bool,
    bool,
)>;

/// Calls `reqwest::Url::parse` (the `url` crate) and its accessors `scheme`, `host_str`,
/// `username`, `password`, `query` and `fragment`: scheme, whether there is a host, user name,
/// whether there is a password, a query, a fragment. They are a function of the text.
#[verifier::external_body]
fn read_url(text: &str) -> (r: Option<(String, bool, String, bool, bool, bool)>)
    ensures
        (match r {
            Some(u) => parsed_url(text@) == Some((u.0@, u.1, u.2@, u.3, u.4, u.5)),
            None => parsed_url(text@) is None,
        }),
{
    match reqwest::Url::parse(text) {
        Ok(u) => Some((
            u.scheme().to_owned(),
            u.host_str().is_some(),
            u.username().to_owned(),
            u.password().is_some(),
            u.query().is_some(),
            u.fragment().is_some(),
        )),
        Err(_) => None,
    }
}

/// The parts of the URL that a text is.
pub open spec fn url_parts(text: Seq<char>) -> Option<UrlParts> {
    match parsed_url(text) {
        Some(u) => Some(
            UrlParts {
                web: u.0 == "http"@ || u.0 == "https"@,
                host: u.1,
                credentials: u.2.len() > 0 || u.3,
                query: u.4,
                fragment: u.5,
            },
        ),
        None => None,
    }
}

/// Reads a URL.
pub fn parse_url(text: &str) -> (r: Option<UrlParts>)
    ensures
        r == url_parts(text@),
{
    match read_url(text) {
        Some(u) => Some(
            UrlParts {
                web: same_text(u.0.as_str(), "http") || same_text(u.0.as_str(), "https"),
                host: u.1,
                credentials: !u.2.as_str().is_empty() || u.3,
                query: u.4,
                fragment: u.5,
            },
        ),
        None => None,
    }
}

/// What is read of a URL: it is of the web where its scheme is `http` or `https`, and it has
/// credentials where it has a user name or a password.
pub proof fn lemma_url_parts(text: Seq<char>)
    ensures
        url_parts(text) is None <==> parsed_url(text) is None,
        parsed_url(text) matches Some(u) ==> {
            let parts = url_parts(text)->0;
            &&& parts.web <==> u.0 == "http"@ || u.0 == "https"@
            &&& parts.host == u.1
            &&& parts.credentials <==> u.2.len() > 0 || u.3
            &&& parts.query == u.4
            &&& parts.fragment == u.5
        },
{
}

} // verus!
