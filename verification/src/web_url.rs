//! A parsed URL held as plain values.
//!
//! Parsing is delegated to the `url` crate; everything that reads a URL
//! afterwards works on the parts kept here.

use vstd::prelude::*;

verus! {

/// The parts of an absolute URL that the rest of the library reads.
#[derive(Debug)]
pub struct WebUrl {
    /// Scheme without the trailing colon, e.g. `https`.
    pub scheme: String,
    /// Host as text, absent for URLs such as `data:` or `about:`.
    pub host: Option<String>,
    /// Port, when one is written and differs from the scheme's default.
    pub port: Option<u16>,
    /// Path component.
    pub path: String,
    /// Query string without the leading `?`.
    pub query: Option<String>,
    /// The full serialised URL.
    pub href: String,
}

/// Mathematical value of a [`WebUrl`].
pub struct WebUrlView {
    pub scheme: Seq<char>,
    pub host: Option<Seq<char>>,
    pub port: Option<u16>,
    pub path: Seq<char>,
    pub query: Option<Seq<char>>,
    pub href: Seq<char>,
}

impl View for WebUrl {
    type V = WebUrlView;

    open spec fn view(&self) -> WebUrlView {
        WebUrlView {
            scheme: self.scheme@,
            host: match self.host {
                Some(h) => Some(h@),
                None => None,
            },
            port: self.port,
            path: self.path@,
            query: match self.query {
                Some(q) => Some(q@),
                None => None,
            },
            href: self.href@,
        }
    }
}

/// What `url::Url::parse` makes of a text: the parts of the URL, or `None`
/// when the text is not an absolute URL.
pub uninterp spec fn parsed_url(input: Seq<char>) -> Option<WebUrlView>;

/// Calls `url::Url::parse` and copies out scheme, host, port, path, query
/// and serialisation. The contract only names the outcome: it is whatever
/// the `url` crate decides for this text.
#[verifier::external_body]
fn parse_with_url_crate(input: &str) -> (res: Option<WebUrl>)
    ensures
        match res {
            Some(u) => parsed_url(input@) == Some(u@),
            None => parsed_url(input@) is None,
        },
{
    match url::Url::parse(input) {
        Ok(u) => Some(WebUrl {
            scheme: u.scheme().to_string(),
            host: u.host_str().map(str::to_string),
            port: u.port(),
            path: u.path().to_string(),
            query: u.query().map(str::to_string),
            href: u.as_str().to_string(),
        }),
        Err(_) => None,
    }
}

impl WebUrl {
    /// Parses an absolute URL.
    pub fn parse(input: &str) -> (res: Option<WebUrl>)
        ensures
            match res {
                Some(u) => parsed_url(input@) == Some(u@),
                None => parsed_url(input@) is None,
            },
    {
        parse_with_url_crate(input)
    }

    /// Scheme of the URL.
    pub fn scheme(&self) -> (s: &str)
        ensures
            s@ == self@.scheme,
    {
        self.scheme.as_str()
    }

    /// Host as text, if the URL has one.
    pub fn host_str(&self) -> (h: Option<&str>)
        ensures
            match h {
                Some(s) => self@.host == Some(s@),
                None => self@.host is None,
            },
    {
        match &self.host {
            Some(h) => Some(h.as_str()),
            None => None,
        }
    }

    /// Path of the URL.
    pub fn path(&self) -> (p: &str)
        ensures
            p@ == self@.path,
    {
        self.path.as_str()
    }

    /// The serialised URL.
    pub fn as_str(&self) -> (s: &str)
        ensures
            s@ == self@.href,
    {
        self.href.as_str()
    }

    /// Whether the URL was fetched over TLS.
    pub fn is_secure(&self) -> (b: bool)
        ensures
            b == is_secure_scheme(self@.scheme),
    {
        *self.scheme.as_str() == *"https"
    }
}

/// A scheme that implies transport over TLS.
pub open spec fn is_secure_scheme(scheme: Seq<char>) -> bool {
    scheme == "https"@
}

} // verus!
