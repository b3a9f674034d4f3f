//! Normalisation and validation of what the user types into the address bar.

use vstd::prelude::*;
use vstd::string::StringExecFns;
use crate::text::{
    chars_of, contains, contains_char, decimal, decimal_digits, has_infix, lowercase, starts_with,
    string_of, to_lowercase, trim, trimmed,
};
use crate::web_url::{parsed_url, WebUrl, WebUrlView};

verus! {

/// Why an input is not navigated to.
#[derive(Debug, Clone, Copy, PartialEq, Eq, Structural)]
pub enum UrlError {
    /// The input is empty or blank.
    Empty,
    /// The input reads as a search query, not as an address.
    SearchQuery,
    /// The text is not an absolute URL.
    ParseFailed,
    /// `javascript:` URLs are blocked.
    BlockedJavascript,
    /// `file:` URLs are blocked.
    BlockedFile,
    /// The scheme is none of those the browser handles.
    UnsupportedScheme,
    /// A `data:` URL carries more than the allowed amount of data.
    DataTooLarge,
    /// An `http` or `https` URL has no host.
    MissingHost,
    /// The rebuilt text is not an absolute URL.
    InvalidNormalized,
}

impl UrlError {
    /// A short description.
    pub fn message(&self) -> (s: String)
        ensures
            s@ == match *self {
                UrlError::Empty => "Empty URL"@,
                UrlError::SearchQuery => "Search query detected"@,
                UrlError::ParseFailed => "Failed to parse URL"@,
                UrlError::BlockedJavascript => "javascript: URLs are blocked for security"@,
                UrlError::BlockedFile => "file: URLs are blocked for security"@,
                UrlError::UnsupportedScheme => "Unsupported URL scheme"@,
                UrlError::DataTooLarge => "Data URL too large"@,
                UrlError::MissingHost => "URL must have a host"@,
                UrlError::InvalidNormalized => "Failed to create normalized URL"@,
            },
    {
        match self {
            UrlError::Empty => String::from_str("Empty URL"),
            UrlError::SearchQuery => String::from_str("Search query detected"),
            UrlError::ParseFailed => String::from_str("Failed to parse URL"),
            UrlError::BlockedJavascript => String::from_str(
                "javascript: URLs are blocked for security",
            ),
            UrlError::BlockedFile => String::from_str("file: URLs are blocked for security"),
            UrlError::UnsupportedScheme => String::from_str("Unsupported URL scheme"),
            UrlError::DataTooLarge => String::from_str("Data URL too large"),
            UrlError::MissingHost => String::from_str("URL must have a host"),
            UrlError::InvalidNormalized => String::from_str("Failed to create normalized URL"),
        }
    }
}

/// Largest number of characters that a `data:` URL may carry.
pub const MAX_DATA_URL_LEN: usize = 10000000;

/// Whether a character is alphanumeric in the sense of
/// `char::is_alphanumeric`: a Unicode letter or number.
pub uninterp spec fn is_alphanumeric(c: char) -> bool;

/// `char::is_alphanumeric` tells Unicode letters and numbers from all
/// other characters. The contract only names the outcome.
pub assume_specification[ char::is_alphanumeric ](c: char) -> (r: bool)
    ensures
        r == is_alphanumeric(c),
;

/// A character that may occur in a domain name as the user types it.
pub open spec fn is_domain_char(c: char) -> bool {
    is_alphanumeric(c) || c == '.' || c == '-' || c == '_'
}

/// Whether a text looks like a domain name: it has a dot and is made of
/// letters, digits, dots, hyphens and underscores only.
pub open spec fn domain_like(s: Seq<char>) -> bool {
    s.contains('.') && forall|i: int| 0 <= i < s.len() ==> is_domain_char(#[trigger] s[i])
}

/// What is done with an input before any URL is parsed.
pub enum Candidate {
    /// A browser-internal `about:` address, used as it is.
    Internal(String),
    /// A text to be parsed as a URL.
    Address(String),
}

/// Mathematical value of a [`Candidate`].
pub enum CandidateView {
    Internal(Seq<char>),
    Address(Seq<char>),
}

impl View for Candidate {
    type V = CandidateView;

    open spec fn view(&self) -> CandidateView {
        match *self {
            Candidate::Internal(s) => CandidateView::Internal(s@),
            Candidate::Address(s) => CandidateView::Address(s@),
        }
    }
}

/// The first reading of an input: blank inputs and search queries are
/// turned away, `about:` addresses pass unchanged, and a text without
/// `://` gets `https://` in front.
pub open spec fn candidate_of(input: Seq<char>) -> Result<CandidateView, UrlError> {
    let t = trimmed(input);
    if t.len() == 0 {
        Err(UrlError::Empty)
    } else if "about:"@.is_prefix_of(t) {
        Ok(CandidateView::Internal(t))
    } else if has_infix(t, "://"@) {
        Ok(CandidateView::Address(t))
    } else if !t.contains('.') {
        Err(UrlError::SearchQuery)
    } else {
        Ok(CandidateView::Address("https://"@ + t))
    }
}

/// A path without its trailing slashes, except that a path of one
/// character is kept.
pub open spec fn trimmed_path(path: Seq<char>) -> Seq<char> {
    if path.len() > 1 && path.last() == '/' {
        path.take(path.len() - trailing_slashes(path))
    } else {
        path
    }
}

/// Number of `/` characters at the end of a text.
pub open spec fn trailing_slashes(s: Seq<char>) -> nat
    decreases s.len(),
{
    if s.len() > 0 && s.last() == '/' {
        1 + trailing_slashes(s.drop_last())
    } else {
        0
    }
}

/// The port that is written out: none for the default port of the scheme.
pub open spec fn written_port(scheme: Seq<char>, port: Option<u16>) -> Option<u16> {
    match port {
        Some(p) => if (scheme == "http"@ && p == 80) || (scheme == "https"@ && p == 443) {
            None
        } else {
            Some(p)
        },
        None => None,
    }
}

/// Which error, if any, the scheme of a URL to be normalised causes.
pub open spec fn scheme_verdict(scheme: Seq<char>) -> Option<UrlError> {
    if scheme == "http"@ || scheme == "https"@ || scheme == "about"@ || scheme == "data"@ {
        None
    } else if scheme == "javascript"@ {
        Some(UrlError::BlockedJavascript)
    } else if scheme == "file"@ {
        Some(UrlError::BlockedFile)
    } else {
        Some(UrlError::UnsupportedScheme)
    }
}

/// The text rebuilt from the parts of a URL: lower-case scheme and host,
/// no default port, no trailing slashes, the query kept.
pub open spec fn rebuilt_text(url: WebUrlView) -> Seq<char> {
    let scheme = lowercase(url.scheme);
    let host = match url.host {
        Some(h) => lowercase(h),
        None => Seq::empty(),
    };
    let base = scheme + "://"@ + host;
    let with_port = match written_port(scheme, url.port) {
        Some(p) => base.push(':') + decimal(p as nat),
        None => base,
    };
    let with_path = with_port + trimmed_path(url.path);
    match url.query {
        Some(q) => with_path.push('?') + q,
        None => with_path,
    }
}

/// The outcome of rebuilding a parsed URL.
pub open spec fn rebuilt(url: WebUrlView) -> Result<Seq<char>, UrlError> {
    match scheme_verdict(url.scheme) {
        Some(e) => Err(e),
        None => Ok(rebuilt_text(url)),
    }
}

/// The normal form of an input, given what the URL parser makes of texts.
pub open spec fn normalized(input: Seq<char>) -> Result<Seq<char>, UrlError> {
    match candidate_of(input) {
        Err(e) => Err(e),
        Ok(CandidateView::Internal(t)) => Ok(t),
        Ok(CandidateView::Address(t)) => match parsed_url(t) {
            None => Err(UrlError::ParseFailed),
            Some(url) => match rebuilt(url) {
                Err(e) => Err(e),
                Ok(text) => match parsed_url(text) {
                    None => Err(UrlError::InvalidNormalized),
                    Some(n) => Ok(n.href),
                },
            },
        },
    }
}

/// The verdict on a parsed URL before navigation.
pub open spec fn validated(url: WebUrlView) -> Result<(), UrlError> {
    if url.scheme == "javascript"@ {
        Err(UrlError::BlockedJavascript)
    } else if url.scheme == "file"@ {
        Err(UrlError::BlockedFile)
    } else if url.scheme == "data"@ {
        if "data:"@.is_prefix_of(url.path) && url.path.len() - "data:"@.len() > MAX_DATA_URL_LEN {
            Err(UrlError::DataTooLarge)
        } else {
            Ok(())
        }
    } else if url.scheme == "http"@ || url.scheme == "https"@ {
        if url.host is None {
            Err(UrlError::MissingHost)
        } else {
            Ok(())
        }
    } else {
        Err(UrlError::UnsupportedScheme)
    }
}

/// The search query that an input stands for, if it is one: inputs with
/// `://` and domain-like inputs are addresses; of the rest, those with a
/// space, and those without a dot that are no `about:` address, are queries.
pub open spec fn search_query_of(input: Seq<char>) -> Option<Seq<char>> {
    let t = trimmed(input);
    if has_infix(t, "://"@) || domain_like(t) {
        None
    } else if t.contains(' ') || (!t.contains('.') && !"about:"@.is_prefix_of(t)) {
        Some(t)
    } else {
        None
    }
}

/// Whether a text looks like a domain name.
pub fn is_domain_like(s: &str) -> (r: bool)
    ensures
        r == domain_like(s@),
{
    let chars = chars_of(s);
    chars_domain_like(chars.as_slice())
}

/// Whether a text looks like a domain name.
fn chars_domain_like(s: &[char]) -> (r: bool)
    ensures
        r == domain_like(s@),
{
    if !contains_char(s, '.') {
        return false;
    }
    let mut i: usize = 0;
    while i < s.len()
        invariant
            i <= s.len(),
            forall|j: int| 0 <= j < i ==> is_domain_char(#[trigger] s@[j]),
        decreases s.len() - i,
    {
        let c = s[i];
        if !(c.is_alphanumeric() || c == '.' || c == '-' || c == '_') {
            return false;
        }
        i += 1;
    }
    true
}

/// The first reading of an input.
pub fn candidate(input: &str) -> (r: Result<Candidate, UrlError>)
    ensures
        match r {
            Ok(c) => candidate_of(input@) == Ok::<CandidateView, UrlError>(c@),
            Err(e) => candidate_of(input@) == Err::<CandidateView, UrlError>(e),
        },
{
    let chars = chars_of(input);
    let t = trim(chars.as_slice());
    if t.len() == 0 {
        return Err(UrlError::Empty);
    }
    let about = chars_of("about:");
    if starts_with(t, about.as_slice()) {
        return Ok(Candidate::Internal(string_of(t)));
    }
    let sep = chars_of("://");
    if contains(t, sep.as_slice()) {
        return Ok(Candidate::Address(string_of(t)));
    }
    if !contains_char(t, '.') {
        return Err(UrlError::SearchQuery);
    }
    let mut text = String::from_str("https://");
    let rest = string_of(t);
    text.append(rest.as_str());
    Ok(Candidate::Address(text))
}

/// A path without its trailing slashes.
fn trim_path(path: &[char]) -> (r: &[char])
    ensures
        r@ == trimmed_path(path@),
{
    if !(path.len() > 1 && path[path.len() - 1] == '/') {
        return path;
    }
    let mut end: usize = path.len();
    assert(path@.take(end as int) =~= path@);
    while end > 0 && path[end - 1] == '/'
        invariant
            end <= path.len(),
            trailing_slashes(path@) == trailing_slashes(path@.take(end as int)) + (path.len()
                - end),
        decreases end,
    {
        assert(path@.take(end as int).drop_last() =~= path@.take(end - 1));
        end -= 1;
    }
    &path[0..end]
}

/// Rebuilds the text of a parsed URL in normal form, or says why its
/// scheme is not accepted.
pub fn rebuild(url: &WebUrl) -> (r: Result<String, UrlError>)
    ensures
        match r {
            Ok(text) => rebuilt(url@) == Ok::<Seq<char>, UrlError>(text@),
            Err(e) => rebuilt(url@) == Err::<Seq<char>, UrlError>(e),
        },
{
    let s = url.scheme.as_str();
    if !(*s == *"http" || *s == *"https" || *s == *"about" || *s == *"data") {
        if *s == *"javascript" {
            return Err(UrlError::BlockedJavascript);
        }
        if *s == *"file" {
            return Err(UrlError::BlockedFile);
        }
        return Err(UrlError::UnsupportedScheme);
    }
    let scheme_chars = chars_of(s);
    let scheme = string_of(to_lowercase(scheme_chars.as_slice()).as_slice());
    let host = match &url.host {
        Some(h) => {
            let host_chars = chars_of(h.as_str());
            string_of(to_lowercase(host_chars.as_slice()).as_slice())
        },
        None => String::new(),
    };
    let port: Option<u16> = match url.port {
        Some(p) => {
            if (*scheme.as_str() == *"http" && p == 80) || (*scheme.as_str() == *"https" && p
                == 443) {
                None
            } else {
                Some(p)
            }
        },
        None => None,
    };
    let mut text = scheme;
    text.append("://");
    text.append(host.as_str());
    if let Some(p) = port {
        text.push(':');
        let digits = decimal_digits(p as u64);
        let digits_text = string_of(digits.as_slice());
        text.append(digits_text.as_str());
    }
    let path_chars = chars_of(url.path.as_str());
    let path = string_of(trim_path(path_chars.as_slice()));
    text.append(path.as_str());
    if let Some(q) = &url.query {
        text.push('?');
        text.append(q.as_str());
    }
    proof {
        assert(text@ =~= rebuilt_text(url@));
    }
    Ok(text)
}

/// Finishes a normalisation with the re-parsed URL.
pub fn finish(reparsed: Option<WebUrl>) -> (r: Result<String, UrlError>)
    ensures
        match reparsed {
            Some(n) => r matches Ok(text) && text@ == n@.href,
            None => r == Err::<String, UrlError>(UrlError::InvalidNormalized),
        },
{
    match reparsed {
        Some(n) => Ok(n.href),
        None => Err(UrlError::InvalidNormalized),
    }
}

/// Turns what the user typed into the text of a URL in normal form.
///
/// Blank input, search queries, unparsable texts and schemes other than
/// `http`, `https`, `about` and `data` are errors.
pub fn normalize_url(input: &str) -> (r: Result<String, UrlError>)
    ensures
        match r {
            Ok(text) => normalized(input@) == Ok::<Seq<char>, UrlError>(text@),
            Err(e) => normalized(input@) == Err::<Seq<char>, UrlError>(e),
        },
{
    let text = match candidate(input) {
        Err(e) => {
            return Err(e);
        },
        Ok(Candidate::Internal(t)) => {
            return Ok(t);
        },
        Ok(Candidate::Address(t)) => t,
    };
    let url = match WebUrl::parse(text.as_str()) {
        Some(u) => u,
        None => {
            return Err(UrlError::ParseFailed);
        },
    };
    let rebuilt_text = match rebuild(&url) {
        Ok(t) => t,
        Err(e) => {
            return Err(e);
        },
    };
    finish(WebUrl::parse(rebuilt_text.as_str()))
}

/// Checks a parsed URL before navigation.
pub fn validate_parsed(url: &WebUrl) -> (r: Result<(), UrlError>)
    ensures
        r == validated(url@),
{
    let s = url.scheme.as_str();
    if *s == *"javascript" {
        Err(UrlError::BlockedJavascript)
    } else if *s == *"file" {
        Err(UrlError::BlockedFile)
    } else if *s == *"data" {
        let path = chars_of(url.path.as_str());
        let prefix = chars_of("data:");
        if starts_with(path.as_slice(), prefix.as_slice()) && path.len() - prefix.len()
            > MAX_DATA_URL_LEN {
            Err(UrlError::DataTooLarge)
        } else {
            Ok(())
        }
    } else if *s == *"http" || *s == *"https" {
        if url.host.is_none() {
            Err(UrlError::MissingHost)
        } else {
            Ok(())
        }
    } else {
        Err(UrlError::UnsupportedScheme)
    }
}

/// Checks the text of a URL before navigation: it must parse, and the
/// parsed URL must pass `validate_parsed`.
pub fn validate_url(url: &str) -> (r: Result<(), UrlError>)
    ensures
        r == match parsed_url(url@) {
            Some(u) => validated(u),
            None => Err(UrlError::ParseFailed),
        },
{
    match WebUrl::parse(url) {
        Some(u) => validate_parsed(&u),
        None => Err(UrlError::ParseFailed),
    }
}

/// The text of a query as `url::form_urlencoded::byte_serialize` writes
/// it for use in a URL.
pub uninterp spec fn form_urlencoded(text: Seq<char>) -> Seq<char>;

/// Calls `url::form_urlencoded::byte_serialize` on the UTF-8 bytes of
/// `text` and joins the pieces. The contract only names the outcome.
#[verifier::external_body]
fn form_urlencode(text: &str) -> (r: String)
    ensures
        r@ == form_urlencoded(text@),
{
    url::form_urlencoded::byte_serialize(text.as_bytes()).collect()
}

/// The address of the search page for a query, given its encoded form. A
/// query that begins with `http` is taken as an address itself.
pub open spec fn search_address(query: Seq<char>, encoded: Seq<char>) -> Seq<char> {
    if "http"@.is_prefix_of(query) {
        query
    } else {
        "https://www.google.com/search?q="@ + encoded
    }
}

/// Builds the address of the search page from a query and its encoded form.
pub fn search_address_for(query: &str, encoded: &str) -> (r: String)
    ensures
        r@ == search_address(query@, encoded@),
{
    let q = chars_of(query);
    let http = chars_of("http");
    if starts_with(q.as_slice(), http.as_slice()) {
        string_of(q.as_slice())
    } else {
        let mut r = String::from_str("https://www.google.com/search?q=");
        r.append(encoded);
        r
    }
}

/// The address to open for a search query.
pub fn search_url(query: &str) -> (r: String)
    ensures
        r@ == search_address(query@, form_urlencoded(query@)),
{
    let encoded = form_urlencode(query);
    search_address_for(query, encoded.as_str())
}

/// What to do with an input of the address bar.
#[derive(Debug)]
pub enum Navigation {
    /// Open this address.
    Open(String),
    /// Search for this query.
    Search(String),
    /// Do nothing, for this reason.
    Refuse(UrlError),
}

/// Mathematical value of a [`Navigation`].
pub enum NavigationView {
    Open(Seq<char>),
    Search(Seq<char>),
    Refuse(UrlError),
}

impl View for Navigation {
    type V = NavigationView;

    open spec fn view(&self) -> NavigationView {
        match *self {
            Navigation::Open(u) => NavigationView::Open(u@),
            Navigation::Search(q) => NavigationView::Search(q@),
            Navigation::Refuse(e) => NavigationView::Refuse(e),
        }
    }
}

/// The decision for an input, given its normal form and, where that form
/// is an address, the verdict on it: an address that passes is opened; an
/// input that has no normal form but reads as a query is searched for;
/// everything else is refused.
pub open spec fn navigation_for(
    input: Seq<char>,
    normal: Result<Seq<char>, UrlError>,
    verdict: Result<(), UrlError>,
) -> NavigationView {
    match normal {
        Ok(url) => match verdict {
            Ok(()) => NavigationView::Open(url),
            Err(e) => NavigationView::Refuse(e),
        },
        Err(e) => match search_query_of(input) {
            Some(q) => NavigationView::Search(q),
            None => NavigationView::Refuse(e),
        },
    }
}

/// Decides what to do with an input whose normal form is `normal` and
/// whose validation, if it has a normal form, gave `verdict`.
pub fn decide_navigation(
    input: &str,
    normal: Result<String, UrlError>,
    verdict: Result<(), UrlError>,
) -> (r: Navigation)
    ensures
        r@ == navigation_for(
            input@,
            match normal {
                Ok(u) => Ok(u@),
                Err(e) => Err(e),
            },
            verdict,
        ),
{
    match normal {
        Ok(url) => match verdict {
            Ok(()) => Navigation::Open(url),
            Err(e) => Navigation::Refuse(e),
        },
        Err(e) => match extract_search_query(input) {
            Some(q) => Navigation::Search(q),
            None => Navigation::Refuse(e),
        },
    }
}

/// Decides what to do with an input of the address bar: it is
/// normalised and, if that succeeds, validated.
pub fn plan_navigation(input: &str) -> (r: Navigation)
    ensures
        r@ == navigation_for(
            input@,
            normalized(input@),
            match normalized(input@) {
                Ok(u) => match parsed_url(u) {
                    Some(p) => validated(p),
                    None => Err(UrlError::ParseFailed),
                },
                Err(e) => Ok(()),
            },
        ),
{
    let normal = normalize_url(input);
    let verdict = match &normal {
        Ok(u) => validate_url(u.as_str()),
        Err(_) => Ok(()),
    };
    decide_navigation(input, normal, verdict)
}

/// The search query that an input stands for, if it is one.
pub fn extract_search_query(input: &str) -> (r: Option<String>)
    ensures
        match r {
            Some(q) => search_query_of(input@) == Some(q@),
            None => search_query_of(input@) is None,
        },
{
    let chars = chars_of(input);
    let t = trim(chars.as_slice());
    let sep = chars_of("://");
    if contains(t, sep.as_slice()) || chars_domain_like(t) {
        return None;
    }
    let about = chars_of("about:");
    if contains_char(t, ' ') || (!contains_char(t, '.') && !starts_with(t, about.as_slice())) {
        return Some(string_of(t));
    }
    None
}

} // verus!
