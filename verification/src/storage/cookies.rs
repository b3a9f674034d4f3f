//! The cookie jar: parsing of `Set-Cookie` texts, the security policy
//! applied when a cookie is stored, and the selection of the cookies that
//! accompany a request.

use vstd::prelude::*;
use vstd::string::StringExecFns;
use crate::clock::{now_millis, parse_rfc2822, rfc2822_millis};
use crate::storage::error::StorageError;
use crate::text::{
    chars_of, ends_with, find, lowercase, position, same_chars, split, split_on, starts_with,
    string_of, to_lowercase, trim, trimmed, views,
};
use crate::web_url::{is_secure_scheme, WebUrl, WebUrlView};

verus! {

/// A cookie set over TLS is stored with its `secure` flag on, whether or
/// not the server sent the `Secure` attribute.
pub const UPGRADE_SECURE_ON_TLS: bool = true;

/// Restriction on sending a cookie with cross-site requests.
#[derive(Debug, Clone, Copy, PartialEq, Eq, Structural)]
pub enum SameSite {
    /// Written `None` in a `Set-Cookie` text: sent with every request.
    Unrestricted,
    Lax,
    Strict,
}

/// One cookie. The key of a cookie is `(name, domain, path)`.
#[derive(Debug)]
pub struct CookieEntry {
    pub name: String,
    pub value: String,
    pub domain: String,
    pub path: String,
    /// Expiry in milliseconds since the epoch; `None` for a session cookie.
    pub expires_at: Option<i64>,
    pub secure: bool,
    pub http_only: bool,
    pub same_site: SameSite,
    pub created_at: i64,
    pub last_accessed: i64,
}

/// Mathematical value of a [`CookieEntry`].
pub struct CookieView {
    pub name: Seq<char>,
    pub value: Seq<char>,
    pub domain: Seq<char>,
    pub path: Seq<char>,
    pub expires_at: Option<i64>,
    pub secure: bool,
    pub http_only: bool,
    pub same_site: SameSite,
    pub created_at: i64,
    pub last_accessed: i64,
}

impl View for CookieEntry {
    type V = CookieView;

    open spec fn view(&self) -> CookieView {
        CookieView {
            name: self.name@,
            value: self.value@,
            domain: self.domain@,
            path: self.path@,
            expires_at: self.expires_at,
            secure: self.secure,
            http_only: self.http_only,
            same_site: self.same_site,
            created_at: self.created_at,
            last_accessed: self.last_accessed,
        }
    }
}

/// The `;`-separated pieces of a `Set-Cookie` text, each trimmed. The
/// first piece is the `name=value` pair, the others are attributes.
pub open spec fn header_parts(header: Seq<char>) -> Seq<Seq<char>> {
    let raw = split(header, ';');
    Seq::new(raw.len(), |i: int| trimmed(raw[i]))
}

/// The text after `key` in the last attribute among `parts[1..n]` that
/// begins with `key`, compared without regard to ASCII case.
pub open spec fn attribute_value(parts: Seq<Seq<char>>, key: Seq<char>, n: int) -> Option<
    Seq<char>,
>
    decreases n,
{
    if n <= 1 {
        None
    } else if key.is_prefix_of(lowercase(parts[n - 1])) {
        Some(parts[n - 1].skip(key.len() as int))
    } else {
        attribute_value(parts, key, n - 1)
    }
}

/// Whether one of the attributes `parts[1..n]` is exactly `flag`, compared
/// without regard to ASCII case.
pub open spec fn has_flag(parts: Seq<Seq<char>>, flag: Seq<char>, n: int) -> bool
    decreases n,
{
    n > 1 && (lowercase(parts[n - 1]) == flag || has_flag(parts, flag, n - 1))
}

/// The `SameSite` value written as `text`; anything unknown reads as `Lax`.
pub open spec fn same_site_of(text: Seq<char>) -> SameSite {
    let t = lowercase(trimmed(text));
    if t == "none"@ {
        SameSite::Unrestricted
    } else if t == "strict"@ {
        SameSite::Strict
    } else {
        SameSite::Lax
    }
}

/// The value that is stored for a requested `SameSite`: an unrestricted
/// cookie is downgraded to `Lax`.
pub open spec fn stored_same_site(requested: SameSite) -> SameSite {
    match requested {
        SameSite::Unrestricted => SameSite::Lax,
        s => s,
    }
}

/// Whether a `Set-Cookie` text has a `name=value` pair.
pub open spec fn is_well_formed(header: Seq<char>) -> bool {
    let first = header_parts(header)[0];
    position(first, '=') < first.len()
}

/// The raw text of the `Expires` attribute, if there is one.
pub open spec fn expires_text(header: Seq<char>) -> Option<Seq<char>> {
    let parts = header_parts(header);
    match attribute_value(parts, "expires="@, parts.len() as int) {
        Some(v) => Some(trimmed(v)),
        None => None,
    }
}

/// The cookie that a `Set-Cookie` text received for `url` at time `now`
/// describes, given the already decoded expiry.
///
/// `Domain` defaults to the request host and `Path` to `/`. For a request
/// over TLS the cookie is secure whatever the text says.
pub open spec fn cookie_of(
    header: Seq<char>,
    url: WebUrlView,
    expires_at: Option<i64>,
    now: i64,
) -> CookieView
    recommends
        is_well_formed(header),
{
    let parts = header_parts(header);
    let n = parts.len() as int;
    let first = parts[0];
    let eq = position(first, '=') as int;
    CookieView {
        name: trimmed(first.subrange(0, eq)),
        value: trimmed(first.subrange(eq + 1, first.len() as int)),
        domain: match attribute_value(parts, "domain="@, n) {
            Some(v) => trimmed(v),
            None => match url.host {
                Some(h) => h,
                None => Seq::empty(),
            },
        },
        path: match attribute_value(parts, "path="@, n) {
            Some(v) => trimmed(v),
            None => "/"@,
        },
        expires_at,
        secure: has_flag(parts, "secure"@, n) || (UPGRADE_SECURE_ON_TLS && is_secure_scheme(
            url.scheme,
        )),
        http_only: has_flag(parts, "httponly"@, n),
        same_site: match attribute_value(parts, "samesite="@, n) {
            Some(v) => same_site_of(v),
            None => SameSite::Lax,
        },
        created_at: now,
        last_accessed: now,
    }
}

/// Reads a `SameSite` value.
fn parse_same_site(text: &[char]) -> (s: SameSite)
    ensures
        s == same_site_of(text@),
{
    let lower = to_lowercase(trim(text));
    let none = chars_of("none");
    let strict = chars_of("strict");
    if same_chars(lower.as_slice(), none.as_slice()) {
        SameSite::Unrestricted
    } else if same_chars(lower.as_slice(), strict.as_slice()) {
        SameSite::Strict
    } else {
        SameSite::Lax
    }
}

/// The trimmed pieces of a `Set-Cookie` text.
fn split_header(header: &str) -> (parts: Vec<Vec<char>>)
    ensures
        views(parts@) == header_parts(header@),
        parts.len() >= 1,
{
    let chars = chars_of(header);
    let raw = split_on(chars.as_slice(), ';');
    proof {
        crate::text::lemma_split_pieces(header@, ';');
    }
    let mut parts: Vec<Vec<char>> = Vec::new();
    let mut i: usize = 0;
    while i < raw.len()
        invariant
            i <= raw.len(),
            views(raw@) == split(header@, ';'),
            parts.len() == i,
            forall|k: int| 0 <= k < i ==> (#[trigger] parts@[k])@ == trimmed(raw@[k]@),
        decreases raw.len() - i,
    {
        let piece = crate::text::to_vec(trim(raw[i].as_slice()));
        parts.push(piece);
        i += 1;
    }
    proof {
        assert forall|k: int| 0 <= k < parts.len() implies views(parts@)[k] == header_parts(
            header@,
        )[k] by {
            assert(views(raw@)[k] == raw@[k]@);
        }
        assert(views(parts@) =~= header_parts(header@));
    }
    parts
}

/// The attribute value for `key` among the first `parts.len()` pieces.
fn find_attribute<'a>(parts: &'a Vec<Vec<char>>, key: &str) -> (r: Option<&'a [char]>)
    ensures
        match r {
            Some(v) => attribute_value(views(parts@), key@, parts.len() as int) == Some(v@),
            None => attribute_value(views(parts@), key@, parts.len() as int) is None,
        },
{
    let k = chars_of(key);
    let mut i: usize = parts.len();
    while i > 1
        invariant
            i <= parts.len(),
            k@ == key@,
            attribute_value(views(parts@), key@, parts.len() as int) == attribute_value(
                views(parts@),
                key@,
                i as int,
            ),
        decreases i,
    {
        let part = parts[i - 1].as_slice();
        let lower = to_lowercase(part);
        assert(views(parts@)[i - 1] == part@);
        if starts_with(lower.as_slice(), k.as_slice()) {
            let rest = &part[k.len()..part.len()];
            assert(rest@ =~= part@.skip(k@.len() as int));
            return Some(rest);
        }
        i -= 1;
    }
    None
}

/// Whether `flag` is among the attributes.
fn find_flag(parts: &Vec<Vec<char>>, flag: &str) -> (r: bool)
    ensures
        r == has_flag(views(parts@), flag@, parts.len() as int),
{
    let f = chars_of(flag);
    let mut i: usize = parts.len();
    while i > 1
        invariant
            i <= parts.len(),
            f@ == flag@,
            has_flag(views(parts@), flag@, parts.len() as int) == has_flag(
                views(parts@),
                flag@,
                i as int,
            ),
        decreases i,
    {
        let lower = to_lowercase(parts[i - 1].as_slice());
        assert(views(parts@)[i - 1] == parts@[i - 1]@);
        if same_chars(lower.as_slice(), f.as_slice()) {
            return true;
        }
        i -= 1;
    }
    false
}

/// The text of the `Expires` attribute of a `Set-Cookie` text.
pub fn expires_attribute(header: &str) -> (r: Option<String>)
    ensures
        match r {
            Some(t) => expires_text(header@) == Some(t@),
            None => expires_text(header@) is None,
        },
{
    let parts = split_header(header);
    match find_attribute(&parts, "expires=") {
        Some(v) => Some(string_of(trim(v))),
        None => None,
    }
}

/// Builds the cookie that `header` describes for a response from `url`
/// received at `now`, with the expiry already decoded.
///
/// Fails with `ParseError` exactly when the text has no `name=value` pair.
pub fn cookie_from_header(
    header: &str,
    url: &WebUrl,
    expires_at: Option<i64>,
    now: i64,
) -> (r: Result<CookieEntry, StorageError>)
    ensures
        match r {
            Ok(c) => is_well_formed(header@) && c@ == cookie_of(header@, url@, expires_at, now),
            Err(e) => !is_well_formed(header@) && e == StorageError::ParseError,
        },
{
    let parts = split_header(header);
    let first = parts[0].as_slice();
    assert(views(parts@)[0] == first@);
    let eq = find(first, '=');
    if eq >= first.len() {
        return Err(StorageError::ParseError);
    }
    let name = string_of(trim(&first[0..eq]));
    let value = string_of(trim(&first[eq + 1..first.len()]));
    let domain = match find_attribute(&parts, "domain=") {
        Some(v) => string_of(trim(v)),
        None => match &url.host {
            Some(h) => h.clone(),
            None => String::new(),
        },
    };
    let path = match find_attribute(&parts, "path=") {
        Some(v) => string_of(trim(v)),
        None => String::from_str("/"),
    };
    let secure = find_flag(&parts, "secure") || (UPGRADE_SECURE_ON_TLS && url.is_secure());
    let http_only = find_flag(&parts, "httponly");
    let same_site = match find_attribute(&parts, "samesite=") {
        Some(v) => parse_same_site(v),
        None => SameSite::Lax,
    };
    Ok(
        CookieEntry {
            name,
            value,
            domain,
            path,
            expires_at,
            secure,
            http_only,
            same_site,
            created_at: now,
            last_accessed: now,
        },
    )
}


/// Whether two cookies have the same `(name, domain, path)` key.
pub open spec fn same_key(a: CookieView, b: CookieView) -> bool {
    a.name == b.name && a.domain == b.domain && a.path == b.path
}

/// No two rows share a key.
pub open spec fn unique_keys(rows: Seq<CookieView>) -> bool {
    forall|i: int, j: int| 0 <= i < j < rows.len() ==> !same_key(rows[i], rows[j])
}

/// The cookie as it is stored: `SameSite` downgraded where required.
pub open spec fn stored_form(c: CookieView) -> CookieView {
    CookieView { same_site: stored_same_site(c.same_site), ..c }
}

/// The rows after `c` has been written: every row with another key, in
/// their old order, followed by `c`.
pub open spec fn upsert(rows: Seq<CookieView>, c: CookieView) -> Seq<CookieView> {
    rows.filter(|r: CookieView| !same_key(r, c)).push(c)
}

/// Whether a cookie's domain covers a request host: the two are equal, or
/// the domain starts with a dot and the host ends with it or is the
/// domain without that dot.
pub open spec fn domain_matches(domain: Seq<char>, host: Seq<char>) -> bool {
    domain == host || (domain.len() > 0 && domain[0] == '.' && (domain.is_suffix_of(host)
        || domain.skip(1) == host))
}

/// A cookie whose expiry lies strictly before `now`.
pub open spec fn is_expired(c: CookieView, now: i64) -> bool {
    c.expires_at matches Some(e) && e < now
}

/// Whether a cookie is sent with a request to `host` and `path` at `now`.
/// A secure cookie is sent only with a secure request.
pub open spec fn applies(
    c: CookieView,
    host: Seq<char>,
    path: Seq<char>,
    secure_request: bool,
    now: i64,
) -> bool {
    &&& domain_matches(c.domain, host)
    &&& c.path.is_prefix_of(path)
    &&& (c.expires_at matches Some(e) ==> e > now)
    &&& (c.secure ==> secure_request)
}

/// The `name=value` text of a cookie.
pub open spec fn cookie_text(c: CookieView) -> Seq<char> {
    c.name.push('=') + c.value
}

/// The texts sent with a request, in row order.
pub open spec fn request_cookies(
    rows: Seq<CookieView>,
    host: Seq<char>,
    path: Seq<char>,
    secure_request: bool,
    now: i64,
) -> Seq<Seq<char>> {
    rows.filter(|c: CookieView| applies(c, host, path, secure_request, now)).map_values(
        |c: CookieView| cookie_text(c),
    )
}

/// The rows after a request: every cookie that was sent has `now` as its
/// last access, the others are unchanged.
pub open spec fn touched(
    rows: Seq<CookieView>,
    host: Seq<char>,
    path: Seq<char>,
    secure_request: bool,
    now: i64,
) -> Seq<CookieView> {
    Seq::new(
        rows.len(),
        |i: int|
            if applies(rows[i], host, path, secure_request, now) {
                CookieView { last_accessed: now, ..rows[i] }
            } else {
                rows[i]
            },
    )
}

/// The rows that an expiry sweep at `now` keeps.
pub open spec fn without_expired(rows: Seq<CookieView>, now: i64) -> Seq<CookieView> {
    rows.filter(|c: CookieView| !is_expired(c, now))
}

/// The views of a sequence of cookies.
pub open spec fn cookie_views(rows: Seq<CookieEntry>) -> Seq<CookieView> {
    Seq::new(rows.len(), |i: int| rows[i]@)
}

/// Filtering keeps keys unique.
pub proof fn lemma_filter_unique(rows: Seq<CookieView>, p: spec_fn(CookieView) -> bool)
    requires
        unique_keys(rows),
    ensures
        unique_keys(rows.filter(p)),
{
    crate::seq_lemmas::lemma_filter_origin(rows, p);
    let f = rows.filter(p);
    assert forall|i: int, j: int| 0 <= i < j < f.len() implies !same_key(f[i], f[j]) by {
        let (a, b) = choose|a: int, b: int|
            0 <= a < b < rows.len() && rows[a] == f[i] && rows[b] == f[j];
        assert(!same_key(rows[a], rows[b]));
    }
}

/// Writing a cookie leaves exactly one row with its key, the cookie
/// itself, and keeps all keys unique.
pub proof fn lemma_upsert_single(rows: Seq<CookieView>, c: CookieView)
    requires
        unique_keys(rows),
    ensures
        unique_keys(upsert(rows, c)),
        upsert(rows, c).last() == c,
        forall|i: int|
            0 <= i < upsert(rows, c).len() && same_key(#[trigger] upsert(rows, c)[i], c) ==> i
                == upsert(rows, c).len() - 1,
{
    let p = |r: CookieView| !same_key(r, c);
    lemma_filter_unique(rows, p);
    crate::seq_lemmas::lemma_filter_origin(rows, p);
    let f = rows.filter(p);
    let u = upsert(rows, c);
    assert forall|i: int, j: int| 0 <= i < j < u.len() implies !same_key(u[i], u[j]) by {
        if j == u.len() - 1 {
            assert(p(f[i]));
        }
    }
    assert forall|i: int| 0 <= i < u.len() && same_key(#[trigger] u[i], c) implies i == u.len()
        - 1 by {
        if i < u.len() - 1 {
            assert(p(f[i]));
        }
    }
}

/// A cookie stored from a response over TLS is never sent with a request
/// that is not secure.
pub proof fn lemma_tls_cookie_stays_on_tls(
    header: Seq<char>,
    url: WebUrlView,
    expires_at: Option<i64>,
    set_at: i64,
    host: Seq<char>,
    path: Seq<char>,
    now: i64,
)
    requires
        is_secure_scheme(url.scheme),
    ensures
        stored_form(cookie_of(header, url, expires_at, set_at)).secure,
        !applies(stored_form(cookie_of(header, url, expires_at, set_at)), host, path, false, now),
{
}

/// A session cookie set without `Domain` and `Path` over TLS comes back
/// with every later request over TLS to the same host, whatever the path.
pub proof fn lemma_cookie_round_trip(
    rows: Seq<CookieView>,
    header: Seq<char>,
    url: WebUrlView,
    set_at: i64,
    request: WebUrlView,
    now: i64,
)
    requires
        is_well_formed(header),
        attribute_value(header_parts(header), "domain="@, header_parts(header).len() as int)
            is None,
        attribute_value(header_parts(header), "path="@, header_parts(header).len() as int) is None,
        url.host is Some,
        request.host == url.host,
        is_secure_scheme(request.scheme),
        "/"@.is_prefix_of(request.path),
    ensures
        request_cookies(
            upsert(rows, stored_form(cookie_of(header, url, None, set_at))),
            request.host->0,
            request.path,
            true,
            now,
        ).contains(cookie_text(cookie_of(header, url, None, set_at))),
{
    let c = stored_form(cookie_of(header, url, None, set_at));
    assert(applies(c, request.host->0, request.path, true, now));
    lemma_stored_cookie_is_returned(rows, c, request.host->0, request.path, true, now);
}

/// Whether `text` is the text of a stored cookie that is not secure.
pub open spec fn is_plain_cookie_text(rows: Seq<CookieView>, text: Seq<char>) -> bool {
    exists|i: int| 0 <= i < rows.len() && !(#[trigger] rows[i]).secure && cookie_text(rows[i]) == text
}

/// A request that is not secure gets no secure cookie: every text that
/// is sent is the text of a stored cookie that is not secure.
pub proof fn lemma_plain_request_gets_no_secure_cookie(
    rows: Seq<CookieView>,
    host: Seq<char>,
    path: Seq<char>,
    now: i64,
)
    ensures
        forall|k: int|
            0 <= k < request_cookies(rows, host, path, false, now).len() ==> is_plain_cookie_text(
                rows,
                #[trigger] request_cookies(rows, host, path, false, now)[k],
            ),
{
    let p = |c: CookieView| applies(c, host, path, false, now);
    crate::seq_lemmas::lemma_filter_origin(rows, p);
    let f = rows.filter(p);
    let sent = request_cookies(rows, host, path, false, now);
    assert forall|k: int| 0 <= k < sent.len() implies is_plain_cookie_text(
        rows,
        #[trigger] sent[k],
    ) by {
        assert(p(f[k]));
        assert(rows.contains(f[k]));
        let i = choose|i: int| 0 <= i < rows.len() && rows[i] == f[k];
        assert(!rows[i].secure && cookie_text(rows[i]) == sent[k]);
    }
}

/// A cookie that was stored and has not expired is sent back to the host
/// and path it was set for, when the request is as secure as the cookie.
pub proof fn lemma_stored_cookie_is_returned(
    rows: Seq<CookieView>,
    c: CookieView,
    host: Seq<char>,
    path: Seq<char>,
    secure_request: bool,
    now: i64,
)
    requires
        applies(c, host, path, secure_request, now),
    ensures
        request_cookies(upsert(rows, c), host, path, secure_request, now).contains(cookie_text(c)),
{
    let u = upsert(rows, c);
    let p = |x: CookieView| applies(x, host, path, secure_request, now);
    crate::seq_lemmas::lemma_filter_keeps(u, p, u.len() - 1);
    let f = u.filter(p);
    let j = choose|j: int| 0 <= j < f.len() && f[j] == u[u.len() - 1];
    let m = f.map_values(|x: CookieView| cookie_text(x));
    assert(m[j] == cookie_text(c));
}

/// An expiry sweep removes nothing from rows that were just swept.
pub proof fn lemma_sweep_idempotent(rows: Seq<CookieView>, now: i64)
    ensures
        without_expired(without_expired(rows, now), now) == without_expired(rows, now),
{
    let p = |c: CookieView| !is_expired(c, now);
    crate::seq_lemmas::lemma_filter_origin(rows, p);
    crate::seq_lemmas::lemma_filter_all(rows.filter(p), p);
}

/// The cookie jar. Rows are kept in the order in which they were last
/// written.
#[derive(Debug)]
pub struct CookieManager {
    cookies: Vec<CookieEntry>,
}

impl View for CookieManager {
    type V = Seq<CookieView>;

    closed spec fn view(&self) -> Seq<CookieView> {
        cookie_views(self.cookies@)
    }
}

impl CookieManager {
    /// The jar's invariant: keys are unique and no stored cookie is
    /// unrestricted across sites.
    pub open spec fn wf(&self) -> bool {
        &&& unique_keys(self@)
        &&& forall|i: int| 0 <= i < self@.len() ==> (#[trigger] self@[i]).same_site
            != SameSite::Unrestricted
    }

    /// An empty jar.
    pub fn new() -> (jar: CookieManager)
        ensures
            jar.wf(),
            jar@ == Seq::<CookieView>::empty(),
    {
        let jar = CookieManager { cookies: Vec::new() };
        assert(jar@ =~= Seq::<CookieView>::empty());
        jar
    }

    /// Number of stored cookies.
    pub fn count(&self) -> (n: usize)
        ensures
            n == self@.len(),
    {
        self.cookies.len()
    }

    /// The stored cookies, oldest write first.
    pub fn cookies(&self) -> (rows: &Vec<CookieEntry>)
        ensures
            cookie_views(rows@) == self@,
    {
        &self.cookies
    }

    /// Removes every row for which `same_key(row, c)` holds.
    fn remove_key(&mut self, c: &CookieEntry)
        requires
            old(self).wf(),
        ensures
            final(self)@ == old(self)@.filter(|r: CookieView| !same_key(r, c@)),
            final(self).wf(),
    {
        let ghost rows = self@;
        let ghost p = |r: CookieView| !same_key(r, c@);
        let ghost mut k: int = 0;
        let mut i: usize = 0;
        proof {
            assert(rows.take(0).filter(p) =~= Seq::<CookieView>::empty()) by {
                reveal(Seq::filter);
            }
            assert(self@ =~= rows.take(0).filter(p) + rows.skip(0));
        }
        while i < self.cookies.len()
            invariant
                0 <= k <= rows.len(),
                i == rows.take(k).filter(p).len(),
                self@ == rows.take(k).filter(p) + rows.skip(k),
                p == (|r: CookieView| !same_key(r, c@)),
            decreases rows.len() - k,
        {
            proof {
                crate::seq_lemmas::lemma_filter_take_step(rows, p, k);
                assert(self@[i as int] == rows[k]);
                assert(self.cookies@[i as int]@ == rows[k]);
            }
            let row = &self.cookies[i];
            let same = row.name == c.name && row.domain == c.domain && row.path == c.path;
            assert(same == same_key(rows[k], c@));
            if same {
                let ghost before = self@;
                self.cookies.remove(i);
                proof {
                    assert(self@ =~= before.remove(i as int));
                    assert(self@ =~= rows.take(k + 1).filter(p) + rows.skip(k + 1));
                }
            } else {
                proof {
                    assert(self@ =~= rows.take(k + 1).filter(p) + rows.skip(k + 1));
                }
                i += 1;
            }
            proof {
                k = k + 1;
            }
        }
        proof {
            assert(rows.take(k) =~= rows);
            assert(self@ =~= rows.filter(p));
            lemma_filter_unique(rows, p);
            crate::seq_lemmas::lemma_filter_origin(rows, p);
            assert forall|j: int| 0 <= j < self@.len() implies (#[trigger] self@[j]).same_site
                != SameSite::Unrestricted by {
                assert(rows.contains(rows.filter(p)[j]));
            }
        }
    }

    /// Stores a cookie, replacing the row with the same key. An
    /// unrestricted `SameSite` is stored as `Lax`.
    pub fn store(&mut self, cookie: CookieEntry)
        requires
            old(self).wf(),
        ensures
            final(self).wf(),
            final(self)@ == upsert(old(self)@, stored_form(cookie@)),
    {
        let mut cookie = cookie;
        let ghost asked = cookie@;
        if let SameSite::Unrestricted = cookie.same_site {
            cookie.same_site = SameSite::Lax;
        }
        assert(cookie@ == stored_form(asked));
        self.remove_key(&cookie);
        let ghost kept = self@;
        let ghost c = cookie@;
        self.cookies.push(cookie);
        proof {
            assert(self@ =~= kept.push(c));
            lemma_upsert_single(old(self)@, c);
            assert forall|j: int| 0 <= j < self@.len() implies (#[trigger] self@[j]).same_site
                != SameSite::Unrestricted by {
                if j < kept.len() {
                    assert(self@[j] == kept[j]);
                }
            }
        }
    }

    /// Parses `header` as received from `request_url` at `now`, with the
    /// expiry already decoded, and stores the cookie.
    ///
    /// A text without a `name=value` pair is rejected with `ParseError`
    /// and leaves the jar as it was.
    pub fn set_cookie_at(
        &mut self,
        header: &str,
        request_url: &WebUrl,
        expires_at: Option<i64>,
        now: i64,
    ) -> (r: Result<(), StorageError>)
        requires
            old(self).wf(),
        ensures
            final(self).wf(),
            match r {
                Ok(()) => is_well_formed(header@) && final(self)@ == upsert(
                    old(self)@,
                    stored_form(cookie_of(header@, request_url@, expires_at, now)),
                ),
                Err(e) => !is_well_formed(header@) && e == StorageError::ParseError && final(self)@
                    == old(self)@,
            },
    {
        match cookie_from_header(header, request_url, expires_at, now) {
            Ok(cookie) => {
                self.store(cookie);
                Ok(())
            },
            Err(e) => Err(e),
        }
    }

    /// Parses a `Set-Cookie` text received from `request_url` now. The
    /// expiry is what `chrono` reads from the `Expires` attribute.
    ///
    /// Fails with `ParseError` exactly when the text has no `name=value` pair.
    pub fn parse_set_cookie(&self, header: &str, request_url: &WebUrl) -> (r: Result<
        CookieEntry,
        StorageError,
    >)
        ensures
            match r {
                Ok(c) => is_well_formed(header@) && exists|now: i64|
                    c@ == #[trigger] cookie_of(header@, request_url@, expiry_of(header@), now),
                Err(e) => !is_well_formed(header@) && e == StorageError::ParseError,
            },
    {
        let expires_at = match expires_attribute(header) {
            Some(text) => parse_rfc2822(text.as_str()),
            None => None,
        };
        let now = now_millis();
        cookie_from_header(header, request_url, expires_at, now)
    }

    /// Parses a `Set-Cookie` text received from `request_url` and stores
    /// the cookie, stamped with the current time. The expiry is what
    /// `chrono` reads from the `Expires` attribute.
    pub fn set_cookie(&mut self, header: &str, request_url: &WebUrl) -> (r: Result<
        (),
        StorageError,
    >)
        requires
            old(self).wf(),
        ensures
            final(self).wf(),
            match r {
                Ok(()) => is_well_formed(header@) && exists|now: i64|
                    final(self)@ == upsert(
                        old(self)@,
                        stored_form(
                            #[trigger] cookie_of(
                                header@,
                                request_url@,
                                expiry_of(header@),
                                now,
                            ),
                        ),
                    ),
                Err(e) => !is_well_formed(header@) && e == StorageError::ParseError && final(self)@
                    == old(self)@,
            },
    {
        match self.parse_set_cookie(header, request_url) {
            Ok(cookie) => {
                self.store(cookie);
                Ok(())
            },
            Err(e) => Err(e),
        }
    }

    /// The `name=value` texts of the cookies that accompany a request to
    /// `request_url` at `now`, in row order. Each of them gets `now` as
    /// its last access.
    ///
    /// Fails with `NoHost`, changing nothing, exactly when the URL has no host.
    pub fn get_cookies_at(&mut self, request_url: &WebUrl, now: i64) -> (r: Result<
        Vec<String>,
        StorageError,
    >)
        requires
            old(self).wf(),
        ensures
            final(self).wf(),
            match r {
                Ok(texts) => request_url@.host is Some && crate::storage::strings_view(texts@)
                    == request_cookies(
                    old(self)@,
                    request_url@.host->0,
                    request_url@.path,
                    is_secure_scheme(request_url@.scheme),
                    now,
                ) && final(self)@ == touched(
                    old(self)@,
                    request_url@.host->0,
                    request_url@.path,
                    is_secure_scheme(request_url@.scheme),
                    now,
                ),
                Err(e) => request_url@.host is None && e == StorageError::NoHost && final(self)@
                    == old(self)@,
            },
    {
        let host = match request_url.host_str() {
            Some(h) => chars_of(h),
            None => {
                return Err(StorageError::NoHost);
            },
        };
        let path = chars_of(request_url.path());
        let secure_request = request_url.is_secure();
        let ghost rows = self@;
        let ghost p = |c: CookieView| applies(c, host@, path@, secure_request, now);
        let mut texts: Vec<String> = Vec::new();
        let mut i: usize = 0;
        proof {
            assert(rows.take(0).filter(p) =~= Seq::<CookieView>::empty()) by {
                reveal(Seq::filter);
            }
            assert(crate::storage::strings_view(texts@) =~= rows.take(0).filter(p).map_values(
                |c: CookieView| cookie_text(c),
            ));
        }
        while i < self.cookies.len()
            invariant
                i <= self.cookies.len(),
                self@.len() == rows.len(),
                p == (|c: CookieView| applies(c, host@, path@, secure_request, now)),
                crate::storage::strings_view(texts@) == rows.take(i as int).filter(p).map_values(
                    |c: CookieView| cookie_text(c),
                ),
                forall|j: int|
                    0 <= j < i ==> #[trigger] self@[j] == touched(
                        rows,
                        host@,
                        path@,
                        secure_request,
                        now,
                    )[j],
                forall|j: int| i <= j < rows.len() ==> #[trigger] self@[j] == rows[j],
            decreases self.cookies.len() - i,
        {
            proof {
                crate::seq_lemmas::lemma_filter_take_step(rows, p, i as int);
                assert(self@[i as int] == rows[i as int]);
                assert(self.cookies@[i as int]@ == rows[i as int]);
            }
            if cookie_applies(&self.cookies[i], host.as_slice(), path.as_slice(), secure_request, now) {
                let row = &self.cookies[i];
                let mut text = row.name.clone();
                text.push('=');
                text.append(row.value.as_str());
                let ghost before_texts = texts@;
                texts.push(text);
                let ghost before = self@;
                self.cookies[i].last_accessed = now;
                proof {
                    assert(self@ =~= before.update(
                        i as int,
                        CookieView { last_accessed: now, ..before[i as int] },
                    ));
                    assert(crate::storage::strings_view(texts@) =~= crate::storage::strings_view(
                        before_texts,
                    ).push(cookie_text(rows[i as int])));
                    assert(crate::storage::strings_view(texts@) =~= rows.take(i + 1).filter(
                        p,
                    ).map_values(|c: CookieView| cookie_text(c)));
                }
            }
            i += 1;
        }
        proof {
            assert(rows.take(i as int) =~= rows);
            assert(self@ =~= touched(rows, host@, path@, secure_request, now));
            assert forall|a: int, b: int| 0 <= a < b < self@.len() implies !same_key(
                self@[a],
                self@[b],
            ) by {
                assert(!same_key(rows[a], rows[b]));
            }
            assert forall|j: int| 0 <= j < self@.len() implies (#[trigger] self@[j]).same_site
                != SameSite::Unrestricted by {
                assert(rows[j].same_site != SameSite::Unrestricted);
            }
        }
        Ok(texts)
    }

    /// The cookies that accompany a request made now.
    pub fn get_cookies(&mut self, request_url: &WebUrl) -> (r: Result<Vec<String>, StorageError>)
        requires
            old(self).wf(),
        ensures
            final(self).wf(),
            match r {
                Ok(texts) => request_url@.host is Some && exists|now: i64|
                    crate::storage::strings_view(texts@) == #[trigger] request_cookies(
                        old(self)@,
                        request_url@.host->0,
                        request_url@.path,
                        is_secure_scheme(request_url@.scheme),
                        now,
                    ) && final(self)@ == touched(
                        old(self)@,
                        request_url@.host->0,
                        request_url@.path,
                        is_secure_scheme(request_url@.scheme),
                        now,
                    ),
                Err(e) => request_url@.host is None && e == StorageError::NoHost && final(self)@
                    == old(self)@,
            },
    {
        let now = now_millis();
        self.get_cookies_at(request_url, now)
    }

    /// Deletes every cookie whose expiry lies strictly before `now`.
    /// Session cookies are never removed. Returns how many were deleted.
    pub fn cleanup_at(&mut self, now: i64) -> (removed: usize)
        requires
            old(self).wf(),
        ensures
            final(self).wf(),
            final(self)@ == without_expired(old(self)@, now),
            removed == old(self)@.len() - final(self)@.len(),
    {
        let ghost rows = self@;
        let ghost p = |c: CookieView| !is_expired(c, now);
        let ghost mut k: int = 0;
        let mut i: usize = 0;
        let mut removed: usize = 0;
        let total: usize = self.cookies.len();
        proof {
            assert(rows.len() == total);
            assert(rows.take(0).filter(p) =~= Seq::<CookieView>::empty()) by {
                reveal(Seq::filter);
            }
            assert(self@ =~= rows.take(0).filter(p) + rows.skip(0));
        }
        while i < self.cookies.len()
            invariant
                0 <= k <= rows.len(),
                i == rows.take(k).filter(p).len(),
                removed == k - i,
                self@ == rows.take(k).filter(p) + rows.skip(k),
                p == (|c: CookieView| !is_expired(c, now)),
                rows.len() == old(self)@.len(),
                rows.len() == total,
            decreases rows.len() - k,
        {
            proof {
                crate::seq_lemmas::lemma_filter_take_step(rows, p, k);
                assert(self@[i as int] == rows[k]);
                assert(self.cookies@[i as int]@ == rows[k]);
            }
            let expired = match self.cookies[i].expires_at {
                Some(e) => e < now,
                None => false,
            };
            if expired {
                let ghost before = self@;
                self.cookies.remove(i);
                removed += 1;
                proof {
                    assert(self@ =~= before.remove(i as int));
                    assert(self@ =~= rows.take(k + 1).filter(p) + rows.skip(k + 1));
                }
            } else {
                proof {
                    assert(self@ =~= rows.take(k + 1).filter(p) + rows.skip(k + 1));
                }
                i += 1;
            }
            proof {
                k = k + 1;
            }
        }
        proof {
            assert(rows.take(k) =~= rows);
            assert(self@ =~= rows.filter(p));
            lemma_filter_unique(rows, p);
            crate::seq_lemmas::lemma_filter_origin(rows, p);
            assert forall|j: int| 0 <= j < self@.len() implies (#[trigger] self@[j]).same_site
                != SameSite::Unrestricted by {
                assert(rows.contains(rows.filter(p)[j]));
            }
        }
        removed
    }

    /// Deletes the cookies that have expired by now.
    pub fn cleanup(&mut self) -> (removed: usize)
        requires
            old(self).wf(),
        ensures
            final(self).wf(),
            exists|now: i64| final(self)@ == #[trigger] without_expired(old(self)@, now),
            removed == old(self)@.len() - final(self)@.len(),
    {
        let now = now_millis();
        self.cleanup_at(now)
    }
}

/// The expiry that the `Expires` attribute of a `Set-Cookie` text gives.
pub open spec fn expiry_of(header: Seq<char>) -> Option<i64> {
    match expires_text(header) {
        Some(t) => rfc2822_millis(t),
        None => None,
    }
}

/// Whether a cookie's domain covers a request host.
pub fn domain_covers(domain: &[char], host: &[char]) -> (r: bool)
    ensures
        r == domain_matches(domain@, host@),
{
    if same_chars(domain, host) {
        return true;
    }
    if domain.len() == 0 || domain[0] != '.' {
        return false;
    }
    if ends_with(host, domain) {
        return true;
    }
    let bare = &domain[1..domain.len()];
    assert(bare@ =~= domain@.skip(1));
    same_chars(bare, host)
}

/// Whether `cookie` is sent with a request to `host` and `path` at `now`.
pub fn cookie_applies(
    cookie: &CookieEntry,
    host: &[char],
    path: &[char],
    secure_request: bool,
    now: i64,
) -> (r: bool)
    ensures
        r == applies(cookie@, host@, path@, secure_request, now),
{
    let domain = chars_of(cookie.domain.as_str());
    let cookie_path = chars_of(cookie.path.as_str());
    let fresh = match cookie.expires_at {
        Some(e) => e > now,
        None => true,
    };
    domain_covers(domain.as_slice(), host) && starts_with(path, cookie_path.as_slice()) && fresh
        && (!cookie.secure || secure_request)
}

} // verus!
