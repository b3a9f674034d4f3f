//! Security policy for network requests: which schemes may be fetched,
//! mixed content, and certificate pinning.

use vstd::prelude::*;
use vstd::string::StringExecFns;
use crate::web_url::{WebUrl, WebUrlView};

verus! {

/// Why a request is refused.
#[derive(Debug, Clone, Copy, PartialEq, Eq, Structural)]
pub enum SecurityError {
    /// Plain HTTP while the policy requires TLS.
    HttpBlocked,
    /// A scheme that is neither fetched nor internal.
    UnsupportedScheme,
    /// An HTTP resource on an HTTPS page.
    MixedContent,
    /// No certificate of the chain is pinned.
    PinningFailed,
}

impl SecurityError {
    /// A short description.
    pub fn message(&self) -> (s: String)
        ensures
            s@ == match *self {
                SecurityError::HttpBlocked => "HTTP is blocked by security policy. Use HTTPS."@,
                SecurityError::UnsupportedScheme => "Unsupported or insecure URL scheme"@,
                SecurityError::MixedContent => "Mixed content blocked: HTTP resource on HTTPS page"@,
                SecurityError::PinningFailed => "Certificate pinning failed: no matching certificate"@,
            },
    {
        match self {
            SecurityError::HttpBlocked => String::from_str(
                "HTTP is blocked by security policy. Use HTTPS.",
            ),
            SecurityError::UnsupportedScheme => String::from_str(
                "Unsupported or insecure URL scheme",
            ),
            SecurityError::MixedContent => String::from_str(
                "Mixed content blocked: HTTP resource on HTTPS page",
            ),
            SecurityError::PinningFailed => String::from_str(
                "Certificate pinning failed: no matching certificate",
            ),
        }
    }
}

/// Certificates that a server must present one of.
#[derive(Debug)]
pub struct CertificatePinner {
    pinned_certs: Vec<Vec<u8>>,
}

/// The views of a sequence of byte vectors.
pub open spec fn bytes_views(certs: Seq<Vec<u8>>) -> Seq<Seq<u8>> {
    Seq::new(certs.len(), |i: int| certs[i]@)
}

/// Whether a chain passes the pins: nothing is pinned, or a certificate
/// of the chain is one of the pinned ones.
pub open spec fn chain_is_pinned(pinned: Seq<Seq<u8>>, chain: Seq<Seq<u8>>) -> bool {
    pinned.len() == 0 || exists|i: int, j: int|
        0 <= i < chain.len() && 0 <= j < pinned.len() && #[trigger] chain[i] == #[trigger] pinned[j]
}

/// Whether two byte strings are equal.
fn same_bytes(a: &Vec<u8>, b: &Vec<u8>) -> (r: bool)
    ensures
        r == (a@ == b@),
{
    if a.len() != b.len() {
        return false;
    }
    let mut i: usize = 0;
    while i < a.len()
        invariant
            i <= a.len(),
            a.len() == b.len(),
            forall|k: int| 0 <= k < i ==> a@[k] == b@[k],
        decreases a.len() - i,
    {
        if a[i] != b[i] {
            return false;
        }
        i += 1;
    }
    assert(a@ =~= b@);
    true
}

impl CertificatePinner {
    /// The pinned certificates.
    pub closed spec fn pinned(&self) -> Seq<Seq<u8>> {
        bytes_views(self.pinned_certs@)
    }

    /// A pinner for the given certificates, each in DER form.
    pub fn new(pinned_certs: Vec<Vec<u8>>) -> (p: CertificatePinner)
        ensures
            p.pinned() == bytes_views(pinned_certs@),
    {
        CertificatePinner { pinned_certs }
    }

    /// Checks a certificate chain, each certificate in DER form.
    ///
    /// Succeeds with `true` when nothing is pinned or a certificate of the
    /// chain is pinned, and fails with `PinningFailed` otherwise.
    pub fn verify(&self, cert_chain: &Vec<Vec<u8>>) -> (r: Result<bool, SecurityError>)
        ensures
            r == if chain_is_pinned(self.pinned(), bytes_views(cert_chain@)) {
                Ok::<bool, SecurityError>(true)
            } else {
                Err::<bool, SecurityError>(SecurityError::PinningFailed)
            },
    {
        if self.pinned_certs.len() == 0 {
            return Ok(true);
        }
        let ghost pinned = self.pinned();
        let ghost chain = bytes_views(cert_chain@);
        let mut i: usize = 0;
        while i < cert_chain.len()
            invariant
                i <= cert_chain.len(),
                pinned == self.pinned(),
                chain == bytes_views(cert_chain@),
                forall|a: int, b: int|
                    0 <= a < i && 0 <= b < pinned.len() ==> #[trigger] chain[a] != #[trigger] pinned[b],
            decreases cert_chain.len() - i,
        {
            let mut j: usize = 0;
            while j < self.pinned_certs.len()
                invariant
                    i < cert_chain.len(),
                    j <= self.pinned_certs.len(),
                    pinned == self.pinned(),
                    chain == bytes_views(cert_chain@),
                    forall|b: int| 0 <= b < j ==> chain[i as int] != #[trigger] pinned[b],
                decreases self.pinned_certs.len() - j,
            {
                if same_bytes(&cert_chain[i], &self.pinned_certs[j]) {
                    assert(chain[i as int] == pinned[j as int]);
                    return Ok(true);
                }
                j += 1;
            }
            i += 1;
        }
        Err(SecurityError::PinningFailed)
    }
}

/// What the network layer enforces.
#[derive(Debug)]
pub struct SecurityPolicy {
    pub require_tls: bool,
    pub block_mixed_content: bool,
    pub enforce_hsts: bool,
    pub certificate_pinning: Option<CertificatePinner>,
}

impl Default for SecurityPolicy {
    fn default() -> (policy: SecurityPolicy)
        ensures
            policy.require_tls,
            policy.block_mixed_content,
            policy.enforce_hsts,
            policy.certificate_pinning is None,
    {
        SecurityPolicy {
            require_tls: true,
            block_mixed_content: true,
            enforce_hsts: true,
            certificate_pinning: None,
        }
    }
}

/// The verdict on a URL: `https`, `data` and `about` pass, `http` passes
/// unless TLS is required, everything else is refused.
pub open spec fn url_verdict(scheme: Seq<char>, require_tls: bool) -> Result<(), SecurityError> {
    if scheme == "https"@ {
        Ok(())
    } else if scheme == "http"@ {
        if require_tls {
            Err(SecurityError::HttpBlocked)
        } else {
            Ok(())
        }
    } else if scheme == "data"@ || scheme == "about"@ {
        Ok(())
    } else {
        Err(SecurityError::UnsupportedScheme)
    }
}

/// Checks whether a URL may be fetched under `policy`.
pub fn check_url_security(url: &WebUrl, policy: &SecurityPolicy) -> (r: Result<(), SecurityError>)
    ensures
        r == url_verdict(url@.scheme, policy.require_tls),
{
    let s = url.scheme.as_str();
    if *s == *"https" {
        Ok(())
    } else if *s == *"http" {
        if policy.require_tls {
            Err(SecurityError::HttpBlocked)
        } else {
            Ok(())
        }
    } else if *s == *"data" || *s == *"about" {
        Ok(())
    } else {
        Err(SecurityError::UnsupportedScheme)
    }
}

/// Whether a resource is mixed content on a page: an `http` resource on an
/// `https` page.
pub open spec fn is_mixed_content(page: WebUrlView, resource: WebUrlView) -> bool {
    page.scheme == "https"@ && resource.scheme == "http"@
}

/// Refuses HTTP resources on HTTPS pages.
pub fn check_mixed_content(page_url: &WebUrl, resource_url: &WebUrl) -> (r: Result<
    (),
    SecurityError,
>)
    ensures
        r == if is_mixed_content(page_url@, resource_url@) {
            Err::<(), SecurityError>(SecurityError::MixedContent)
        } else {
            Ok::<(), SecurityError>(())
        },
{
    if *page_url.scheme.as_str() == *"https" && *resource_url.scheme.as_str() == *"http" {
        Err(SecurityError::MixedContent)
    } else {
        Ok(())
    }
}

} // verus!
