//! URL validation, joining, and decomposition.
//!
//! The `url` crate does the parsing; every result the rest of the crate
//! relies on is named here as a function of the input text alone, so that
//! resolution and identifier derivation can be specified exactly.

use vstd::prelude::*;

verus! {

/// Whether the text parses as an absolute URL (`url::Url::parse` succeeds).
pub uninterp spec fn url_ok(s: Seq<char>) -> bool;

/// The serialization of the parsed URL (`url::Url::as_str` after a
/// successful parse), `None` when the text does not parse.
pub uninterp spec fn norm_of(s: Seq<char>) -> Option<Seq<char>>;

/// The serialization of `rel` joined against the base URL `base`
/// (`url::Url::join`), `None` when the base does not parse or the join
/// fails.
pub uninterp spec fn join_of(base: Seq<char>, rel: Seq<char>) -> Option<Seq<char>>;

/// The host of the parsed URL (`url::Url::host_str`), `None` when the URL
/// has no host.
pub uninterp spec fn host_of(s: Seq<char>) -> Option<Seq<char>>;

/// The host of the parsed URL when it is a domain name
/// (`url::Url::host` returning `Host::Domain`); `None` for IP literals and
/// host-less URLs.
pub uninterp spec fn domain_of(s: Seq<char>) -> Option<Seq<char>>;

/// The path of the parsed URL (`url::Url::path`).
pub uninterp spec fn path_of(s: Seq<char>) -> Seq<char>;

/// The explicit port of the parsed URL (`url::Url::port`).
pub uninterp spec fn port_of(s: Seq<char>) -> Option<u16>;

/// The parts of a parsed URL that the crate's logic reads, as plain values.
pub struct UrlParts {
    /// The host, if the URL has one.
    pub host: Option<String>,
    /// The host when it is a domain name rather than an IP literal.
    pub domain: Option<String>,
    /// The path, always beginning with `/` unless the URL cannot be a base.
    pub path: String,
    /// The explicit port, if one was written.
    pub port: Option<u16>,
}

/// Relies on `url::Url::parse` and `Url::as_str`: the serialization of a
/// parse depends on the text alone, and a serialized URL parses back to
/// itself, so normalization is idempotent.
#[verifier::external_body]
pub fn url_normalize(s: &str) -> (r: Option<String>)
    ensures
        r matches Some(n) ==> norm_of(s@) == Some(n@) && norm_of(n@) == Some(n@) && url_ok(n@),
        r is Some <==> url_ok(s@),
        r is Some <==> norm_of(s@) is Some,
{
    match url::Url::parse(s) {
        Ok(u) => Some(String::from(u.as_str())),
        Err(_) => None,
    }
}

/// Relies on `url::Url::parse` and `Url::join`: the joined serialization
/// depends on the two texts alone, and a join result is a serialized URL, so
/// joining it against the same base gives it back unchanged.
#[verifier::external_body]
pub fn url_join(base: &str, rel: &str) -> (r: Option<String>)
    ensures
        r matches Some(j) ==> join_of(base@, rel@) == Some(j@) && join_of(base@, j@) == Some(j@)
            && url_ok(j@),
        r is Some <==> join_of(base@, rel@) is Some,
{
    match url::Url::parse(base) {
        Ok(b) => match b.join(rel) {
            Ok(j) => Some(String::from(j.as_str())),
            Err(_) => None,
        },
        Err(_) => None,
    }
}

/// Relies on `url::Url::parse` with the accessors `host_str`, `host`,
/// `path` and `port`: each part depends on the text alone, and a domain
/// host is in particular a host.
#[verifier::external_body]
pub fn url_parts(s: &str) -> (r: Option<UrlParts>)
    ensures
        r is Some <==> url_ok(s@),
        r matches Some(p) ==> {
            &&& p.host matches Some(h) ==> host_of(s@) == Some(h@)
            &&& p.host is None <==> host_of(s@) is None
            &&& p.domain matches Some(d) ==> domain_of(s@) == Some(d@) && host_of(s@) == Some(d@)
            &&& p.domain is None <==> domain_of(s@) is None
            &&& p.path@ == path_of(s@)
            &&& p.port == port_of(s@)
        },
{
    match url::Url::parse(s) {
        Ok(u) => Some(UrlParts {
            host: u.host_str().map(String::from),
            domain: match u.host() {
                Some(url::Host::Domain(d)) => Some(String::from(d)),
                _ => None,
            },
            path: String::from(u.path()),
            port: u.port(),
        }),
        Err(_) => None,
    }
}

/// Check a URL string before any network work: `Ok` with the normalized
/// serialization exactly when the text parses as an absolute URL.
pub fn validate_url(url: String) -> (r: Result<String, String>)
    ensures
        r matches Ok(n) ==> norm_of(url@) == Some(n@) && url_ok(url@),
        r is Ok <==> url_ok(url@),
{
    match url_normalize(url.as_str()) {
        Some(n) => Ok(n),
        None => Err(String::from_str("invalid URL")),
    }
}

} // verus!
