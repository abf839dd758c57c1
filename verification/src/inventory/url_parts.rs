//! What the connector logic reads of a URL, and the call into the URL reader.

use vstd::prelude::*;
use core::str::FromStr;
use url::ParseError as P;
use url::Url;

verus! {

/// Why the URL reader refused an input: one variant for each variant of
/// `url::ParseError`, and `Other` for variants that later versions of the
/// reader may add (its error type is non-exhaustive).
#[derive(Debug, Clone, Copy, PartialEq, Eq, Structural)]
pub enum UrlError {
    EmptyHost,
    IdnaError,
    InvalidPort,
    InvalidIpv4Address,
    InvalidIpv6Address,
    InvalidDomainCharacter,
    RelativeUrlWithoutBase,
    RelativeUrlWithCannotBeABaseBase,
    SetHostOnCannotBeABaseUrl,
    Overflow,
    Other,
}

/// The parts of a read URL: scheme, host (if any), path, and the whole URL
/// as the reader serializes it.
#[derive(Debug, Clone, PartialEq, Eq)]
pub struct UrlParts {
    pub scheme: String,
    pub host: Option<String>,
    pub path: String,
    pub serialization: String,
}

/// The characters of an optional string.
pub open spec fn option_view(o: Option<String>) -> Option<Seq<char>> {
    match o {
        Some(s) => Some(s@),
        None => None,
    }
}

impl UrlParts {
    /// The parts as character sequences.
    pub open spec fn spec_view(&self) -> (Seq<char>, Option<Seq<char>>, Seq<char>, Seq<char>) {
        (self.scheme@, option_view(self.host), self.path@, self.serialization@)
    }

    /// Owned copies of the given parts.
    pub fn new(scheme: &str, host: Option<&str>, path: &str, serialization: &str) -> (p: UrlParts)
        ensures
            p.spec_view() == (scheme@, match host {
                Some(h) => Some(h@),
                None => None::<Seq<char>>,
            }, path@, serialization@),
    {
        let host = match host {
            Some(h) => Some(crate::text::string_of(h)),
            None => None,
        };
        UrlParts {
            scheme: crate::text::string_of(scheme),
            host,
            path: crate::text::string_of(path),
            serialization: crate::text::string_of(serialization),
        }
    }
}

/// What `url::Url::from_str` reads from `input`: the reader's error when it
/// refuses the input, else the scheme, host, path and serialization of the
/// URL.
pub uninterp spec fn url_parse(input: Seq<char>) -> Result<
    (Seq<char>, Option<Seq<char>>, Seq<char>, Seq<char>),
    UrlError,
>;

/// Reads `input` with `url::Url::from_str`, takes `scheme()`, `host_str()`,
/// `path()` and `as_str()` of the result, or names the variant of the
/// `url::ParseError` it returns. The contract claims that the outcome is the
/// named reading of the input, and, as `Url::path` documents, that the path
/// is an ASCII string.
#[verifier::external_body]
pub(crate) fn parse_url(input: &str) -> (res: Result<UrlParts, UrlError>)
    ensures
        res is Ok ==> url_parse(input@) is Ok && url_parse(input@)->Ok_0 == res->Ok_0.spec_view(),
        res is Ok ==> vstd::utf8::is_ascii_chars(res->Ok_0.path@),
        res is Err ==> url_parse(input@) is Err && url_parse(input@)->Err_0 == res->Err_0,
{
    match Url::from_str(input) {
        Ok(u) => Ok(UrlParts::new(u.scheme(), u.host_str(), u.path(), u.as_str())),
        Err(P::EmptyHost) => Err(UrlError::EmptyHost),
        Err(P::IdnaError) => Err(UrlError::IdnaError),
        Err(P::InvalidPort) => Err(UrlError::InvalidPort),
        Err(P::InvalidIpv4Address) => Err(UrlError::InvalidIpv4Address),
        Err(P::InvalidIpv6Address) => Err(UrlError::InvalidIpv6Address),
        Err(P::InvalidDomainCharacter) => Err(UrlError::InvalidDomainCharacter),
        Err(P::RelativeUrlWithoutBase) => Err(UrlError::RelativeUrlWithoutBase),
        Err(P::RelativeUrlWithCannotBeABaseBase) => Err(UrlError::RelativeUrlWithCannotBeABaseBase),
        Err(P::SetHostOnCannotBeABaseUrl) => Err(UrlError::SetHostOnCannotBeABaseUrl),
        Err(P::Overflow) => Err(UrlError::Overflow),
        Err(_) => Err(UrlError::Other),
    }
}

} // verus!
