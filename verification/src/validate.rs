//! Destination-URL validation: normalize a raw user string by prepending
//! `https://` when no scheme is given, then accept it only if it parses as
//! an absolute URL whose host carries a domain extension (a `.`).

use vstd::prelude::*;
use vstd::string::StrSliceExecFns;
use vstd::string::StringExecFns;
use crate::text::{is_prefix, trim_spec, starts_with_str, trim_str};

verus! {

/// Why a raw destination string was rejected.
#[derive(Debug, PartialEq, Eq, Structural, Clone, Copy)]
pub enum ValidationError {
    /// The input is empty once trimmed.
    EmptyUrl,
    /// The normalized string does not parse as an absolute URL.
    MalformedUrl,
    /// The URL parses but has no host at all.
    MissingHost,
    /// The host has no `.`, so it lacks a domain extension.
    MissingDomainExtension,
}

/// The input already names its scheme.
pub open spec fn has_scheme(s: Seq<char>) -> bool {
    is_prefix(s, "http://"@) || is_prefix(s, "https://"@)
}

/// The string that is parsed and stored: the input itself, or the input
/// behind `https://` when it names no scheme.
pub open spec fn normalized_url(s: Seq<char>) -> Seq<char> {
    if has_scheme(s) {
        s
    } else {
        "https://"@ + s
    }
}

/// Whether `url::Url::parse` accepts the string as an absolute URL.
pub uninterp spec fn url_parse_ok(s: Seq<char>) -> bool;

/// The host `url::Url::host_str` reports for the parsed form of the string;
/// `None` where the URL has no host. Meaningful only where `url_parse_ok`
/// holds.
pub uninterp spec fn url_host(s: Seq<char>) -> Option<Seq<char>>;

/// What the URL parser found in a string.
pub enum HostLookup {
    /// The string is not an absolute URL.
    Unparsable,
    /// It parses, but has no host component.
    NoHost,
    /// It parses and this is its host.
    Host(String),
}

/// Relies on `url::Url::parse` and `url::Url::host_str` of the url crate:
/// both are pure functions of the input string, `parse` succeeding exactly
/// on absolute URLs and `host_str` reporting the host component of the
/// parsed URL, or `None` where it has none.
#[verifier::external_body]
fn parse_host(s: &str) -> (r: HostLookup)
    ensures
        (r is Unparsable) == !url_parse_ok(s@),
        (r is NoHost) == (url_parse_ok(s@) && url_host(s@) is None),
        (r matches HostLookup::Host(h) ==> url_parse_ok(s@) && url_host(s@) == Some(h@)),
{
    match url::Url::parse(s) {
        Ok(u) => match u.host_str() {
            Some(h) => HostLookup::Host(h.to_string()),
            None => HostLookup::NoHost,
        },
        Err(_) => HostLookup::Unparsable,
    }
}

/// The host carries a domain extension.
pub open spec fn has_dot(h: Seq<char>) -> bool {
    exists|i: int| 0 <= i < h.len() && h[i] == '.'
}

fn contains_dot(h: &str) -> (r: bool)
    ensures
        r == has_dot(h@),
{
    let n: usize = h.unicode_len();
    let mut i: usize = 0;
    while i < n
        invariant
            n == h@.len(),
            i <= n,
            forall|j: int| 0 <= j < i ==> h@[j] != '.',
        decreases n - i,
    {
        if h.get_char(i) == '.' {
            return true;
        }
        i = i + 1;
    }
    false
}

/// What validation returns for a raw input: the normalized URL string, or
/// the error naming the first check it fails.
pub open spec fn validate_spec(raw: Seq<char>) -> Result<Seq<char>, ValidationError> {
    if trim_spec(raw).len() == 0 {
        Err(ValidationError::EmptyUrl)
    } else {
        let n = normalized_url(raw);
        if !url_parse_ok(n) {
            Err(ValidationError::MalformedUrl)
        } else if url_host(n) is None {
            Err(ValidationError::MissingHost)
        } else if !has_dot(url_host(n)->Some_0) {
            Err(ValidationError::MissingDomainExtension)
        } else {
            Ok(n)
        }
    }
}

/// Validates a raw destination string: trims for the emptiness check,
/// prepends `https://` when no scheme is named, and accepts the result only
/// if it is an absolute URL whose host contains a `.`.
pub fn validate(raw: &str) -> (r: Result<String, ValidationError>)
    ensures
        match r {
            Ok(u) => validate_spec(raw@) == Ok::<Seq<char>, ValidationError>(u@),
            Err(e) => validate_spec(raw@) == Err::<Seq<char>, ValidationError>(e),
        },
{
    let t = trim_str(raw);
    if t.unicode_len() == 0 {
        return Err(ValidationError::EmptyUrl);
    }
    let normalized: String = if starts_with_str(raw, "http://") || starts_with_str(
        raw,
        "https://",
    ) {
        String::from_str(raw)
    } else {
        String::from_str("https://").concat(raw)
    };
    match parse_host(normalized.as_str()) {
        HostLookup::Unparsable => Err(ValidationError::MalformedUrl),
        HostLookup::NoHost => Err(ValidationError::MissingHost),
        HostLookup::Host(h) => {
            if contains_dot(h.as_str()) {
                Ok(normalized)
            } else {
                Err(ValidationError::MissingDomainExtension)
            }
        },
    }
}

/// A valid raw string that names no scheme comes back as `https://`
/// followed by the unchanged input.
pub proof fn lemma_validate_adds_scheme(raw: Seq<char>)
    requires
        !has_scheme(raw),
        validate_spec(raw) is Ok,
    ensures
        validate_spec(raw)->Ok_0 == "https://"@ + raw,
{
}

/// A string whose parsed host has no `.` fails with the
/// domain-extension error, whatever else it holds.
pub proof fn lemma_validate_requires_domain_extension(raw: Seq<char>)
    requires
        trim_spec(raw).len() != 0,
        url_parse_ok(normalized_url(raw)),
        url_host(normalized_url(raw)) matches Some(h) && !has_dot(h),
    ensures
        validate_spec(raw) == Err::<Seq<char>, ValidationError>(
            ValidationError::MissingDomainExtension,
        ),
{
}

} // verus!
