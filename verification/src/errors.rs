//! The error taxonomy, and how provider HTTP statuses and unparseable
//! response payloads map into it.
//!
//! `InvalidInput` and `NotFound` always surface to the caller. An
//! unparseable directory listing degrades to an empty listing rather than
//! failing the traversal; an unparseable file-content response propagates as
//! `UpstreamParse`. That split is the one policy used everywhere.

use vstd::prelude::*;

verus! {

use crate::strutil::dec_digits;
use crate::strutil::is_substring;

/// What can go wrong between a request and a provider.
#[derive(Debug, Clone, PartialEq)]
pub enum RepoError {
    /// A malformed identifier, an empty search query, or an unsupported
    /// provider name; carries the offending text.
    InvalidInput(String),
    /// A missing repository, path or file; carries what was looked for.
    NotFound(String),
    /// Provider throttling.
    RateLimited,
    /// An authentication or authorization failure.
    AccessDenied,
    /// A response whose shape was not understood; carries a short hint.
    UpstreamParse(String),
    /// Any other non-success status; carries the status code.
    Upstream(u16),
}

impl RepoError {
    /// A short human-readable account of the error.
    pub fn message(&self) -> (r: String)
        ensures
            match self {
                RepoError::InvalidInput(t) => r@ == "invalid input: "@ + t@,
                RepoError::NotFound(t) => r@ == "not found: "@ + t@,
                RepoError::RateLimited => r@ == "rate limit exceeded"@,
                RepoError::AccessDenied => r@ == "access denied or authentication failed"@,
                RepoError::UpstreamParse(t) => r@ == "unexpected provider response: "@ + t@,
                RepoError::Upstream(status) => r@ == "provider error, status "@ + dec_digits(
                    *status as int,
                ),
            },
    {
        match self {
            RepoError::InvalidInput(t) => {
                let mut s = String::from_str("invalid input: ");
                s.append(t.as_str());
                s
            },
            RepoError::NotFound(t) => {
                let mut s = String::from_str("not found: ");
                s.append(t.as_str());
                s
            },
            RepoError::RateLimited => String::from_str("rate limit exceeded"),
            RepoError::AccessDenied => String::from_str("access denied or authentication failed"),
            RepoError::UpstreamParse(t) => {
                let mut s = String::from_str("unexpected provider response: ");
                s.append(t.as_str());
                s
            },
            RepoError::Upstream(status) => {
                let mut s = String::from_str("provider error, status ");
                let digits = crate::strutil::u64_to_decimal(*status as u64);
                s.append(digits.as_str());
                s
            },
        }
    }
}

/// Whether an HTTP status code reports success.
pub open spec fn status_success(status: u16) -> bool {
    200 <= status < 300
}

/// Sorts a GitHub response status: nothing for success, else the error the
/// status stands for. Unprocessable input, throttling or denial, and a
/// missing resource have their own classes; anything else keeps its code.
pub fn classify_github_status(status: u16) -> (r: Option<RepoError>)
    ensures
        (r is None) == status_success(status),
        !status_success(status) ==> match r {
            Some(e) => if status == 422 {
                e matches RepoError::InvalidInput(_)
            } else if status == 403 {
                e == RepoError::RateLimited
            } else if status == 404 {
                e matches RepoError::NotFound(_)
            } else {
                e == RepoError::Upstream(status)
            },
            None => false,
        },
{
    if status >= 200 && status < 300 {
        None
    } else if status == 422 {
        Some(RepoError::InvalidInput(String::from_str("invalid query syntax or empty query")))
    } else if status == 403 {
        Some(RepoError::RateLimited)
    } else if status == 404 {
        Some(RepoError::NotFound(String::from_str("resource not found")))
    } else {
        Some(RepoError::Upstream(status))
    }
}

/// Sorts a GitLab response status: nothing for success, else the error the
/// status stands for.
pub fn classify_gitlab_status(status: u16) -> (r: Option<RepoError>)
    ensures
        (r is None) == status_success(status),
        !status_success(status) ==> match r {
            Some(e) => if status == 400 {
                e matches RepoError::InvalidInput(_)
            } else if status == 401 {
                e == RepoError::AccessDenied
            } else if status == 403 {
                e == RepoError::RateLimited
            } else if status == 404 {
                e matches RepoError::NotFound(_)
            } else {
                e == RepoError::Upstream(status)
            },
            None => false,
        },
{
    if status >= 200 && status < 300 {
        None
    } else if status == 400 {
        Some(RepoError::InvalidInput(String::from_str("invalid request or empty query")))
    } else if status == 401 {
        Some(RepoError::AccessDenied)
    } else if status == 403 {
        Some(RepoError::RateLimited)
    } else if status == 404 {
        Some(RepoError::NotFound(String::from_str("resource not found")))
    } else {
        Some(RepoError::Upstream(status))
    }
}

/// What a response body that did not parse hints at.
#[derive(Debug, Clone, Copy, PartialEq, Eq, Structural)]
pub enum ParseFallback {
    /// The body mentions a missing resource.
    NotFoundHint,
    /// The body mentions rate limiting.
    RateLimitHint,
    /// No hint: the caller applies its degrade-or-propagate policy.
    NoHint,
}

/// Reads the best-effort hints GitHub puts in an unparseable body: a missing
/// resource first, then rate limiting, else nothing.
pub fn github_parse_fallback(body: &str) -> (r: ParseFallback)
    ensures
        r == ParseFallback::NotFoundHint <==> is_substring(body@, "Not Found"@),
        r == ParseFallback::RateLimitHint <==> (!is_substring(body@, "Not Found"@) && is_substring(
            body@,
            "rate limit"@,
        )),
{
    if crate::strutil::contains_str(body, "Not Found") {
        ParseFallback::NotFoundHint
    } else if crate::strutil::contains_str(body, "rate limit") {
        ParseFallback::RateLimitHint
    } else {
        ParseFallback::NoHint
    }
}

/// What an unparseable GitHub search body stands for.
#[derive(Debug, Clone, Copy, PartialEq, Eq, Structural)]
pub enum SearchFallback {
    /// The body mentions rate limiting: surface a throttling error.
    RateLimit,
    /// The body shows an empty result list: surface no results.
    EmptyItems,
    /// Neither: surface a parse error.
    Malformed,
}

/// Reads the best-effort hints in an unparseable GitHub search body: rate
/// limiting first, then an empty result list, else a parse failure.
pub fn github_search_fallback(body: &str) -> (r: SearchFallback)
    ensures
        r == SearchFallback::RateLimit <==> is_substring(body@, "rate limit"@),
        r == SearchFallback::EmptyItems <==> (!is_substring(body@, "rate limit"@) && is_substring(
            body@,
            "\"items\":[]"@,
        )),
{
    if crate::strutil::contains_str(body, "rate limit") {
        SearchFallback::RateLimit
    } else if crate::strutil::contains_str(body, "\"items\":[]") {
        SearchFallback::EmptyItems
    } else {
        SearchFallback::Malformed
    }
}

} // verus!
