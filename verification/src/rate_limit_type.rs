//! The two scopes of rate limiting: the whole application (API key) and a
//! single endpoint method. The method scope also honors service back-off.

use vstd::prelude::*;

use crate::text::str_eq;

verus! {

/// The scope a limiter enforces: the entire app (`Application`) or one
/// endpoint method (`Method`).
#[derive(Debug, Copy, Clone, PartialEq, Eq, Structural)]
pub enum RateLimitType {
    Application,
    Method,
}

/// The name of the limit header for this scope.
pub open spec fn spec_limit_header(t: RateLimitType) -> Seq<char> {
    match t {
        RateLimitType::Application => "X-App-Rate-Limit"@,
        RateLimitType::Method => "X-Method-Rate-Limit"@,
    }
}

/// The name of the count header for this scope.
pub open spec fn spec_count_header(t: RateLimitType) -> Seq<char> {
    match t {
        RateLimitType::Application => "X-App-Rate-Limit-Count"@,
        RateLimitType::Method => "X-Method-Rate-Limit-Count"@,
    }
}

/// Which scope obeys a 429 with the given `X-Rate-Limit-Type` value: the
/// application scope handles `"application"`; the method scope handles
/// `"method"`, `"service"`, and any missing or unknown value.
pub open spec fn spec_handles_type(t: RateLimitType, header: Option<Seq<char>>) -> bool {
    match header {
        Some(h) => if h == "application"@ {
            t is Application
        } else {
            t is Method
        },
        None => t is Method,
    }
}

impl RateLimitType {
    /// The response header naming this scope's limits.
    pub fn limit_header(self) -> (r: &'static str)
        ensures
            r@ == spec_limit_header(self),
    {
        match self {
            RateLimitType::Application => "X-App-Rate-Limit",
            RateLimitType::Method => "X-Method-Rate-Limit",
        }
    }

    /// The response header naming this scope's current counts.
    pub fn count_header(self) -> (r: &'static str)
        ensures
            r@ == spec_count_header(self),
    {
        match self {
            RateLimitType::Application => "X-App-Rate-Limit-Count",
            RateLimitType::Method => "X-Method-Rate-Limit-Count",
        }
    }

    /// Whether this scope must obey a 429 carrying the given
    /// `X-Rate-Limit-Type` value.
    pub fn handles_type_header(self, header: Option<&str>) -> (r: bool)
        ensures
            r == spec_handles_type(
                self,
                match header {
                    Some(h) => Some(h@),
                    None => None,
                },
            ),
    {
        match header {
            Some(h) => {
                if str_eq(h, "application") {
                    matches!(self, RateLimitType::Application)
                } else {
                    matches!(self, RateLimitType::Method)
                }
            },
            None => matches!(self, RateLimitType::Method),
        }
    }
}

} // verus!
