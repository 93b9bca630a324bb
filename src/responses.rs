//! Answers handed to status and configuration callers.
use vstd::prelude::*;

use crate::rate_limiter::RateLimitStats;
use crate::tokens_config::{answers_at, loosely_named, TokensConfig};

verus! {

/// Window counts of one rate-limited resource.
#[derive(Debug, Clone, Copy, PartialEq, Eq, Structural)]
pub struct RateLimitInfo {
    pub limit: u32,
    pub remaining: u32,
    /// Next minute boundary, in seconds since the Unix epoch.
    pub reset: i64,
    pub used: u32,
}

/// The rate-limited resources; only `core`, the remote source, is tracked.
#[derive(Debug, Clone, Copy, PartialEq, Eq, Structural)]
pub struct RateLimitResources {
    pub core: RateLimitInfo,
    pub search: Option<RateLimitInfo>,
    pub graphql: Option<RateLimitInfo>,
}

/// Rate-limit status of the remote source.
#[derive(Debug, Clone, Copy, PartialEq, Eq, Structural)]
pub struct RateLimitResponse {
    pub resources: RateLimitResources,
}

impl RateLimitResponse {
    /// The status report for the limiter's counts `stats`.
    pub fn from_stats(stats: RateLimitStats) -> (r: Self)
        ensures
            r.resources.core.limit == stats.limit,
            r.resources.core.remaining == stats.remaining,
            r.resources.core.reset == stats.reset,
            r.resources.core.used == stats.used,
            r.resources.search is None,
            r.resources.graphql is None,
    {
        RateLimitResponse {
            resources: RateLimitResources {
                core: RateLimitInfo {
                    limit: stats.limit,
                    remaining: stats.remaining,
                    reset: stats.reset,
                    used: stats.used,
                },
                search: None,
                graphql: None,
            },
        }
    }
}

/// The configured tokens and how many there are.
#[derive(Debug, Clone)]
pub struct AvailableTokensResponse {
    pub tokens: Vec<String>,
    pub count: usize,
}

impl AvailableTokensResponse {
    /// The list of `tokens`, counted.
    pub fn from_tokens(tokens: Vec<String>) -> (r: Self)
        ensures
            r.tokens@ == tokens@,
            r.count == tokens@.len(),
    {
        let count = tokens.len();
        AvailableTokensResponse { tokens, count }
    }
}

/// The exchanges that list a token.
#[derive(Debug, Clone)]
pub struct TokenExchangesResponse {
    pub ticker: String,
    pub exchanges: Vec<String>,
}

/// An error reported to a caller.
#[derive(Debug, Clone)]
pub struct ErrorResponse {
    pub error: String,
    pub details: Option<String>,
}

/// A copy of a list of strings.
fn copy_strings(v: &Vec<String>) -> (r: Vec<String>)
    ensures
        r@ == v@,
{
    let mut r: Vec<String> = Vec::new();
    let mut i: usize = 0;
    while i < v.len()
        invariant
            i <= v@.len(),
            r@ == v@.take(i as int),
        decreases v@.len() - i,
    {
        r.push(v[i].clone());
        assert(v@.take(i as int + 1) == v@.take(i as int).push(v@[i as int]));
        i = i + 1;
    }
    assert(v@.take(i as int) == v@);
    r
}

/// The exchanges of `token` as `get_exchanges` finds them, or an error naming
/// the token when it is not configured.
pub fn token_exchanges(config: &TokensConfig, token: &str) -> (r: Result<TokenExchangesResponse, ErrorResponse>)
    requires
        config.wf(),
    ensures
        match r {
            Ok(resp) => resp.ticker@ == token@ && exists|i: int|
                answers_at(config.entries(), token@, i) && resp.exchanges@ == config.entries()[i].1.exchanges@,
            Err(e) => e.error@ == "Token '"@ + token@ + "' not found in configuration"@ && e.details is None
                && forall|i: int| 0 <= i < config.entries().len() ==> !loosely_named(config.entries(), i, token@),
        },
{
    match config.get_exchanges(token) {
        Some(v) => Ok(TokenExchangesResponse { ticker: token.to_owned(), exchanges: copy_strings(v) }),
        None => {
            let mut error = "Token '".to_owned();
            error.append(token);
            error.append("' not found in configuration");
            Err(ErrorResponse { error, details: None })
        },
    }
}

} // verus!
