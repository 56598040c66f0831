//! One region's requester: the application limiter, the lazily created
//! per-method limiters, and the decisions of the acquire/send/retry loop.
//!
//! The asynchronous loop itself (sending over HTTP, sleeping, awaiting
//! notifications) lives outside; everything it decides — admission delays,
//! response classification, back-off — is computed here.

use vstd::prelude::*;

use crate::config::RiotApiConfig;
use crate::insert_only_map::{find_key, InsertOnlyMap};
use crate::rate_limit::{
    opt_max, spec_acquire_delay, spec_retry_after_decision, RateLimit,
};
use crate::rate_limit_type::RateLimitType;
use crate::text::view_opt_str;

verus! {

/// A status that counts as success with an empty (`None`) result.
pub open spec fn spec_status_none(status: u16) -> bool {
    status == 204 || status == 404
}

/// A 2xx status.
pub open spec fn spec_status_success(status: u16) -> bool {
    200 <= status < 300
}

/// A status worth retrying: rate limited or server error.
pub open spec fn spec_status_retryable(status: u16) -> bool {
    status == 429 || (500 <= status < 600)
}

/// What the retry loop does next after one attempt.
#[derive(Debug, Clone, Copy, PartialEq, Eq, Structural)]
pub enum RequestStep {
    /// Done: hand the response to the caller; `status_none` flags 204/404.
    Success { status_none: bool },
    /// Done: the failure is not retryable (or retries ran out); return the
    /// error carrying the last status.
    GiveUp,
    /// Retry after sleeping the exponential backoff below, milliseconds.
    RetryAfterBackoff { delay_ms: u64 },
    /// Retry immediately; the server-directed deadline already stored in the
    /// limiter delays the next acquisition.
    RetryAfterServer,
}

/// The exponential backoff before retry number `retries + 1`:
/// `2^retries` seconds in milliseconds, saturating at `u64::MAX`.
pub open spec fn spec_backoff_ms(retries: nat) -> int
    decreases retries,
{
    if retries == 0 {
        1000
    } else {
        let p = spec_backoff_ms((retries - 1) as nat);
        if 2 * p > u64::MAX {
            u64::MAX as int
        } else {
            2 * p
        }
    }
}

/// Computes the exponential backoff for this retry count.
pub fn backoff_ms(retries: u8) -> (d: u64)
    ensures
        d == spec_backoff_ms(retries as nat),
{
    let mut d: u64 = 1000;
    let mut i: u8 = 0;
    while i < retries
        invariant
            0 <= i <= retries,
            d == spec_backoff_ms(i as nat),
        decreases retries - i,
    {
        d = if d > u64::MAX / 2 {
            u64::MAX
        } else {
            d * 2
        };
        i = i + 1;
    }
    d
}

/// What one response decides: success (plain or empty), a terminal failure,
/// or a retry — backed off exponentially unless the server already directed
/// a wait.
pub open spec fn spec_response_step(
    status: u16,
    retries: u8,
    max_retries: u8,
    retry_after: Option<u64>,
) -> RequestStep {
    if spec_status_success(status) || spec_status_none(status) {
        RequestStep::Success { status_none: spec_status_none(status) }
    } else if retries >= max_retries || !spec_status_retryable(status) {
        RequestStep::GiveUp
    } else {
        match retry_after {
            None => RequestStep::RetryAfterBackoff {
                delay_ms: spec_backoff_ms(retries as nat) as u64,
            },
            Some(_) => RequestStep::RetryAfterServer,
        }
    }
}

/// Classifies one response of the retry loop.
pub fn handle_response_status(
    status: u16,
    retries: u8,
    max_retries: u8,
    retry_after: Option<u64>,
) -> (step: RequestStep)
    ensures
        step == spec_response_step(status, retries, max_retries, retry_after),
{
    let status_none = status == 204 || status == 404;
    if (200 <= status && status < 300) || status_none {
        return RequestStep::Success { status_none };
    }
    let retryable = status == 429 || (500 <= status && status < 600);
    if retries >= max_retries || !retryable {
        return RequestStep::GiveUp;
    }
    match retry_after {
        None => RequestStep::RetryAfterBackoff { delay_ms: backoff_ms(retries) },
        Some(_) => RequestStep::RetryAfterServer,
    }
}

/// What a failed send (connection, DNS, TLS) decides: retry with
/// exponential backoff while retries remain, else give up.
pub open spec fn spec_transport_error_step(retries: u8, max_retries: u8) -> RequestStep {
    if retries >= max_retries {
        RequestStep::GiveUp
    } else {
        RequestStep::RetryAfterBackoff { delay_ms: spec_backoff_ms(retries as nat) as u64 }
    }
}

/// Classifies one transport-level failure of the retry loop.
pub fn handle_transport_error(retries: u8, max_retries: u8) -> (step: RequestStep)
    ensures
        step == spec_transport_error_step(retries, max_retries),
{
    if retries >= max_retries {
        RequestStep::GiveUp
    } else {
        RequestStep::RetryAfterBackoff { delay_ms: backoff_ms(retries) }
    }
}

/// One region's requester: the application limiter plus the insert-only map
/// of per-method limiters, created lazily and never removed.
pub struct RegionalRequester {
    /// The region-wide application rate limit.
    pub app_rate_limit: RateLimit,
    /// Method rate limits, keyed by method id.
    pub method_rate_limits: InsertOnlyMap<RateLimit>,
}

impl RegionalRequester {
    /// The application limiter has application scope, every method limiter
    /// has method scope, all are well-formed, and the map is too.
    pub open spec fn wf(self) -> bool {
        &&& self.app_rate_limit.wf()
        &&& self.app_rate_limit.rate_limit_type is Application
        &&& self.method_rate_limits.wf()
        &&& forall|i: int|
            0 <= i < self.method_rate_limits.entries@.len() ==> (
            #[trigger] self.method_rate_limits.entries@[i]).1.wf()
                && self.method_rate_limits.entries@[i].1.rate_limit_type is Method
    }

    /// No limiter holds a timestamp in the future of `now`.
    pub open spec fn current_at(self, now: u64) -> bool {
        &&& self.app_rate_limit.current_at(now)
        &&& forall|i: int|
            0 <= i < self.method_rate_limits.entries@.len() ==> (
            #[trigger] self.method_rate_limits.entries@[i]).1.current_at(now)
    }

    /// A fresh requester with no method limiters yet.
    pub fn new() -> (r: RegionalRequester)
        ensures
            r.wf(),
            forall|now: u64| r.current_at(now),
            r.method_rate_limits.entries@.len() == 0,
            r.app_rate_limit.retry_after_ms is None,
    {
        RegionalRequester {
            app_rate_limit: RateLimit::new(RateLimitType::Application),
            method_rate_limits: InsertOnlyMap::new(),
        }
    }

    /// Looks up or lazily creates the method limiter for `method_id` and
    /// returns its stable index. Existing limiters are never touched, so an
    /// index handed out once stays valid and keeps naming the same limiter.
    pub fn method_limiter(&mut self, method_id: &str) -> (idx: usize)
        requires
            old(self).wf(),
        ensures
            final(self).wf(),
            final(self).app_rate_limit == old(self).app_rate_limit,
            // The map only grows; every existing entry survives unchanged.
            final(self).method_rate_limits.entries@.subrange(
                0,
                old(self).method_rate_limits.entries@.len() as int,
            ) == old(self).method_rate_limits.entries@,
            final(self).method_rate_limits.entries@.len() <= old(self).method_rate_limits.entries@.len() + 1,
            idx < final(self).method_rate_limits.entries@.len(),
            final(self).method_rate_limits.entries@[idx as int].0@ == method_id@,
            idx == find_key(final(self).method_rate_limits.entries@, method_id@),
            // A fresh limiter starts with no back-off and method scope.
            !old(self).method_rate_limits.spec_contains(method_id@) ==> final(self).method_rate_limits.entries@[idx as int].1.retry_after_ms is None,
            forall|now: u64|
                old(self).current_at(now) ==> final(self).current_at(now),
    {
        let fresh = RateLimit::new(RateLimitType::Method);
        let ghost entries0 = self.method_rate_limits.entries@;
        let idx = self.method_rate_limits.get_or_insert(method_id, fresh);
        proof {
            assert forall|i: int|
                0 <= i < self.method_rate_limits.entries@.len() implies (
            #[trigger] self.method_rate_limits.entries@[i]).1.wf()
                && self.method_rate_limits.entries@[i].1.rate_limit_type is Method by {
                if i < entries0.len() {
                    assert(self.method_rate_limits.entries@[i] == self.method_rate_limits.entries@
                        .subrange(0, entries0.len() as int)[i]);
                }
            }
            assert forall|now: u64|
                old(self).current_at(now) implies final(self).current_at(now) by {
                assert forall|i: int|
                    0 <= i < self.method_rate_limits.entries@.len() implies (
                #[trigger] self.method_rate_limits.entries@[i]).1.current_at(now) by {
                    if i < entries0.len() {
                        assert(self.method_rate_limits.entries@[i] == self.method_rate_limits
                            .entries@.subrange(0, entries0.len() as int)[i]);
                    }
                }
            }
        }
        idx
    }

    /// One admission round against the application limiter and the method
    /// limiter at `method_idx`: the delay to wait, or `None` after one token
    /// was taken from every bucket of both.
    pub fn acquire_or_delay(&mut self, method_idx: usize, now: u64) -> (delay: Option<u64>)
        requires
            old(self).wf(),
            old(self).current_at(now),
            method_idx < old(self).method_rate_limits.entries@.len(),
        ensures
            final(self).wf(),
            final(self).current_at(now),
            delay == spec_acquire_delay(
                old(self).app_rate_limit,
                old(self).method_rate_limits.entries@[method_idx as int].1,
                now,
            ),
            final(self).method_rate_limits.entries@.len() == old(self).method_rate_limits.entries@.len(),
            forall|k: int|
                0 <= k < old(self).method_rate_limits.entries@.len() && k != method_idx ==> final(self).method_rate_limits.entries@[k] == old(self).method_rate_limits.entries@[k],
            final(self).app_rate_limit.retry_after_ms == old(self).app_rate_limit.retry_after_ms,
    {
        let method_limiter = self.method_rate_limits.get_mut(method_idx);
        RateLimit::acquire_both_or_duration(&mut self.app_rate_limit, method_limiter, now)
    }

    /// Feeds one response's status and headers to both limiters: each scope
    /// applies its retry-after responsibility and syncs its buckets from its
    /// own limit/count headers. Returns the greater retry-after delay of the
    /// two (if either was set), and whether each limiter replaced its
    /// buckets (its waiters should then be notified).
    pub fn on_response(
        &mut self,
        config: &RiotApiConfig,
        method_idx: usize,
        status: u16,
        type_header: Option<&str>,
        retry_after_header: Option<&str>,
        app_limit_header: Option<&str>,
        app_count_header: Option<&str>,
        method_limit_header: Option<&str>,
        method_count_header: Option<&str>,
        now: u64,
    ) -> (r: (Option<u64>, bool, bool))
        requires
            old(self).wf(),
            old(self).current_at(now),
            config.wf(),
            method_idx < old(self).method_rate_limits.entries@.len(),
        ensures
            final(self).wf(),
            final(self).current_at(now),
            r.0 == opt_max(
                spec_retry_after_decision(
                    RateLimitType::Application,
                    status,
                    view_opt_str(type_header),
                    view_opt_str(retry_after_header),
                    now,
                ),
                spec_retry_after_decision(
                    RateLimitType::Method,
                    status,
                    view_opt_str(type_header),
                    view_opt_str(retry_after_header),
                    now,
                ),
            ),
            r.1 == old(self).app_rate_limit.spec_sync_updates(
                *config,
                view_opt_str(app_limit_header),
                view_opt_str(app_count_header),
            ),
            r.2 == old(self).method_rate_limits.entries@[method_idx as int].1.spec_sync_updates(
                *config,
                view_opt_str(method_limit_header),
                view_opt_str(method_count_header),
            ),
            final(self).method_rate_limits.entries@.len() == old(self).method_rate_limits.entries@.len(),
            forall|k: int|
                0 <= k < old(self).method_rate_limits.entries@.len() && k != method_idx ==> final(self).method_rate_limits.entries@[k] == old(self).method_rate_limits.entries@[k],
    {
        let (app_retry, app_updated) = self.app_rate_limit.on_response(
            config,
            status,
            type_header,
            retry_after_header,
            app_limit_header,
            app_count_header,
            now,
        );
        let method_limiter = self.method_rate_limits.get_mut(method_idx);
        let (method_retry, method_updated) = method_limiter.on_response(
            config,
            status,
            type_header,
            retry_after_header,
            method_limit_header,
            method_count_header,
            now,
        );
        let retry_after = crate::rate_limit::opt_max_exec(app_retry, method_retry);
        (retry_after, app_updated, method_updated)
    }
}

} // verus!
