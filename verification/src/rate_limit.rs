//! A limiter for one scope: an ordered set of token buckets kept in sync
//! with the limits the server reports, plus a server-directed back-off
//! deadline. The application limiter and a method limiter are always
//! acquired together.

use vstd::prelude::*;

use crate::config::RiotApiConfig;
use crate::headers::{spec_parse_limits, spec_retry_after_ms, parse_limits, parse_retry_after_ms};
use crate::rate_limit_type::{spec_handles_type, RateLimitType};
use crate::token_bucket::{trimmed, TokenBucket};
use crate::{spec_scale_ppm, PPM_SCALE};

verus! {

/// The greater of two optional delays; `None` means no delay.
pub open spec fn opt_max(a: Option<u64>, b: Option<u64>) -> Option<u64> {
    match (a, b) {
        (Some(x), Some(y)) => if x >= y {
            Some(x)
        } else {
            Some(y)
        },
        (Some(x), None) => Some(x),
        (None, Some(y)) => Some(y),
        (None, None) => None,
    }
}

/// Picks the greater of two optional delays.
pub fn opt_max_exec(a: Option<u64>, b: Option<u64>) -> (r: Option<u64>)
    ensures
        r == opt_max(a, b),
{
    match (a, b) {
        (Some(x), Some(y)) => if x >= y {
            Some(x)
        } else {
            Some(y)
        },
        (Some(x), None) => Some(x),
        (None, Some(y)) => Some(y),
        (None, None) => None,
    }
}

/// The greatest bucket delay across a sequence of buckets.
pub open spec fn spec_buckets_delay(bs: Seq<TokenBucket>, now: u64) -> Option<u64>
    decreases bs.len(),
{
    if bs.len() == 0 {
        None
    } else {
        opt_max(bs[0].spec_delay_at(now), spec_buckets_delay(bs.drop_first(), now))
    }
}

/// Peeling one bucket off the front.
proof fn lemma_buckets_delay_step(bs: Seq<TokenBucket>, i: int, now: u64)
    requires
        0 <= i < bs.len(),
    ensures
        spec_buckets_delay(bs.skip(i), now) == opt_max(
            bs[i].spec_delay_at(now),
            spec_buckets_delay(bs.skip(i + 1), now),
        ),
{
    assert(bs.skip(i)[0] == bs[i]);
    assert(bs.skip(i).drop_first() =~= bs.skip(i + 1));
}

/// The buckets kept their tuning but were lazily trimmed at `now`.
pub open spec fn buckets_trimmed_at(
    new_bs: Seq<TokenBucket>,
    old_bs: Seq<TokenBucket>,
    now: u64,
) -> bool {
    &&& new_bs.len() == old_bs.len()
    &&& forall|i: int|
        0 <= i < old_bs.len() ==> (#[trigger] new_bs[i]).shape() == old_bs[i].shape()
            && new_bs[i].timestamps@ == trimmed(old_bs[i].timestamps@, old_bs[i].cutoff(now))
}

/// The buckets kept their tuning, were lazily trimmed at `now`, and each
/// recorded one admission at `now`.
pub open spec fn buckets_tokened_at(
    new_bs: Seq<TokenBucket>,
    old_bs: Seq<TokenBucket>,
    now: u64,
) -> bool {
    &&& new_bs.len() == old_bs.len()
    &&& forall|i: int|
        0 <= i < old_bs.len() ==> (#[trigger] new_bs[i]).shape() == old_bs[i].shape()
            && new_bs[i].timestamps@ == seq![now] + trimmed(
            old_bs[i].timestamps@,
            old_bs[i].cutoff(now),
        )
}

/// A rate limiter for one scope, composing the scope's token buckets into a
/// single admission gate.
pub struct RateLimit {
    /// The scope this limiter enforces.
    pub rate_limit_type: RateLimitType,
    /// Buckets for this scope, replaced whenever the server teaches us a new
    /// shape. Starts as a single 1-per-second placeholder.
    pub buckets: Vec<TokenBucket>,
    /// When set, every acquisition waits until this instant (milliseconds).
    pub retry_after_ms: Option<u64>,
}

impl RateLimit {
    /// Every bucket is well-formed.
    pub open spec fn wf(self) -> bool {
        forall|i: int| 0 <= i < self.buckets@.len() ==> (#[trigger] self.buckets@[i]).wf()
    }

    /// No bucket holds a timestamp in the future of `now`.
    pub open spec fn current_at(self, now: u64) -> bool {
        forall|i: int|
            0 <= i < self.buckets@.len() ==> (#[trigger] self.buckets@[i]).current_at(now)
    }

    /// The remaining server-directed back-off at `now`, if any.
    pub open spec fn spec_retry_delay(self, now: u64) -> Option<u64> {
        match self.retry_after_ms {
            Some(deadline) => if deadline > now {
                Some((deadline - now) as u64)
            } else {
                None
            },
            None => None,
        }
    }

    /// A fresh limiter: one provisional 1-per-second bucket until the first
    /// response teaches it the real limits.
    pub fn new(rate_limit_type: RateLimitType) -> (rl: RateLimit)
        ensures
            rl.wf(),
            forall|now: u64| rl.current_at(now),
            rl.rate_limit_type == rate_limit_type,
            rl.retry_after_ms is None,
            rl.buckets@.len() == 1,
            rl.buckets@[0].given_total_limit == 1,
            rl.buckets@[0].duration_ms == 1000,
            rl.buckets@[0].timestamps@ == Seq::<u64>::empty(),
    {
        let initial = TokenBucket::new(1000, 1, 0, PPM_SCALE, PPM_SCALE);
        let mut buckets: Vec<TokenBucket> = Vec::new();
        buckets.push(initial);
        RateLimit { rate_limit_type, buckets, retry_after_ms: None }
    }

    /// The remaining back-off delay at `now`, or `None` once the deadline
    /// has passed (or none was set).
    pub fn get_retry_after_delay(&self, now: u64) -> (r: Option<u64>)
        ensures
            r == self.spec_retry_delay(now),
    {
        match self.retry_after_ms {
            Some(deadline) => if deadline > now {
                Some(deadline - now)
            } else {
                None
            },
            None => None,
        }
    }

    /// Asks every bucket for its delay at `now` (trimming each as a side
    /// effect) and returns the greatest.
    fn max_delay_and_trim(&mut self, now: u64) -> (d: Option<u64>)
        requires
            old(self).wf(),
            old(self).current_at(now),
        ensures
            final(self).wf(),
            final(self).current_at(now),
            final(self).rate_limit_type == old(self).rate_limit_type,
            final(self).retry_after_ms == old(self).retry_after_ms,
            buckets_trimmed_at(final(self).buckets@, old(self).buckets@, now),
            d == spec_buckets_delay(old(self).buckets@, now),
    {
        let ghost bs = self.buckets@;
        proof {
            assert(bs.skip(0) =~= bs);
        }
        let mut acc: Option<u64> = None;
        let mut i: usize = 0;
        let n = self.buckets.len();
        while i < n
            invariant
                n == bs.len() == self.buckets@.len(),
                0 <= i <= n,
                self.rate_limit_type == old(self).rate_limit_type,
                self.retry_after_ms == old(self).retry_after_ms,
                forall|k: int| 0 <= k < n ==> (#[trigger] bs[k]).wf() && bs[k].current_at(now),
                forall|k: int|
                    0 <= k < i ==> (#[trigger] self.buckets@[k]).shape() == bs[k].shape()
                        && self.buckets@[k].timestamps@ == trimmed(
                        bs[k].timestamps@,
                        bs[k].cutoff(now),
                    ) && self.buckets@[k].wf() && self.buckets@[k].current_at(now),
                forall|k: int| i <= k < n ==> self.buckets@[k] == bs[k],
                opt_max(acc, spec_buckets_delay(bs.skip(i as int), now)) == spec_buckets_delay(
                    bs,
                    now,
                ),
            decreases n - i,
        {
            proof {
                lemma_buckets_delay_step(bs, i as int, now);
            }
            let b = &mut self.buckets[i];
            let d = b.get_delay(now);
            proof {
                assert(d == bs[i as int].spec_delay_at(now));
            }
            acc = opt_max_exec(acc, d);
            i = i + 1;
        }
        proof {
            assert(bs.skip(n as int) =~= Seq::<TokenBucket>::empty());
        }
        acc
    }

    /// Records one admission in every bucket at `now`.
    fn take_tokens(&mut self, now: u64)
        requires
            old(self).wf(),
            old(self).current_at(now),
        ensures
            final(self).wf(),
            final(self).current_at(now),
            final(self).rate_limit_type == old(self).rate_limit_type,
            final(self).retry_after_ms == old(self).retry_after_ms,
            buckets_tokened_at(final(self).buckets@, old(self).buckets@, now),
    {
        let ghost bs = self.buckets@;
        let mut i: usize = 0;
        let n = self.buckets.len();
        while i < n
            invariant
                n == bs.len() == self.buckets@.len(),
                0 <= i <= n,
                self.rate_limit_type == old(self).rate_limit_type,
                self.retry_after_ms == old(self).retry_after_ms,
                forall|k: int| 0 <= k < n ==> (#[trigger] bs[k]).wf() && bs[k].current_at(now),
                forall|k: int|
                    0 <= k < i ==> (#[trigger] self.buckets@[k]).shape() == bs[k].shape()
                        && self.buckets@[k].timestamps@ == seq![now] + trimmed(
                        bs[k].timestamps@,
                        bs[k].cutoff(now),
                    ) && self.buckets@[k].wf() && self.buckets@[k].current_at(now),
                forall|k: int| i <= k < n ==> self.buckets@[k] == bs[k],
            decreases n - i,
        {
            proof {
                assert(self.buckets@[i as int] == bs[i as int]);
                assert(bs[i as int].wf());
                assert(bs[i as int].current_at(now));
            }
            let b = &mut self.buckets[i];
            let ghost pre = *b;
            let _ = b.get_tokens(1, now);
            proof {
                assert(b.timestamps@ =~= seq![now] + trimmed(pre.timestamps@, pre.cutoff(now)));
            }
            i = i + 1;
        }
    }
}

/// The combined server-directed back-off of the two limiters: the greater
/// remaining deadline, if either is in the future.
pub open spec fn spec_combined_retry(app: RateLimit, method: RateLimit, now: u64) -> Option<u64> {
    opt_max(app.spec_retry_delay(now), method.spec_retry_delay(now))
}

/// What one acquisition round decides at `now`: the combined back-off if
/// either deadline is pending, else the greatest bucket delay of both
/// limiters, else admission (`None`).
pub open spec fn spec_acquire_delay(app: RateLimit, method: RateLimit, now: u64) -> Option<u64> {
    match spec_combined_retry(app, method, now) {
        Some(d) => Some(d),
        None => opt_max(
            spec_buckets_delay(app.buckets@, now),
            spec_buckets_delay(method.buckets@, now),
        ),
    }
}

impl RateLimit {
    /// One round of the dual acquisition: returns how long to wait, or
    /// `None` after recording one admission in every bucket of both
    /// limiters. Callers loop: on `Some`, sleep (or await a limit update)
    /// and try again.
    pub fn acquire_both_or_duration(app: &mut RateLimit, method: &mut RateLimit, now: u64) -> (delay:
        Option<u64>)
        requires
            old(app).wf(),
            old(app).current_at(now),
            old(method).wf(),
            old(method).current_at(now),
        ensures
            final(app).wf(),
            final(app).current_at(now),
            final(method).wf(),
            final(method).current_at(now),
            final(app).rate_limit_type == old(app).rate_limit_type,
            final(method).rate_limit_type == old(method).rate_limit_type,
            final(app).retry_after_ms == old(app).retry_after_ms,
            final(method).retry_after_ms == old(method).retry_after_ms,
            delay == spec_acquire_delay(*old(app), *old(method), now),
            // A pending back-off leaves the buckets untouched.
            spec_combined_retry(*old(app), *old(method), now) is Some ==> final(app).buckets@
                == old(app).buckets@ && final(method).buckets@ == old(method).buckets@,
            // A bucket delay trims; no admission is recorded.
            spec_combined_retry(*old(app), *old(method), now) is None && delay is Some
                ==> buckets_trimmed_at(final(app).buckets@, old(app).buckets@, now)
                && buckets_trimmed_at(final(method).buckets@, old(method).buckets@, now),
            // Admission trims and records one token in every bucket.
            delay is None ==> buckets_tokened_at(final(app).buckets@, old(app).buckets@, now)
                && buckets_tokened_at(final(method).buckets@, old(method).buckets@, now),
    {
        let retry = opt_max_exec(
            app.get_retry_after_delay(now),
            method.get_retry_after_delay(now),
        );
        if let Some(d) = retry {
            return Some(d);
        }
        let app_delay = app.max_delay_and_trim(now);
        let method_delay = method.max_delay_and_trim(now);
        let delay = opt_max_exec(app_delay, method_delay);
        if delay.is_some() {
            return delay;
        }
        let ghost app_trimmed = app.buckets@;
        let ghost method_trimmed = method.buckets@;
        app.take_tokens(now);
        method.take_tokens(now);
        proof {
            // Recording happened on already-trimmed buckets, whose second
            // trim removes nothing.
            assert forall|i: int| 0 <= i < old(app).buckets@.len() implies (
            #[trigger] app.buckets@[i]).timestamps@ == seq![now] + trimmed(
                old(app).buckets@[i].timestamps@,
                old(app).buckets@[i].cutoff(now),
            ) by {
                assert(app_trimmed[i].timestamps@ == trimmed(
                    old(app).buckets@[i].timestamps@,
                    old(app).buckets@[i].cutoff(now),
                ));
                crate::token_bucket::lemma_trimmed_idempotent(
                    old(app).buckets@[i].timestamps@,
                    old(app).buckets@[i].cutoff(now),
                );
            }
            assert forall|i: int| 0 <= i < old(method).buckets@.len() implies (
            #[trigger] method.buckets@[i]).timestamps@ == seq![now] + trimmed(
                old(method).buckets@[i].timestamps@,
                old(method).buckets@[i].cutoff(now),
            ) by {
                assert(method_trimmed[i].timestamps@ == trimmed(
                    old(method).buckets@[i].timestamps@,
                    old(method).buckets@[i].cutoff(now),
                ));
                crate::token_bucket::lemma_trimmed_idempotent(
                    old(method).buckets@[i].timestamps@,
                    old(method).buckets@[i].cutoff(now),
                );
            }
        }
        None
    }
}

/// What a 429 does to the back-off deadline of a limiter of scope `t`: the
/// scope responsible for the reported violation type parses `Retry-After`
/// (seconds, fraction tolerated) and adds a half-second rounding cushion.
/// Any other status, scope, missing header, parse failure, or value that
/// would overflow the clock leaves the limiter alone.
pub open spec fn spec_retry_after_decision(
    t: RateLimitType,
    status: u16,
    type_header: Option<Seq<char>>,
    retry_after_header: Option<Seq<char>>,
    now: u64,
) -> Option<u64> {
    if status != 429 {
        None
    } else if !spec_handles_type(t, type_header) {
        None
    } else {
        match retry_after_header {
            Some(h) => match spec_retry_after_ms(h) {
                Some(v) => if v + 500 + now <= u64::MAX {
                    Some((v + 500) as u64)
                } else {
                    None
                },
                None => None,
            },
            None => None,
        }
    }
}

/// One bucket has the shape one header entry describes.
pub open spec fn spec_bucket_matches(b: TokenBucket, pair: (u64, u64)) -> bool {
    &&& b.given_total_limit == pair.0
    &&& b.duration_ms == pair.1 * 1000
}

/// The buckets have exactly the shapes the limit entries describe.
pub open spec fn spec_shapes_match(bs: Seq<TokenBucket>, limits: Seq<(u64, u64)>) -> bool {
    &&& bs.len() == limits.len()
    &&& forall|i: int| 0 <= i < bs.len() ==> spec_bucket_matches(#[trigger] bs[i], limits[i])
}

/// Parsed limit and count lists that buckets can actually be built from:
/// windows align pairwise, limits are positive, window widths fit the
/// clock, and counts are sane.
pub open spec fn spec_pairs_usable(
    limits: Seq<(u64, u64)>,
    counts: Seq<(u64, u64)>,
    overhead_ms: u64,
) -> bool {
    &&& limits.len() == counts.len()
    &&& forall|i: int| 0 <= i < limits.len() ==> (#[trigger] limits[i]).1 == counts[i].1
    &&& forall|i: int| 0 <= i < limits.len() ==> (#[trigger] limits[i]).0 >= 1
    &&& forall|i: int|
        0 <= i < limits.len() ==> (#[trigger] limits[i]).1 * 1000 + overhead_ms <= u64::MAX
    &&& forall|i: int| 0 <= i < counts.len() ==> (#[trigger] counts[i]).0 <= u32::MAX
}

/// Both headers present and both parsed.
pub open spec fn spec_sync_pairs(lim: Option<Seq<char>>, cnt: Option<Seq<char>>) -> Option<
    (Seq<(u64, u64)>, Seq<(u64, u64)>),
> {
    match (lim, cnt) {
        (Some(l), Some(c)) => match (spec_parse_limits(l), spec_parse_limits(c)) {
            (Some(ls), Some(cs)) => Some((ls, cs)),
            _ => None,
        },
        _ => None,
    }
}

/// The burst factor scaled by `N / (N + 1)`, clamped to at least one part
/// per million, so a bucket is never saturated exactly at its boundary
/// instant.
pub open spec fn spec_scaled_burst_ppm(burst_factor_ppm: u32, limit: u64) -> int {
    crate::token_bucket::max_1((burst_factor_ppm * limit) / (limit + 1))
}

/// The bucket a sync builds from one limit entry and its count entry: the
/// configured factors applied to the server-reported shape, pre-populated
/// with `count` admissions at `now`.
pub open spec fn spec_synced_bucket(
    b: TokenBucket,
    config: RiotApiConfig,
    t: RateLimitType,
    limit: (u64, u64),
    count: (u64, u64),
    now: u64,
) -> bool {
    let usage = config.spec_usage_factor(t);
    let scaled_burst = spec_scaled_burst_ppm(config.burst_factor_ppm, limit.0);
    &&& b.given_total_limit == limit.0
    &&& b.rate_usage_factor_ppm == usage
    &&& b.duration_ms == limit.1 * 1000
    &&& b.duration_overhead_ms == config.duration_overhead_ms
    &&& b.total_limit == crate::token_bucket::max_1(spec_scale_ppm(limit.0 as int, usage as int))
    &&& b.burst_duration_ms == spec_scale_ppm(limit.1 * 1000 + config.duration_overhead_ms,
    scaled_burst)
    &&& b.burst_limit == crate::token_bucket::max_1(
        spec_scale_ppm(b.total_limit as int, scaled_burst),
    )
    &&& b.timestamps@ == Seq::new(count.0 as nat, |k: int| now)
}

impl RateLimit {
    /// Whether these headers make this limiter replace its buckets: both
    /// present, both parse, the lists are usable, and the shapes differ
    /// from the current buckets.
    pub open spec fn spec_sync_updates(
        self,
        config: RiotApiConfig,
        lim: Option<Seq<char>>,
        cnt: Option<Seq<char>>,
    ) -> bool {
        match spec_sync_pairs(lim, cnt) {
            Some(pairs) => spec_pairs_usable(pairs.0, pairs.1, config.duration_overhead_ms)
                && !spec_shapes_match(self.buckets@, pairs.0),
            None => false,
        }
    }

    /// Applies the retry-after side of a response: on a 429 this scope is
    /// responsible for, parses `Retry-After`, stores `now + 0.5 s + value`
    /// as the deadline, and returns that delay. Otherwise changes nothing.
    pub fn on_response_retry_after(
        &mut self,
        status: u16,
        type_header: Option<&str>,
        retry_after_header: Option<&str>,
        now: u64,
    ) -> (delay: Option<u64>)
        ensures
            delay == spec_retry_after_decision(
                old(self).rate_limit_type,
                status,
                crate::text::view_opt_str(type_header),
                crate::text::view_opt_str(retry_after_header),
                now,
            ),
            delay matches Some(d) ==> *final(self) == (RateLimit {
                retry_after_ms: Some((now + d) as u64),
                ..*old(self)
            }),
            delay is None ==> *final(self) == *old(self),
    {
        if status != 429 {
            return None;
        }
        if !self.rate_limit_type.handles_type_header(type_header) {
            return None;
        }
        let header = match retry_after_header {
            Some(h) => h,
            None => {
                return None;
            },
        };
        let parsed = match parse_retry_after_ms(header) {
            Some(v) => v,
            None => {
                proof {
                    if spec_retry_after_ms(header@) is Some {
                        // The parsed value overflows `u64`, so the guarded
                        // sum overflows as well.
                        assert(spec_retry_after_ms(header@).unwrap() > u64::MAX);
                    }
                }
                return None;
            },
        };
        let ghost decision = spec_retry_after_decision(
            old(self).rate_limit_type,
            status,
            crate::text::view_opt_str(type_header),
            crate::text::view_opt_str(retry_after_header),
            now,
        );
        proof {
            crate::headers::lemma_retry_after_nonneg(header@);
            let v = spec_retry_after_ms(header@).unwrap();
            assert(v == parsed);
            if v + 500 + now <= u64::MAX {
                assert(decision == Some((v + 500) as u64));
            } else {
                assert(decision is None);
            }
        }
        if parsed <= u64::MAX - 500 && now <= u64::MAX - 500 - parsed {
            let delay = parsed + 500;
            self.retry_after_ms = Some(now + delay);
            proof {
                assert(decision == Some(delay));
            }
            Some(delay)
        } else {
            proof {
                assert(decision is None);
            }
            None
        }
    }
}

/// Whether the current buckets differ from the shapes a limit header
/// describes, so that a sync must replace them.
pub fn buckets_require_updating(limits: &Vec<(u64, u64)>, buckets: &Vec<TokenBucket>) -> (r: bool)
    ensures
        r == !spec_shapes_match(buckets@, limits@),
{
    if limits.len() != buckets.len() {
        return true;
    }
    let mut i: usize = 0;
    while i < limits.len()
        invariant
            limits@.len() == buckets@.len(),
            0 <= i <= limits@.len(),
            forall|k: int| 0 <= k < i ==> spec_bucket_matches(#[trigger] buckets@[k], limits@[k]),
        decreases limits@.len() - i,
    {
        let (limit, secs) = limits[i];
        let b = &buckets[i];
        if b.given_total_limit != limit {
            return true;
        }
        if (b.duration_ms as u128) != (secs as u128) * 1000 {
            return true;
        }
        i = i + 1;
    }
    false
}

/// Whether parsed limit and count lists can be turned into buckets.
fn pairs_usable(limits: &Vec<(u64, u64)>, counts: &Vec<(u64, u64)>, overhead_ms: u64) -> (r: bool)
    ensures
        r == spec_pairs_usable(limits@, counts@, overhead_ms),
{
    if limits.len() != counts.len() {
        return false;
    }
    let mut i: usize = 0;
    while i < limits.len()
        invariant
            limits@.len() == counts@.len(),
            0 <= i <= limits@.len(),
            forall|k: int|
                0 <= k < i ==> (#[trigger] limits@[k]).1 == counts@[k].1 && limits@[k].0 >= 1
                    && limits@[k].1 * 1000 + overhead_ms <= u64::MAX && counts@[k].0 <= u32::MAX,
        decreases limits@.len() - i,
    {
        let (limit, secs) = limits[i];
        let (count, count_secs) = counts[i];
        if secs != count_secs || limit < 1 || count > (u32::MAX as u64) {
            proof {
                lemma_pairs_usable_at(limits@, counts@, overhead_ms, i as int);
            }
            return false;
        }
        if (secs as u128) * 1000 + (overhead_ms as u128) > (u64::MAX as u128) {
            proof {
                lemma_pairs_usable_at(limits@, counts@, overhead_ms, i as int);
            }
            return false;
        }
        i = i + 1;
    }
    proof {
        assert forall|i: int| 0 <= i < counts@.len() implies (#[trigger] counts@[i]).0
            <= u32::MAX by {
            assert((limits@[i]).0 >= 1 && counts@[i].0 <= u32::MAX);
        }
        assert forall|i: int| 0 <= i < limits@.len() implies (#[trigger] limits@[i]).1
            == counts@[i].1 && limits@[i].0 >= 1 && limits@[i].1 * 1000 + overhead_ms
            <= u64::MAX by {
            assert((limits@[i]).0 >= 1);
        }
    }
    true
}

/// What holds of entry `i` whenever the whole pair of lists is usable.
proof fn lemma_pairs_usable_at(
    limits: Seq<(u64, u64)>,
    counts: Seq<(u64, u64)>,
    overhead_ms: u64,
    i: int,
)
    requires
        0 <= i < limits.len(),
        limits.len() == counts.len(),
    ensures
        spec_pairs_usable(limits, counts, overhead_ms) ==> limits[i].1 == counts[i].1
            && limits[i].0 >= 1 && limits[i].1 * 1000 + overhead_ms <= u64::MAX && counts[i].0
            <= u32::MAX,
{
}

impl RateLimit {
    /// Applies the bucket-sync side of a response: when the scope's limit
    /// and count headers parse into usable lists whose shapes differ from
    /// the current buckets, atomically replaces the buckets with freshly
    /// built ones pre-populated with the reported counts, and reports that
    /// a replacement happened (so waiters can be notified).
    pub fn on_response_rate_limits(
        &mut self,
        config: &RiotApiConfig,
        limit_header: Option<&str>,
        count_header: Option<&str>,
        now: u64,
    ) -> (updated: bool)
        requires
            config.wf(),
        ensures
            updated == old(self).spec_sync_updates(
                *config,
                crate::text::view_opt_str(limit_header),
                crate::text::view_opt_str(count_header),
            ),
            !updated ==> *final(self) == *old(self),
            updated ==> {
                let pairs = spec_sync_pairs(
                    crate::text::view_opt_str(limit_header),
                    crate::text::view_opt_str(count_header),
                ).unwrap();
                &&& final(self).buckets@.len() == pairs.0.len()
                &&& forall|i: int|
                    0 <= i < pairs.0.len() ==> spec_synced_bucket(
                        #[trigger] final(self).buckets@[i],
                        *config,
                        old(self).rate_limit_type,
                        pairs.0[i],
                        pairs.1[i],
                        now,
                    )
            },
            final(self).rate_limit_type == old(self).rate_limit_type,
            final(self).retry_after_ms == old(self).retry_after_ms,
            old(self).wf() ==> final(self).wf(),
            old(self).current_at(now) ==> final(self).current_at(now),
    {
        let lh = match limit_header {
            Some(h) => h,
            None => {
                return false;
            },
        };
        let ch = match count_header {
            Some(h) => h,
            None => {
                return false;
            },
        };
        let limits = match parse_limits(lh) {
            Some(v) => v,
            None => {
                return false;
            },
        };
        let counts = match parse_limits(ch) {
            Some(v) => v,
            None => {
                return false;
            },
        };
        if !pairs_usable(&limits, &counts, config.duration_overhead_ms) {
            return false;
        }
        if !buckets_require_updating(&limits, &self.buckets) {
            return false;
        }
        let usage: u32 = match self.rate_limit_type {
            RateLimitType::Application => config.app_rate_usage_factor_ppm,
            RateLimitType::Method => config.method_rate_usage_factor_ppm,
        };
        let mut new_buckets: Vec<TokenBucket> = Vec::new();
        let mut i: usize = 0;
        while i < limits.len()
            invariant
                limits@.len() == counts@.len(),
                0 <= i <= limits@.len(),
                config.wf(),
                usage == config.spec_usage_factor(old(self).rate_limit_type),
                self.rate_limit_type == old(self).rate_limit_type,
                spec_pairs_usable(limits@, counts@, config.duration_overhead_ms),
                new_buckets@.len() == i,
                forall|k: int|
                    0 <= k < i ==> spec_synced_bucket(
                        #[trigger] new_buckets@[k],
                        *config,
                        old(self).rate_limit_type,
                        limits@[k],
                        counts@[k],
                        now,
                    ) && new_buckets@[k].wf() && new_buckets@[k].current_at(now),
            decreases limits@.len() - i,
        {
            let (limit, secs) = limits[i];
            let (count, _) = counts[i];
            proof {
                assert(limits@[i as int].0 >= 1);
                assert(limits@[i as int].1 * 1000 + config.duration_overhead_ms <= u64::MAX);
                assert(counts@[i as int].0 <= u32::MAX);
            }
            proof {
                let b = config.burst_factor_ppm as int;
                let l = limit as int;
                assert(0 <= b * l <= 1_000_000 * (u64::MAX as int)) by (nonlinear_arith)
                    requires
                        0 <= b <= 1_000_000,
                        0 <= l <= u64::MAX,
                ;
                assert(b * l / (l + 1) <= b) by (nonlinear_arith)
                    requires
                        0 < b,
                        1 <= l,
                ;
            }
            let scaled_burst_wide: u128 = (config.burst_factor_ppm as u128) * (limit as u128) / (
            limit as u128 + 1);
            let scaled_burst: u32 = if scaled_burst_wide < 1 {
                1
            } else {
                scaled_burst_wide as u32
            };
            let duration_ms: u64 = secs * 1000;
            let mut bucket = TokenBucket::new(
                duration_ms,
                limit,
                config.duration_overhead_ms,
                scaled_burst,
                usage,
            );
            let _ = bucket.get_tokens(count as usize, now);
            proof {
                assert(crate::token_bucket::trimmed(Seq::<u64>::empty(), bucket.cutoff(now))
                    =~= Seq::<u64>::empty());
                assert(bucket.timestamps@ =~= Seq::new(count as nat, |k: int| now));
            }
            new_buckets.push(bucket);
            i = i + 1;
        }
        self.buckets = new_buckets;
        true
    }

    /// Applies a whole response to this limiter: the retry-after side and
    /// the bucket-sync side. Returns the retry-after delay, if one was set,
    /// and whether the buckets were replaced (waiters should then be woken).
    pub fn on_response(
        &mut self,
        config: &RiotApiConfig,
        status: u16,
        type_header: Option<&str>,
        retry_after_header: Option<&str>,
        limit_header: Option<&str>,
        count_header: Option<&str>,
        now: u64,
    ) -> (r: (Option<u64>, bool))
        requires
            config.wf(),
        ensures
            r.0 == spec_retry_after_decision(
                old(self).rate_limit_type,
                status,
                crate::text::view_opt_str(type_header),
                crate::text::view_opt_str(retry_after_header),
                now,
            ),
            r.1 == old(self).spec_sync_updates(
                *config,
                crate::text::view_opt_str(limit_header),
                crate::text::view_opt_str(count_header),
            ),
            final(self).rate_limit_type == old(self).rate_limit_type,
            final(self).retry_after_ms == (match r.0 {
                Some(d) => Some((now + d) as u64),
                None => old(self).retry_after_ms,
            }),
            !r.1 ==> final(self).buckets@ == old(self).buckets@,
            r.1 ==> {
                let pairs = spec_sync_pairs(
                    crate::text::view_opt_str(limit_header),
                    crate::text::view_opt_str(count_header),
                ).unwrap();
                &&& final(self).buckets@.len() == pairs.0.len()
                &&& forall|i: int|
                    0 <= i < pairs.0.len() ==> spec_synced_bucket(
                        #[trigger] final(self).buckets@[i],
                        *config,
                        old(self).rate_limit_type,
                        pairs.0[i],
                        pairs.1[i],
                        now,
                    )
            },
            old(self).wf() ==> final(self).wf(),
            old(self).current_at(now) ==> final(self).current_at(now),
    {
        let retry_after = self.on_response_retry_after(
            status,
            type_header,
            retry_after_header,
            now,
        );
        let updated = self.on_response_rate_limits(config, limit_header, count_header, now);
        (retry_after, updated)
    }
}

/// Idempotent sync: a limiter whose buckets were just replaced according to
/// a limit header does not replace them again when fed the same header —
/// the shapes now match, so the second sync is a no-op.
pub proof fn lemma_idempotent_sync(
    rl: RateLimit,
    config: RiotApiConfig,
    lim: Option<Seq<char>>,
    cnt: Option<Seq<char>>,
)
    requires
        spec_sync_pairs(lim, cnt) is Some,
        rl.buckets@.len() == spec_sync_pairs(lim, cnt).unwrap().0.len(),
        forall|i: int|
            0 <= i < rl.buckets@.len() ==> spec_bucket_matches(
                #[trigger] rl.buckets@[i],
                spec_sync_pairs(lim, cnt).unwrap().0[i],
            ),
    ensures
        !rl.spec_sync_updates(config, lim, cnt),
{
    assert(spec_shapes_match(rl.buckets@, spec_sync_pairs(lim, cnt).unwrap().0));
}

} // verus!
