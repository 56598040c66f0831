//! A token bucket tracking timestamped admissions within one rolling window.
//!
//! A response header such as `X-App-Rate-Limit: 20:1,100:120` describes one
//! rule per entry; each `TokenBucket` enforces a single `"100:120"` rule
//! (100 requests per 120 seconds), additionally shaped by a burst cap.

use vstd::prelude::*;

use crate::{scale_ppm, spec_scale_ppm, PPM_SCALE};
use std::collections::VecDeque;
use std::ops::Index;

verus! {

/// True when the sequence never increases from front to back
/// (newest timestamps sit at the front).
pub open spec fn sorted_desc(s: Seq<u64>) -> bool {
    forall|i: int, j: int| 0 <= i <= j < s.len() ==> s[i] >= s[j]
}

/// The sequence with every trailing element older than `cutoff` removed,
/// exactly as the lazy trim pops expired timestamps off the back.
pub open spec fn trimmed(s: Seq<u64>, cutoff: int) -> Seq<u64>
    decreases s.len(),
{
    if s.len() == 0 {
        s
    } else if s.last() < cutoff {
        trimmed(s.drop_last(), cutoff)
    } else {
        s
    }
}

/// Timestamps strictly older than this lie outside the effective window
/// that ends at `now`.
pub open spec fn spec_cutoff(now: int, effective_duration: int) -> int {
    if now >= effective_duration {
        now - effective_duration
    } else {
        0
    }
}

/// The delay policy over a trimmed timestamp sequence: a full window of
/// `total_limit` timestamps delays until the oldest of them expires from the
/// effective window; otherwise a full burst window delays likewise; otherwise
/// admission is immediate (`None`).
pub open spec fn spec_delay(
    live: Seq<u64>,
    now: int,
    total_limit: int,
    effective_duration: int,
    burst_limit: int,
    burst_duration: int,
) -> Option<u64> {
    if live.len() >= total_limit {
        if now - live[total_limit - 1] <= effective_duration {
            Some((effective_duration - (now - live[total_limit - 1])) as u64)
        } else {
            None
        }
    } else if live.len() >= burst_limit {
        if now - live[burst_limit - 1] <= burst_duration {
            Some((burst_duration - (now - live[burst_limit - 1])) as u64)
        } else {
            None
        }
    } else {
        None
    }
}

/// Whether a timestamp sequence (after recording) still satisfies both the
/// total cap and the burst cap.
pub open spec fn spec_within_limits(
    ts: Seq<u64>,
    now: int,
    total_limit: int,
    burst_limit: int,
    burst_duration: int,
) -> bool {
    &&& ts.len() <= total_limit
    &&& (ts.len() > burst_limit ==> now - ts[burst_limit] >= burst_duration)
}

/// One "N requests per D milliseconds" rule, tracking recent admissions.
pub struct TokenBucket {
    /// The limit as the server reported it, before `rate_usage_factor_ppm`.
    pub given_total_limit: u64,
    /// Factor reducing rate limit usage, parts per million in `1..=1_000_000`.
    pub rate_usage_factor_ppm: u32,
    /// Window duration D, milliseconds.
    pub duration_ms: u64,
    /// Tokens available per window: `max(1, given * usage / 1e6)`.
    pub total_limit: u64,
    /// Extra width added to the window when deciding admission, to absorb
    /// clock skew and latency.
    pub duration_overhead_ms: u64,
    /// Window considered for the burst cap: `(D + overhead) * burst / 1e6`.
    pub burst_duration_ms: u64,
    /// Tokens allowed per burst window: `max(1, total_limit * burst / 1e6)`.
    pub burst_limit: u64,
    /// Recent admission timestamps, newest at the front, trimmed lazily.
    pub timestamps: VecDeque<u64>,
}

impl TokenBucket {
    /// Window width used for admission decisions.
    pub open spec fn effective_duration(self) -> int {
        self.duration_ms + self.duration_overhead_ms
    }

    /// Timestamps strictly older than this are expired at `now`.
    pub open spec fn cutoff(self, now: u64) -> int {
        spec_cutoff(now as int, self.effective_duration())
    }

    /// Structural invariant: limits are at least one, the burst cap never
    /// exceeds the total cap, widths fit in `u64`, timestamps are ordered.
    pub open spec fn wf(self) -> bool {
        &&& 1 <= self.total_limit
        &&& 1 <= self.burst_limit <= self.total_limit
        &&& self.duration_ms + self.duration_overhead_ms <= u64::MAX
        &&& self.burst_duration_ms <= self.effective_duration()
        &&& sorted_desc(self.timestamps@)
    }

    /// True when no recorded timestamp lies in the future of `now`; the
    /// monotonic clock guarantees this for every caller.
    pub open spec fn current_at(self, now: u64) -> bool {
        forall|i: int| 0 <= i < self.timestamps@.len() ==> self.timestamps@[i] <= now
    }

    /// The delay the policy reports at `now`, computed over the lazily
    /// trimmed record.
    pub open spec fn spec_delay_at(self, now: u64) -> Option<u64> {
        spec_delay(
            trimmed(self.timestamps@, self.cutoff(now)),
            now as int,
            self.total_limit as int,
            self.effective_duration(),
            self.burst_limit as int,
            self.burst_duration_ms as int,
        )
    }

    /// The tuning fields, which recording and trimming never change.
    pub open spec fn shape(self) -> (u64, u32, u64, u64, u64, u64, u64) {
        (
            self.given_total_limit,
            self.rate_usage_factor_ppm,
            self.duration_ms,
            self.total_limit,
            self.duration_overhead_ms,
            self.burst_duration_ms,
            self.burst_limit,
        )
    }

    /// Builds a bucket for `given_total_limit` requests per `duration_ms`,
    /// scaled down by `rate_usage_factor_ppm` and shaped by
    /// `burst_factor_ppm`, with limits rounded up to at least one.
    pub fn new(
        duration_ms: u64,
        given_total_limit: u64,
        duration_overhead_ms: u64,
        burst_factor_ppm: u32,
        rate_usage_factor_ppm: u32,
    ) -> (bucket: TokenBucket)
        requires
            0 < burst_factor_ppm <= PPM_SCALE,
            0 < rate_usage_factor_ppm <= PPM_SCALE,
            duration_ms + duration_overhead_ms <= u64::MAX,
        ensures
            bucket.wf(),
            bucket.given_total_limit == given_total_limit,
            bucket.rate_usage_factor_ppm == rate_usage_factor_ppm,
            bucket.duration_ms == duration_ms,
            bucket.duration_overhead_ms == duration_overhead_ms,
            bucket.total_limit == max_1(
                spec_scale_ppm(given_total_limit as int, rate_usage_factor_ppm as int),
            ),
            bucket.burst_duration_ms == spec_scale_ppm(
                duration_ms + duration_overhead_ms,
                burst_factor_ppm as int,
            ),
            bucket.burst_limit == max_1(
                spec_scale_ppm(bucket.total_limit as int, burst_factor_ppm as int),
            ),
            bucket.timestamps@ == Seq::<u64>::empty(),
    {
        let scaled: u64 = scale_ppm(given_total_limit, rate_usage_factor_ppm);
        let total_limit: u64 = if scaled < 1 {
            1
        } else {
            scaled
        };
        let effective: u64 = duration_ms + duration_overhead_ms;
        let burst_duration_ms: u64 = scale_ppm(effective, burst_factor_ppm);
        let scaled_burst: u64 = scale_ppm(total_limit, burst_factor_ppm);
        let burst_limit: u64 = if scaled_burst < 1 {
            1
        } else {
            scaled_burst
        };
        TokenBucket {
            given_total_limit,
            rate_usage_factor_ppm,
            duration_ms,
            total_limit,
            duration_overhead_ms,
            burst_duration_ms,
            burst_limit,
            timestamps: VecDeque::new(),
        }
    }

    /// Pops expired timestamps off the back; the survivors are exactly
    /// `trimmed(timestamps, cutoff(now))`.
    fn trim(&mut self, now: u64)
        requires
            old(self).wf(),
        ensures
            final(self).wf(),
            final(self).shape() == old(self).shape(),
            final(self).timestamps@ == trimmed(old(self).timestamps@, old(self).cutoff(now)),
    {
        let effective: u64 = self.duration_ms + self.duration_overhead_ms;
        let cutoff: u64 = if now >= effective {
            now - effective
        } else {
            0
        };
        loop
            invariant
                self.wf(),
                self.shape() == old(self).shape(),
                cutoff == old(self).cutoff(now),
                trimmed(self.timestamps@, cutoff as int) == trimmed(
                    old(self).timestamps@,
                    cutoff as int,
                ),
            ensures
                self.wf(),
                self.shape() == old(self).shape(),
                self.timestamps@ == trimmed(old(self).timestamps@, cutoff as int),
            decreases self.timestamps@.len(),
        {
            let len = self.timestamps.len();
            if len == 0 {
                break ;
            }
            let back: u64 = *self.timestamps.index(len - 1);
            if back >= cutoff {
                break ;
            }
            let ghost pre = self.timestamps@;
            self.timestamps.pop_back();
            proof {
                assert(self.timestamps@ =~= pre.drop_last());
            }
        }
    }

    /// Reports how long admission must wait at `now`, or `None` when a token
    /// is immediately available. Trims expired timestamps as a side effect;
    /// the tuning fields never change.
    pub fn get_delay(&mut self, now: u64) -> (delay: Option<u64>)
        requires
            old(self).wf(),
            old(self).current_at(now),
        ensures
            final(self).wf(),
            final(self).current_at(now),
            final(self).shape() == old(self).shape(),
            final(self).timestamps@ == trimmed(old(self).timestamps@, old(self).cutoff(now)),
            delay == old(self).spec_delay_at(now),
    {
        proof {
            lemma_trimmed_sub(old(self).timestamps@, old(self).cutoff(now));
        }
        self.trim(now);
        proof {
            lemma_trimmed_props(old(self).timestamps@, old(self).cutoff(now));
        }
        let len = self.timestamps.len();
        if len as u64 >= self.total_limit {
            let ts: u64 = *self.timestamps.index((self.total_limit - 1) as usize);
            let passed: u64 = now - ts;
            let effective: u64 = self.duration_ms + self.duration_overhead_ms;
            if passed <= effective {
                Some(effective - passed)
            } else {
                None
            }
        } else if len as u64 >= self.burst_limit {
            let ts: u64 = *self.timestamps.index((self.burst_limit - 1) as usize);
            let passed: u64 = now - ts;
            if passed <= self.burst_duration_ms {
                Some(self.burst_duration_ms - passed)
            } else {
                None
            }
        } else {
            None
        }
    }

    /// Records `n` admissions at `now` unconditionally and reports whether the
    /// resulting state still satisfies both the total and the burst cap.
    /// Callers should only take tokens after [`Self::get_delay`] returned
    /// `None`; the result is a post-hoc invariant check, not a decision gate.
    pub fn get_tokens(&mut self, n: usize, now: u64) -> (ok: bool)
        requires
            old(self).wf(),
            old(self).current_at(now),
        ensures
            final(self).wf(),
            final(self).current_at(now),
            final(self).shape() == old(self).shape(),
            final(self).timestamps@ == Seq::new(n as nat, |i: int| now) + trimmed(
                old(self).timestamps@,
                old(self).cutoff(now),
            ),
            ok == spec_within_limits(
                final(self).timestamps@,
                now as int,
                final(self).total_limit as int,
                final(self).burst_limit as int,
                final(self).burst_duration_ms as int,
            ),
    {
        proof {
            lemma_trimmed_sub(old(self).timestamps@, old(self).cutoff(now));
        }
        self.trim(now);
        proof {
            lemma_trimmed_props(old(self).timestamps@, old(self).cutoff(now));
        }
        let ghost live = self.timestamps@;
        let mut i: usize = 0;
        while i < n
            invariant
                i <= n,
                self.wf(),
                self.current_at(now),
                self.shape() == old(self).shape(),
                forall|k: int| 0 <= k < live.len() ==> live[k] <= now,
                self.timestamps@ == Seq::new(i as nat, |k: int| now) + live,
            decreases n - i,
        {
            self.timestamps.push_front(now);
            i = i + 1;
            proof {
                assert(self.timestamps@ =~= Seq::new(i as nat, |k: int| now) + live);
            }
        }

        let len = self.timestamps.len();
        if self.total_limit < len as u64 {
            return false;
        }
        if (len as u64) > self.burst_limit {
            let burst_time: u64 = *self.timestamps.index(self.burst_limit as usize);
            let since: u64 = now - burst_time;
            if since < self.burst_duration_ms {
                return false;
            }
        }
        true
    }

    /// The bucket's window duration in milliseconds.
    pub fn get_bucket_duration(&self) -> (d: u64)
        ensures
            d == self.duration_ms,
    {
        self.duration_ms
    }

    /// The usage-scaled total limit per window.
    pub fn get_total_limit(&self) -> (l: u64)
        ensures
            l == self.total_limit,
    {
        self.total_limit
    }

    /// The burst cap per burst window.
    pub fn get_burst_limit(&self) -> (l: u64)
        ensures
            l == self.burst_limit,
    {
        self.burst_limit
    }
}

/// `x` rounded up to at least one.
pub open spec fn max_1(x: int) -> int {
    if x < 1 {
        1
    } else {
        x
    }
}

/// Trimming only ever removes elements from the back: the result is a prefix.
pub proof fn lemma_trimmed_sub(s: Seq<u64>, cutoff: int)
    ensures
        trimmed(s, cutoff).len() <= s.len(),
        trimmed(s, cutoff) == s.subrange(0, trimmed(s, cutoff).len() as int),
    decreases s.len(),
{
    if s.len() == 0 {
    } else if s.last() < cutoff {
        lemma_trimmed_sub(s.drop_last(), cutoff);
        assert(s.drop_last() == s.subrange(0, s.len() - 1));
        assert(trimmed(s, cutoff) == trimmed(s.drop_last(), cutoff));
        assert(s.drop_last().subrange(0, trimmed(s, cutoff).len() as int) =~= s.subrange(
            0,
            trimmed(s, cutoff).len() as int,
        ));
    } else {
        assert(trimmed(s, cutoff) =~= s.subrange(0, s.len() as int));
    }
}

/// After a trim of a sorted sequence every survivor is recent (at least
/// `cutoff`), ordering is preserved, and so is being bounded by `now`.
pub proof fn lemma_trimmed_props(s: Seq<u64>, cutoff: int)
    requires
        sorted_desc(s),
    ensures
        sorted_desc(trimmed(s, cutoff)),
        forall|i: int|
            0 <= i < trimmed(s, cutoff).len() ==> #[trigger] trimmed(s, cutoff)[i] == s[i],
        forall|i: int| 0 <= i < trimmed(s, cutoff).len() ==> #[trigger] trimmed(s, cutoff)[i]
            >= cutoff,
{
    lemma_trimmed_sub(s, cutoff);
    let t = trimmed(s, cutoff);
    assert forall|i: int| 0 <= i < t.len() implies #[trigger] t[i] >= cutoff by {
        lemma_trimmed_last_live(s, cutoff);
        assert(s[t.len() - 1] >= cutoff);
        assert(s[i] >= s[t.len() - 1]);
    }
}

/// The last survivor of a trim is itself at least `cutoff`.
proof fn lemma_trimmed_last_live(s: Seq<u64>, cutoff: int)
    ensures
        trimmed(s, cutoff).len() > 0 ==> trimmed(s, cutoff).last() >= cutoff,
    decreases s.len(),
{
    if s.len() == 0 {
    } else if s.last() < cutoff {
        lemma_trimmed_last_live(s.drop_last(), cutoff);
    }
}

/// Trimming an already trimmed sequence removes nothing.
pub proof fn lemma_trimmed_idempotent(s: Seq<u64>, cutoff: int)
    ensures
        trimmed(trimmed(s, cutoff), cutoff) == trimmed(s, cutoff),
{
    lemma_trimmed_last_live(s, cutoff);
    let t = trimmed(s, cutoff);
    if t.len() > 0 {
        assert(t.last() >= cutoff);
    }
}

/// Later trims subsume earlier ones: trimming at a lower cutoff first does
/// not change what a trim at a higher cutoff leaves. The lazily trimmed
/// record therefore always equals the full admission history trimmed at the
/// latest cutoff, which is what the safety laws speak about.
pub proof fn lemma_trimmed_monotone(s: Seq<u64>, c1: int, c2: int)
    requires
        c1 <= c2,
    ensures
        trimmed(trimmed(s, c1), c2) == trimmed(s, c2),
    decreases s.len(),
{
    if s.len() == 0 {
    } else if s.last() < c1 {
        lemma_trimmed_monotone(s.drop_last(), c1, c2);
    } else {
        // The first trim keeps everything here; both sides trim `s` at `c2`.
    }
}

/// Every timestamp that a trim drops was older than `cutoff`.
pub proof fn lemma_trimmed_dropped(s: Seq<u64>, cutoff: int)
    ensures
        forall|i: int| trimmed(s, cutoff).len() <= i < s.len() ==> s[i] < cutoff,
    decreases s.len(),
{
    if s.len() == 0 {
    } else if s.last() < cutoff {
        lemma_trimmed_dropped(s.drop_last(), cutoff);
        lemma_trimmed_sub(s.drop_last(), cutoff);
        assert forall|i: int| trimmed(s, cutoff).len() <= i < s.len() implies s[i] < cutoff by {
            if i < s.len() - 1 {
                assert(s.drop_last()[i] < cutoff);
            }
        }
    }
}

/// How many timestamps of `s` fall inside the closed window
/// `[lo, lo + width]`.
pub open spec fn window_count(s: Seq<u64>, lo: int, width: int) -> int
    decreases s.len(),
{
    if s.len() == 0 {
        0
    } else {
        window_count(s.drop_last(), lo, width) + if lo <= s.last() && s.last() <= lo + width {
            1int
        } else {
            0int
        }
    }
}

/// A window never holds more timestamps than the sequence has.
pub proof fn lemma_window_count_bound(s: Seq<u64>, lo: int, width: int)
    ensures
        0 <= window_count(s, lo, width) <= s.len(),
    decreases s.len(),
{
    if s.len() > 0 {
        lemma_window_count_bound(s.drop_last(), lo, width);
    }
}

/// Window counting distributes over concatenation.
pub proof fn lemma_window_count_concat(a: Seq<u64>, b: Seq<u64>, lo: int, width: int)
    ensures
        window_count(a + b, lo, width) == window_count(a, lo, width) + window_count(b, lo, width),
    decreases b.len(),
{
    if b.len() == 0 {
        assert(a + b =~= a);
    } else {
        assert((a + b).drop_last() =~= a + b.drop_last());
        assert((a + b).last() == b.last());
        lemma_window_count_concat(a, b.drop_last(), lo, width);
    }
}

/// In an ordered sequence, once `s[k]` lies below the window, at most the
/// `k` newer entries can lie inside it.
pub proof fn lemma_window_count_below(s: Seq<u64>, lo: int, width: int, k: int)
    requires
        sorted_desc(s),
        0 <= k < s.len(),
        s[k] < lo,
    ensures
        window_count(s, lo, width) <= k,
    decreases s.len(),
{
    if s.len() - 1 == k {
        lemma_window_count_bound(s.drop_last(), lo, width);
    } else {
        assert(s.last() <= s[k]);
        assert(s.drop_last()[k] == s[k]);
        lemma_window_count_below(s.drop_last(), lo, width, k);
    }
}

/// A window wholly above every timestamp holds none of them.
pub proof fn lemma_window_count_empty(s: Seq<u64>, lo: int, width: int)
    requires
        forall|i: int| 0 <= i < s.len() ==> s[i] < lo,
    ensures
        window_count(s, lo, width) == 0,
    decreases s.len(),
{
    if s.len() > 0 {
        lemma_window_count_empty(s.drop_last(), lo, width);
    }
}

/// Counting over a single timestamp.
proof fn lemma_window_count_single(x: u64, lo: int, width: int)
    ensures
        window_count(seq![x], lo, width) == if lo <= x <= lo + width {
            1int
        } else {
            0int
        },
{
    let s = seq![x];
    assert(s.len() == 1);
    assert(s.last() == x);
    assert(s.drop_last() =~= Seq::<u64>::empty());
    assert(window_count(Seq::<u64>::empty(), lo, width) == 0);
    assert(window_count(s, lo, width) == window_count(s.drop_last(), lo, width) + if lo <= x <= lo
        + width {
        1int
    } else {
        0int
    });
}

/// On a trimmed sequence the total-limit branch of the delay policy always
/// asks for a wait, so a `None` delay pins the live count below `total_limit`.
proof fn lemma_delay_none_short(
    hist: Seq<u64>,
    now: u64,
    total_limit: int,
    eff: int,
    burst_limit: int,
    burst_dur: int,
)
    requires
        sorted_desc(hist),
        0 <= eff,
        1 <= total_limit,
        spec_delay(
            trimmed(hist, spec_cutoff(now as int, eff)),
            now as int,
            total_limit,
            eff,
            burst_limit,
            burst_dur,
        ) is None,
    ensures
        trimmed(hist, spec_cutoff(now as int, eff)).len() < total_limit,
{
    let cutoff = spec_cutoff(now as int, eff);
    let t = trimmed(hist, cutoff);
    if t.len() >= total_limit {
        lemma_trimmed_props(hist, cutoff);
        assert(t[total_limit - 1] >= cutoff);
    }
}

/// Admission safety: if every window of length `eff` (the window duration
/// plus overhead) holds at most `total_limit` admissions, and the delay
/// policy admits at `now` on the lazily trimmed record, then recording `now`
/// keeps every such window at or below `total_limit`.
pub proof fn lemma_admission_safety(
    hist: Seq<u64>,
    now: u64,
    total_limit: int,
    eff: int,
    burst_limit: int,
    burst_dur: int,
    lo: int,
)
    requires
        sorted_desc(hist),
        forall|i: int| 0 <= i < hist.len() ==> hist[i] <= now,
        1 <= total_limit,
        0 <= eff,
        window_count(hist, lo, eff) <= total_limit,
        spec_delay(
            trimmed(hist, spec_cutoff(now as int, eff)),
            now as int,
            total_limit,
            eff,
            burst_limit,
            burst_dur,
        ) is None,
    ensures
        window_count(seq![now] + hist, lo, eff) <= total_limit,
{
    let cutoff = spec_cutoff(now as int, eff);
    let t = trimmed(hist, cutoff);
    lemma_window_count_concat(seq![now], hist, lo, eff);
    lemma_window_count_single(now, lo, eff);
    if lo <= now <= lo + eff {
        // The window reaches `now`, so it lies entirely above the cutoff:
        // dropped timestamps cannot be inside it.
        lemma_delay_none_short(hist, now, total_limit, eff, burst_limit, burst_dur);
        lemma_trimmed_sub(hist, cutoff);
        lemma_trimmed_dropped(hist, cutoff);
        let rest = hist.subrange(t.len() as int, hist.len() as int);
        assert(hist =~= t + rest);
        lemma_window_count_concat(t, rest, lo, eff);
        assert forall|i: int| 0 <= i < rest.len() implies rest[i] < lo by {
            assert(hist[t.len() + i] < cutoff);
            assert(cutoff <= lo);
        }
        lemma_window_count_empty(rest, lo, eff);
        lemma_window_count_bound(t, lo, eff);
    }
}

/// Burst safety: the same guarantee for the burst cap — if every window of
/// length `burst_dur` holds at most `burst_limit` admissions and the delay
/// policy admits at `now`, recording `now` keeps it that way.
pub proof fn lemma_burst_safety(
    hist: Seq<u64>,
    now: u64,
    total_limit: int,
    eff: int,
    burst_limit: int,
    burst_dur: int,
    lo: int,
)
    requires
        sorted_desc(hist),
        forall|i: int| 0 <= i < hist.len() ==> hist[i] <= now,
        1 <= total_limit,
        1 <= burst_limit,
        0 <= burst_dur <= eff,
        window_count(hist, lo, burst_dur) <= burst_limit,
        spec_delay(
            trimmed(hist, spec_cutoff(now as int, eff)),
            now as int,
            total_limit,
            eff,
            burst_limit,
            burst_dur,
        ) is None,
    ensures
        window_count(seq![now] + hist, lo, burst_dur) <= burst_limit,
{
    let cutoff = spec_cutoff(now as int, eff);
    let t = trimmed(hist, cutoff);
    lemma_window_count_concat(seq![now], hist, lo, burst_dur);
    lemma_window_count_single(now, lo, burst_dur);
    if lo <= now <= lo + burst_dur {
        lemma_delay_none_short(hist, now, total_limit, eff, burst_limit, burst_dur);
        lemma_trimmed_sub(hist, cutoff);
        lemma_trimmed_dropped(hist, cutoff);
        lemma_trimmed_props(hist, cutoff);
        let rest = hist.subrange(t.len() as int, hist.len() as int);
        assert(hist =~= t + rest);
        lemma_window_count_concat(t, rest, lo, burst_dur);
        assert forall|i: int| 0 <= i < rest.len() implies rest[i] < lo by {
            assert(hist[t.len() + i] < cutoff);
            assert(cutoff <= lo);
        }
        lemma_window_count_empty(rest, lo, burst_dur);
        if t.len() >= burst_limit {
            // The delay policy reached the burst branch and found the
            // `burst_limit`-th newest admission already outside the burst
            // window, so at most `burst_limit - 1` live entries sit inside.
            assert(now - t[burst_limit - 1] > burst_dur);
            assert(t[burst_limit - 1] < lo);
            lemma_window_count_below(t, lo, burst_dur, burst_limit - 1);
        } else {
            lemma_window_count_bound(t, lo, burst_dur);
        }
    }
}

/// Trimming never adds admissions to a window: the count over the trimmed
/// record is at most the count over the full record, so the two safety laws
/// above carry over trims.
pub proof fn lemma_window_count_trim(s: Seq<u64>, cutoff: int, lo: int, width: int)
    ensures
        window_count(trimmed(s, cutoff), lo, width) <= window_count(s, lo, width),
{
    lemma_trimmed_sub(s, cutoff);
    let t = trimmed(s, cutoff);
    let rest = s.subrange(t.len() as int, s.len() as int);
    assert(s =~= t + rest);
    lemma_window_count_concat(t, rest, lo, width);
    lemma_window_count_bound(rest, lo, width);
}

/// Admission safety at the bucket level: when every window as wide as the
/// bucket's effective duration holds at most `total_limit` of its recorded
/// admissions, and the bucket's delay policy admits at `now`, then recording
/// `now` keeps every such window at or below `total_limit`.
pub proof fn lemma_bucket_admission_safety(b: TokenBucket, now: u64, lo: int)
    requires
        b.wf(),
        b.current_at(now),
        window_count(b.timestamps@, lo, b.effective_duration()) <= b.total_limit,
        b.spec_delay_at(now) is None,
    ensures
        window_count(seq![now] + b.timestamps@, lo, b.effective_duration()) <= b.total_limit,
{
    lemma_admission_safety(
        b.timestamps@,
        now,
        b.total_limit as int,
        b.effective_duration(),
        b.burst_limit as int,
        b.burst_duration_ms as int,
        lo,
    );
}

/// Burst safety at the bucket level: the same guarantee for windows as wide
/// as the burst window, against the burst cap.
pub proof fn lemma_bucket_burst_safety(b: TokenBucket, now: u64, lo: int)
    requires
        b.wf(),
        b.current_at(now),
        window_count(b.timestamps@, lo, b.burst_duration_ms as int) <= b.burst_limit,
        b.spec_delay_at(now) is None,
    ensures
        window_count(seq![now] + b.timestamps@, lo, b.burst_duration_ms as int) <= b.burst_limit,
{
    lemma_burst_safety(
        b.timestamps@,
        now,
        b.total_limit as int,
        b.effective_duration(),
        b.burst_limit as int,
        b.burst_duration_ms as int,
        lo,
    );
}

} // verus!
