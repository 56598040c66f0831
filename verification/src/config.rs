//! Immutable tuning for the client: burst factor, duration overhead, retry
//! count, usage factors and the base URL template.

use vstd::prelude::*;

use crate::PPM_SCALE;

verus! {

/// `"https://{}.api.riotgames.com"`: the default base URL, with a `{}`
/// placeholder for the region platform.
pub const DEFAULT_BASE_URL: &'static str = "https://{}.api.riotgames.com";

/// Default number of retries.
pub const DEFAULT_RETRIES: u8 = 3;

/// Default rate limit usage factor (all of it), parts per million.
pub const DEFAULT_RATE_USAGE_FACTOR_PPM: u32 = 1_000_000;

/// `burst_factor` of the burst preset (0.99), parts per million.
pub const PRECONFIG_BURST_BURST_FACTOR_PPM: u32 = 990_000;

/// `duration_overhead` of the burst preset, milliseconds.
pub const PRECONFIG_BURST_DURATION_OVERHEAD_MS: u64 = 989;

/// `burst_factor` of the throughput preset (0.47), parts per million.
pub const PRECONFIG_THROUGHPUT_BURST_FACTOR_PPM: u32 = 470_000;

/// `duration_overhead` of the throughput preset, milliseconds.
pub const PRECONFIG_THROUGHPUT_DURATION_OVERHEAD_MS: u64 = 10;

/// Configuration for the client, immutable once the client is built.
pub struct RiotApiConfig {
    /// Base URL template; `{}` is replaced with the region platform name.
    pub base_url: String,
    /// How many times a retryable request is retried. `0` means one attempt.
    pub retries: u8,
    /// Share of the application rate limit this process may use,
    /// parts per million in `1..=1_000_000`.
    pub app_rate_usage_factor_ppm: u32,
    /// Share of each method rate limit this process may use,
    /// parts per million in `1..=1_000_000`.
    pub method_rate_usage_factor_ppm: u32,
    /// How much of a bucket may be spent as a burst before spreading,
    /// parts per million in `1..=1_000_000`.
    pub burst_factor_ppm: u32,
    /// Extra width added to every bucket window, milliseconds.
    pub duration_overhead_ms: u64,
}

impl RiotApiConfig {
    /// Factors lie in `(0, 1]`.
    pub open spec fn wf(self) -> bool {
        &&& 0 < self.app_rate_usage_factor_ppm <= PPM_SCALE
        &&& 0 < self.method_rate_usage_factor_ppm <= PPM_SCALE
        &&& 0 < self.burst_factor_ppm <= PPM_SCALE
    }

    /// The usage factor for the given scope.
    pub open spec fn spec_usage_factor(self, t: crate::rate_limit_type::RateLimitType) -> u32 {
        match t {
            crate::rate_limit_type::RateLimitType::Application => self.app_rate_usage_factor_ppm,
            crate::rate_limit_type::RateLimitType::Method => self.method_rate_usage_factor_ppm,
        }
    }

    /// The default configuration: three retries and the burst preset.
    pub fn new() -> (c: RiotApiConfig)
        ensures
            c.wf(),
            c.base_url@ == DEFAULT_BASE_URL@,
            c.retries == DEFAULT_RETRIES,
            c.app_rate_usage_factor_ppm == DEFAULT_RATE_USAGE_FACTOR_PPM,
            c.method_rate_usage_factor_ppm == DEFAULT_RATE_USAGE_FACTOR_PPM,
            c.burst_factor_ppm == PRECONFIG_BURST_BURST_FACTOR_PPM,
            c.duration_overhead_ms == PRECONFIG_BURST_DURATION_OVERHEAD_MS,
    {
        RiotApiConfig {
            base_url: DEFAULT_BASE_URL.to_owned(),
            retries: DEFAULT_RETRIES,
            app_rate_usage_factor_ppm: DEFAULT_RATE_USAGE_FACTOR_PPM,
            method_rate_usage_factor_ppm: DEFAULT_RATE_USAGE_FACTOR_PPM,
            burst_factor_ppm: PRECONFIG_BURST_BURST_FACTOR_PPM,
            duration_overhead_ms: PRECONFIG_BURST_DURATION_OVERHEAD_MS,
        }
    }

    /// Switches to the preset tuned for bursts and low latency.
    pub fn preconfig_burst(self) -> (c: RiotApiConfig)
        ensures
            c == (RiotApiConfig {
                burst_factor_ppm: PRECONFIG_BURST_BURST_FACTOR_PPM,
                duration_overhead_ms: PRECONFIG_BURST_DURATION_OVERHEAD_MS,
                ..self
            }),
    {
        RiotApiConfig {
            burst_factor_ppm: PRECONFIG_BURST_BURST_FACTOR_PPM,
            duration_overhead_ms: PRECONFIG_BURST_DURATION_OVERHEAD_MS,
            ..self
        }
    }

    /// Switches to the preset tuned for high throughput.
    pub fn preconfig_throughput(self) -> (c: RiotApiConfig)
        ensures
            c == (RiotApiConfig {
                burst_factor_ppm: PRECONFIG_THROUGHPUT_BURST_FACTOR_PPM,
                duration_overhead_ms: PRECONFIG_THROUGHPUT_DURATION_OVERHEAD_MS,
                ..self
            }),
    {
        RiotApiConfig {
            burst_factor_ppm: PRECONFIG_THROUGHPUT_BURST_FACTOR_PPM,
            duration_overhead_ms: PRECONFIG_THROUGHPUT_DURATION_OVERHEAD_MS,
            ..self
        }
    }

    /// Replaces the base URL template.
    pub fn set_base_url(self, base_url: String) -> (c: RiotApiConfig)
        ensures
            c == (RiotApiConfig { base_url, ..self }),
    {
        RiotApiConfig { base_url, ..self }
    }

    /// Sets how many times retryable requests are retried.
    pub fn set_retries(self, retries: u8) -> (c: RiotApiConfig)
        ensures
            c == (RiotApiConfig { retries, ..self }),
    {
        RiotApiConfig { retries, ..self }
    }

    /// Sets both usage factors at once. The value must lie in `(0, 1]`.
    pub fn set_rate_usage_factor(self, factor_ppm: u32) -> (c: RiotApiConfig)
        requires
            0 < factor_ppm <= PPM_SCALE,
        ensures
            c == (RiotApiConfig {
                app_rate_usage_factor_ppm: factor_ppm,
                method_rate_usage_factor_ppm: factor_ppm,
                ..self
            }),
    {
        RiotApiConfig {
            app_rate_usage_factor_ppm: factor_ppm,
            method_rate_usage_factor_ppm: factor_ppm,
            ..self
        }
    }

    /// Sets the application-scope usage factor, in `(0, 1]`.
    pub fn set_app_rate_usage_factor(self, factor_ppm: u32) -> (c: RiotApiConfig)
        requires
            0 < factor_ppm <= PPM_SCALE,
        ensures
            c == (RiotApiConfig { app_rate_usage_factor_ppm: factor_ppm, ..self }),
    {
        RiotApiConfig { app_rate_usage_factor_ppm: factor_ppm, ..self }
    }

    /// Sets the method-scope usage factor, in `(0, 1]`.
    pub fn set_method_rate_usage_factor(self, factor_ppm: u32) -> (c: RiotApiConfig)
        requires
            0 < factor_ppm <= PPM_SCALE,
        ensures
            c == (RiotApiConfig { method_rate_usage_factor_ppm: factor_ppm, ..self }),
    {
        RiotApiConfig { method_rate_usage_factor_ppm: factor_ppm, ..self }
    }

    /// Sets the burst factor, in `(0, 1]`.
    pub fn set_burst_factor(self, factor_ppm: u32) -> (c: RiotApiConfig)
        requires
            0 < factor_ppm <= PPM_SCALE,
        ensures
            c == (RiotApiConfig { burst_factor_ppm: factor_ppm, ..self }),
    {
        RiotApiConfig { burst_factor_ppm: factor_ppm, ..self }
    }

    /// Sets the additional window width considered when rate limiting.
    pub fn set_duration_overhead(self, overhead_ms: u64) -> (c: RiotApiConfig)
        ensures
            c == (RiotApiConfig { duration_overhead_ms: overhead_ms, ..self }),
    {
        RiotApiConfig { duration_overhead_ms: overhead_ms, ..self }
    }
}

} // verus!
