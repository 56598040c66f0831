use riven::config::RiotApiConfig;
use riven::headers::{parse_limits, parse_pair, parse_retry_after_ms, render_limits, split_str};
use riven::rate_limit::{buckets_require_updating, RateLimit};
use riven::rate_limit_type::RateLimitType;

#[test]
fn split_str_pieces() {
    let parts = split_str("20:1,100:120", ',');
    assert_eq!(2, parts.len());
    assert_eq!("20:1", parts[0]);
    assert_eq!("100:120", parts[1]);

    let parts = split_str("", ',');
    assert_eq!(1, parts.len());
    assert_eq!("", parts[0]);
}

#[test]
fn parse_pair_entries() {
    assert_eq!(Some((20, 1)), parse_pair("20:1"));
    assert_eq!(Some((1200000, 600)), parse_pair("1200000:600"));
    assert_eq!(None, parse_pair("20"));
    assert_eq!(None, parse_pair("20:"));
    assert_eq!(None, parse_pair(":1"));
    assert_eq!(None, parse_pair("a:1"));
    assert_eq!(None, parse_pair("20:1:2"));
}

#[test]
fn parse_limits_lists() {
    let parsed = parse_limits("20:1,100:120").expect("should parse");
    assert_eq!(vec![(20, 1), (100, 120)], parsed);

    let parsed = parse_limits("20000:10,1200000:600").expect("should parse");
    assert_eq!(vec![(20000, 10), (1200000, 600)], parsed);

    assert_eq!(None, parse_limits(""));
    assert_eq!(None, parse_limits("garbage"));
    assert_eq!(None, parse_limits("20:1,x:2"));
    assert_eq!(None, parse_limits("20:1,"));
    // Values beyond `u64` are rejected, not wrapped.
    assert_eq!(None, parse_limits("99999999999999999999999:1"));
}

#[test]
fn render_round_trip() {
    // Re-serializing parsed bucket shapes reproduces the header exactly.
    let header = "20:1,100:120";
    let parsed = parse_limits(header).expect("should parse");
    assert_eq!(header, render_limits(&parsed));

    let header = "20000:10,1200000:600";
    let parsed = parse_limits(header).expect("should parse");
    assert_eq!(header, render_limits(&parsed));

    assert_eq!("7:10", render_limits(&vec![(7, 10)]));
}

#[test]
fn retry_after_values() {
    assert_eq!(Some(2000), parse_retry_after_ms("2"));
    assert_eq!(Some(0), parse_retry_after_ms("0"));
    assert_eq!(Some(1500), parse_retry_after_ms("1.5"));
    assert_eq!(Some(1234), parse_retry_after_ms("1.2345"));
    assert_eq!(Some(1000), parse_retry_after_ms("1."));
    assert_eq!(None, parse_retry_after_ms(""));
    assert_eq!(None, parse_retry_after_ms("1.a"));
    assert_eq!(None, parse_retry_after_ms("-1"));
    assert_eq!(None, parse_retry_after_ms("1e3"));
    assert_eq!(None, parse_retry_after_ms("99999999999999999999999"));
}

#[test]
fn retry_after_sets_deadline() {
    let now: u64 = 10_000;
    let mut rl = RateLimit::new(RateLimitType::Application);
    let delay = rl.on_response_retry_after(429, Some("application"), Some("2"), now);
    assert_eq!(Some(2500), delay);
    assert_eq!(Some(12_500), rl.retry_after_ms);
    assert_eq!(Some(2500), rl.get_retry_after_delay(now));
    assert_eq!(Some(1), rl.get_retry_after_delay(12_499));
    assert_eq!(None, rl.get_retry_after_delay(12_500));
}

#[test]
fn retry_after_respects_scope() {
    let now: u64 = 10_000;

    // The application limiter ignores a method-scoped 429 ...
    let mut app = RateLimit::new(RateLimitType::Application);
    assert_eq!(None, app.on_response_retry_after(429, Some("method"), Some("2"), now));
    assert_eq!(None, app.retry_after_ms);

    // ... and the method limiter handles service and unknown types.
    let mut method = RateLimit::new(RateLimitType::Method);
    assert_eq!(Some(2500), method.on_response_retry_after(429, Some("service"), Some("2"), now));
    let mut method = RateLimit::new(RateLimitType::Method);
    assert_eq!(Some(2500), method.on_response_retry_after(429, None, Some("2"), now));

    // Only 429s matter.
    let mut app = RateLimit::new(RateLimitType::Application);
    assert_eq!(None, app.on_response_retry_after(500, Some("application"), Some("2"), now));
}

#[test]
fn sync_replaces_buckets() {
    let now: u64 = 10_000;
    let config = RiotApiConfig::new();
    let mut rl = RateLimit::new(RateLimitType::Application);
    let updated = rl.on_response_rate_limits(
        &config,
        Some("20:1,100:120"),
        Some("3:1,58:120"),
        now,
    );
    assert!(updated);
    assert_eq!(2, rl.buckets.len());
    assert_eq!(20, rl.buckets[0].given_total_limit);
    assert_eq!(1_000, rl.buckets[0].duration_ms);
    assert_eq!(20, rl.buckets[0].total_limit);
    assert_eq!(3, rl.buckets[0].timestamps.len());
    assert_eq!(100, rl.buckets[1].given_total_limit);
    assert_eq!(120_000, rl.buckets[1].duration_ms);
    assert_eq!(58, rl.buckets[1].timestamps.len());
    // Scaled burst factor: 0.99 * 20/21 = 942857 ppm; floor(20 * 0.942857) = 18.
    assert_eq!(18, rl.buckets[0].burst_limit);
}

#[test]
fn sync_is_idempotent() {
    // Feeding the same header pair twice performs exactly one replacement.
    let now: u64 = 10_000;
    let config = RiotApiConfig::new();
    let mut rl = RateLimit::new(RateLimitType::Method);
    let first = rl.on_response_rate_limits(&config, Some("20:1,100:120"), Some("1:1,1:120"), now);
    let second = rl.on_response_rate_limits(
        &config,
        Some("20:1,100:120"),
        Some("1:1,1:120"),
        now + 5,
    );
    assert!(first);
    assert!(!second);
}

#[test]
fn sync_ignores_malformed_headers() {
    let now: u64 = 10_000;
    let config = RiotApiConfig::new();
    let mut rl = RateLimit::new(RateLimitType::Application);
    assert!(!rl.on_response_rate_limits(&config, Some("garbage"), Some("1:1"), now));
    assert!(!rl.on_response_rate_limits(&config, Some("20:1"), None, now));
    assert!(!rl.on_response_rate_limits(&config, None, Some("1:1"), now));
    // Misaligned windows are rejected.
    assert!(!rl.on_response_rate_limits(&config, Some("20:1"), Some("1:120"), now));
    // A zero limit is rejected.
    assert!(!rl.on_response_rate_limits(&config, Some("0:1"), Some("0:1"), now));
    // The placeholder bucket is untouched throughout.
    assert_eq!(1, rl.buckets.len());
    assert_eq!(1, rl.buckets[0].given_total_limit);
}

#[test]
fn buckets_updating_check() {
    let now: u64 = 10_000;
    let config = RiotApiConfig::new();
    let mut rl = RateLimit::new(RateLimitType::Application);
    let limits = parse_limits("20:1,100:120").expect("should parse");
    assert!(buckets_require_updating(&limits, &rl.buckets));
    rl.on_response_rate_limits(&config, Some("20:1,100:120"), Some("1:1,1:120"), now);
    assert!(!buckets_require_updating(&limits, &rl.buckets));
    let other = parse_limits("30:1,100:120").expect("should parse");
    assert!(buckets_require_updating(&other, &rl.buckets));
}

#[test]
fn acquire_respects_deadline() {
    let now: u64 = 10_000;
    let mut app = RateLimit::new(RateLimitType::Application);
    let mut method = RateLimit::new(RateLimitType::Method);
    app.on_response_retry_after(429, Some("application"), Some("2"), now);
    // Blocked while the deadline is pending; nothing is recorded.
    assert_eq!(
        Some(2500),
        RateLimit::acquire_both_or_duration(&mut app, &mut method, now)
    );
    assert_eq!(0, app.buckets[0].timestamps.len());
    // Admitted once the deadline passed.
    assert_eq!(
        None,
        RateLimit::acquire_both_or_duration(&mut app, &mut method, now + 2500)
    );
    assert_eq!(1, app.buckets[0].timestamps.len());
    assert_eq!(1, method.buckets[0].timestamps.len());
    // The placeholder 1-per-second bucket now delays the next round.
    assert_eq!(
        Some(1000),
        RateLimit::acquire_both_or_duration(&mut app, &mut method, now + 2500)
    );
}
