use riven::token_bucket::TokenBucket;

#[test]
fn test_basic() {
    let now: u64 = 50_000;
    let mut bucket = TokenBucket::new(1000, 100, 0, 950_000, 1_000_000);
    assert!(bucket.get_tokens(50, now), "Should have not violated limit.");
    assert_eq!(None, bucket.get_delay(now), "Can get stuff.");
    assert!(!bucket.get_tokens(51, now), "Should have violated limit.");
}

#[test]
fn test_internal_constructor() {
    let bucket = TokenBucket::new(1000, 100, 0, 1_000_000, 1_000_000);
    assert_eq!(100, bucket.burst_limit);

    let bucket = TokenBucket::new(1000, 100, 0, 1, 1_000_000);
    assert_eq!(1, bucket.burst_limit);

    let bucket = TokenBucket::new(1000, 100, 0, 1_000_000, 1);
    assert_eq!(1, bucket.total_limit);
    assert_eq!(1, bucket.burst_limit);
}

#[test]
fn test_saturated_100_burst() {
    let mut bucket = TokenBucket::new(1000, 100, 0, 1_000_000, 1_000_000);

    let mut now: u64 = 50_000;
    assert!(
        bucket.get_tokens(100, now),
        "All tokens should be immediately available."
    );
    assert_ne!(None, bucket.get_delay(now), "Bucket should have delay.");

    now += 1001; // Extra buffer for zero-delay edge.
    assert!(
        bucket.get_tokens(100, now),
        "All tokens should be available after a bucket duration."
    );
    assert_ne!(None, bucket.get_delay(now), "Bucket should have delay.");
}

#[test]
fn test_saturated_95_burst() {
    let mut bucket = TokenBucket::new(1000, 100, 0, 950_000, 1_000_000);

    let mut now: u64 = 50_000;
    assert!(
        bucket.get_tokens(95, now),
        "95 tokens should be immediately available."
    );
    assert_ne!(None, bucket.get_delay(now), "Bucket should have delay.");

    now += 475;
    assert_ne!(None, bucket.get_delay(now), "Bucket should have delay.");
    now += 476; // Total 951. Extra buffer for zero-delay edge.

    assert!(bucket.get_tokens(5, now), "Last 5 tokens should be available.");
    assert_ne!(None, bucket.get_delay(now), "Bucket should have delay.");

    now += 51; // Total 1002.
    assert!(bucket.get_tokens(90, now), "90 tokens should be available.");
    assert_ne!(None, bucket.get_delay(now), "Bucket should have delay.");

    now += 951;
    assert!(bucket.get_tokens(10, now), "Last 10 tokens should be available.");
    assert_ne!(None, bucket.get_delay(now), "Bucket should have delay.");
}

#[test]
fn test_violated_50_burst() {
    let mut bucket = TokenBucket::new(1000, 100, 0, 500_000, 1_000_000);

    let now: u64 = 50_000;
    assert!(!bucket.get_tokens(90, now), "Burst should be violated.");
    assert_ne!(None, bucket.get_delay(now), "Bucket should have delay.");
}

#[test]
fn test_saturated_50_burst() {
    let mut bucket = TokenBucket::new(1000, 100, 0, 500_000, 1_000_000);

    let mut now: u64 = 50_000;
    assert!(
        bucket.get_tokens(50, now),
        "Half the tokens should be immediately available."
    );
    assert_ne!(None, bucket.get_delay(now), "Bucket should have delay.");

    now += 501; // Extra buffer for zero-delay edge.
    assert!(
        bucket.get_tokens(50, now),
        "Half the tokens should be available after a half bucket duration."
    );
    assert_ne!(None, bucket.get_delay(now), "Bucket should have delay.");

    now += 501;
    assert!(
        bucket.get_tokens(50, now),
        "Half the tokens should be available after a full bucket duration."
    );
    assert_ne!(None, bucket.get_delay(now), "Bucket should have delay.");

    now += 501;
    assert!(bucket.get_tokens(50, now));
    assert_ne!(None, bucket.get_delay(now), "Bucket should have delay.");
}

#[test]
fn test_saturated_90_burst_rate_usage_factor_50() {
    let rate_usage_factor_ppm: u32 = 500_000;
    let mut bucket = TokenBucket::new(1000, 100, 0, 900_000, rate_usage_factor_ppm);

    let mut now: u64 = 50_000;
    assert!(
        bucket.get_tokens(45, now),
        "45 tokens should be immediately available."
    );
    assert_ne!(None, bucket.get_delay(now), "Bucket should have delay.");

    now += 475;
    assert_ne!(None, bucket.get_delay(now), "Bucket should have delay.");
    now += 476; // Total 951. Extra buffer for zero-delay edge.

    assert!(bucket.get_tokens(5, now), "Last 5 tokens should be available.");
    assert_ne!(None, bucket.get_delay(now), "Bucket should have delay.");

    now += 51; // Total 1002.
    assert!(bucket.get_tokens(40, now), "45 tokens should be available.");
    assert_ne!(None, bucket.get_delay(now), "Bucket should have delay.");

    now += 951;
    assert!(bucket.get_tokens(10, now), "Last 10 tokens should be available.");
    assert_ne!(None, bucket.get_delay(now), "Bucket should have delay.");
}

#[test]
fn test_many() {
    let mut now: u64 = 50_000;
    let mut bucket = TokenBucket::new(1000, 100, 0, 500_000, 1_000_000);
    assert!(
        bucket.get_tokens(50, now),
        "Should have not violated limit. i=-1."
    );
    assert_ne!(None, bucket.get_delay(now), "Bucket should have delay. i=-1.");
    for i in 0..20_000 {
        now += 501;
        assert!(
            bucket.get_tokens(50, now),
            "Should have not violated limit. i={}.",
            i
        );
        assert_ne!(
            None,
            bucket.get_delay(now),
            "Bucket should have delay. i={}.",
            i
        );
        now += 501;
        assert!(
            bucket.get_tokens(50, now),
            "Should have not violated limit. i={}.",
            i
        );
        assert_ne!(
            None,
            bucket.get_delay(now),
            "Bucket should have delay. i={}.",
            i
        );
    }
    assert!(bucket.timestamps.len() < 110, "Should not memory leak.");
}

#[test]
fn accessor_values() {
    let bucket = TokenBucket::new(120_000, 100, 989, 470_000, 1_000_000);
    assert_eq!(120_000, bucket.get_bucket_duration());
    assert_eq!(100, bucket.get_total_limit());
    // floor(100 * 0.47) = 47.
    assert_eq!(47, bucket.get_burst_limit());
    // floor((120000 + 989) * 0.47) = 56864.
    assert_eq!(56_864, bucket.burst_duration_ms);
}
