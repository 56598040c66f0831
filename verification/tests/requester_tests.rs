use riven::config::RiotApiConfig;
use riven::meta::{find_matching_method_id, parse_path, paths_match, Endpoint, HttpMethod};
use riven::regional_requester::{
    backoff_ms, handle_response_status, handle_transport_error, RegionalRequester, RequestStep,
};
use riven::riot_api::RiotApi;
use riven::route::{PlatformRoute, Route};

#[test]
fn retry_after_honored_across_methods() {
    // A 429 typed "application" blocks the next acquisition for
    // 2.5 seconds (2 s plus the rounding cushion), on every method of the
    // region: the application scope is shared.
    let now: u64 = 50_000;
    let config = RiotApiConfig::new();
    let mut requester = RegionalRequester::new();
    let m1 = requester.method_limiter("summoner-v4.getBySummonerName");

    let (retry, app_updated, method_updated) = requester.on_response(
        &config,
        m1,
        429,
        Some("application"),
        Some("2"),
        None,
        None,
        None,
        None,
        now,
    );
    assert_eq!(Some(2500), retry);
    assert!(!app_updated);
    assert!(!method_updated);

    assert_eq!(Some(2500), requester.acquire_or_delay(m1, now));
    // A different method on the same region is also blocked.
    let m2 = requester.method_limiter("match-v5.getMatch");
    assert_eq!(Some(2500), requester.acquire_or_delay(m2, now));
    // Once the deadline passes, admission resumes.
    assert_eq!(None, requester.acquire_or_delay(m1, now + 2500));
}

#[test]
fn service_429_routed_to_method() {
    // The same 429 typed "service" leaves the application limiter alone;
    // only the method limiter applies the back-off.
    let now: u64 = 50_000;
    let config = RiotApiConfig::new();
    let mut requester = RegionalRequester::new();
    let m1 = requester.method_limiter("summoner-v4.getBySummonerName");
    let m2 = requester.method_limiter("match-v5.getMatch");

    let (retry, _, _) = requester.on_response(
        &config,
        m1,
        429,
        Some("service"),
        Some("2"),
        None,
        None,
        None,
        None,
        now,
    );
    assert_eq!(Some(2500), retry);

    assert_eq!(Some(2500), requester.acquire_or_delay(m1, now));
    // The other method is unaffected.
    assert_eq!(None, requester.acquire_or_delay(m2, now));
}

#[test]
fn retry_sequence_backoff() {
    // Two 500s followed by a 200: the caller retries twice, sleeping one
    // second and then two, and sees one success with two retries used.
    let max_retries = 3;
    let step0 = handle_response_status(500, 0, max_retries, None);
    assert_eq!(RequestStep::RetryAfterBackoff { delay_ms: 1000 }, step0);
    let step1 = handle_response_status(500, 1, max_retries, None);
    assert_eq!(RequestStep::RetryAfterBackoff { delay_ms: 2000 }, step1);
    let step2 = handle_response_status(200, 2, max_retries, None);
    assert_eq!(RequestStep::Success { status_none: false }, step2);
}

#[test]
fn response_classification() {
    assert_eq!(
        RequestStep::Success { status_none: true },
        handle_response_status(204, 0, 3, None)
    );
    assert_eq!(
        RequestStep::Success { status_none: true },
        handle_response_status(404, 0, 3, None)
    );
    assert_eq!(
        RequestStep::Success { status_none: false },
        handle_response_status(201, 0, 3, None)
    );
    // 4xx (other than 404/429) is terminal.
    assert_eq!(RequestStep::GiveUp, handle_response_status(403, 0, 3, None));
    // Retries exhausted is terminal even for a retryable status.
    assert_eq!(RequestStep::GiveUp, handle_response_status(429, 3, 3, None));
    // A server-directed wait skips the local backoff sleep.
    assert_eq!(
        RequestStep::RetryAfterServer,
        handle_response_status(429, 0, 3, Some(2500))
    );
    assert_eq!(
        RequestStep::RetryAfterBackoff { delay_ms: 4000 },
        handle_response_status(503, 2, 3, None)
    );
}

#[test]
fn transport_error_backoff() {
    assert_eq!(
        RequestStep::RetryAfterBackoff { delay_ms: 1000 },
        handle_transport_error(0, 3)
    );
    assert_eq!(
        RequestStep::RetryAfterBackoff { delay_ms: 4000 },
        handle_transport_error(2, 3)
    );
    assert_eq!(RequestStep::GiveUp, handle_transport_error(3, 3));
}

#[test]
fn backoff_saturates() {
    assert_eq!(1000, backoff_ms(0));
    assert_eq!(1024_000, backoff_ms(10));
    assert_eq!(u64::MAX, backoff_ms(255));
}

#[test]
fn bucket_sync_through_requester() {
    let now: u64 = 50_000;
    let config = RiotApiConfig::new();
    let mut requester = RegionalRequester::new();
    let m = requester.method_limiter("summoner-v4.getBySummonerName");

    let (retry, app_updated, method_updated) = requester.on_response(
        &config,
        m,
        200,
        None,
        None,
        Some("20:1,100:120"),
        Some("1:1,1:120"),
        Some("250:10"),
        Some("1:10"),
        now,
    );
    assert_eq!(None, retry);
    assert!(app_updated);
    assert!(method_updated);
    assert_eq!(2, requester.app_rate_limit.buckets.len());

    // The same headers a second time change nothing.
    let (_, app_again, method_again) = requester.on_response(
        &config,
        m,
        200,
        None,
        None,
        Some("20:1,100:120"),
        Some("1:1,1:120"),
        Some("250:10"),
        Some("1:10"),
        now + 1,
    );
    assert!(!app_again);
    assert!(!method_again);
}

#[test]
fn request_url_substitutes_region() {
    let api = RiotApi::new(RiotApiConfig::new());
    assert_eq!(
        "https://na1.api.riotgames.com/lol/status/v4/platform-data",
        api.request_url("na1", "/lol/status/v4/platform-data")
    );
}

#[test]
fn regional_requesters_are_stable() {
    let mut api = RiotApi::new(RiotApiConfig::new());
    let a = api.regional_requester("na1");
    let b = api.regional_requester("euw1");
    let a2 = api.regional_requester("na1");
    assert_eq!(a, a2);
    assert_ne!(a, b);
}

#[test]
fn paths_match_wildcards() {
    assert!(paths_match(
        "/lol/summoner/v4/summoners/by-name/{summonerName}",
        "/lol/summoner/v4/summoners/by-name/LugnutsK"
    ));
    assert!(paths_match("/lol/status/v4/platform-data", "/lol/status/v4/platform-data"));
    assert!(!paths_match("/lol/status/v4/platform-data", "/lol/status/v4/other"));
    assert!(!paths_match(
        "/lol/summoner/v4/summoners/by-name/{summonerName}",
        "/lol/summoner/v4/summoners/by-name"
    ));
}

#[test]
fn parse_path_finds_route_and_method() {
    let endpoints = vec![
        Endpoint {
            method: HttpMethod::Get,
            path: "/lol/summoner/v4/summoners/by-name/{summonerName}".to_owned(),
            method_id: "summoner-v4.getBySummonerName".to_owned(),
        },
        Endpoint {
            method: HttpMethod::Get,
            path: "/lol/status/v4/platform-data".to_owned(),
            method_id: "lol-status-v4.getPlatformData".to_owned(),
        },
    ];

    assert_eq!(
        Some("summoner-v4.getBySummonerName"),
        find_matching_method_id(
            HttpMethod::Get,
            "/lol/summoner/v4/summoners/by-name/LugnutsK",
            &endpoints
        )
    );
    assert_eq!(
        None,
        find_matching_method_id(
            HttpMethod::Post,
            "/lol/summoner/v4/summoners/by-name/LugnutsK",
            &endpoints
        )
    );

    let parsed = parse_path(
        HttpMethod::Get,
        "/na1/lol/status/v4/platform-data",
        &endpoints,
    )
    .expect("should parse");
    assert_eq!(Route::Platform(PlatformRoute::NA1), parsed.0);
    assert_eq!("lol-status-v4.getPlatformData", parsed.1);
    assert_eq!("/lol/status/v4/platform-data", parsed.2);

    assert_eq!(None, parse_path(HttpMethod::Get, "/na1", &endpoints));
    assert_eq!(
        None,
        parse_path(HttpMethod::Get, "/nowhere/lol/status/v4/platform-data", &endpoints)
    );
}

#[test]
fn config_presets() {
    let c = RiotApiConfig::new();
    assert_eq!(3, c.retries);
    assert_eq!(990_000, c.burst_factor_ppm);
    assert_eq!(989, c.duration_overhead_ms);

    let c = c.preconfig_throughput();
    assert_eq!(470_000, c.burst_factor_ppm);
    assert_eq!(10, c.duration_overhead_ms);

    let c = c.preconfig_burst().set_retries(5).set_rate_usage_factor(250_000);
    assert_eq!(990_000, c.burst_factor_ppm);
    assert_eq!(989, c.duration_overhead_ms);
    assert_eq!(5, c.retries);
    assert_eq!(250_000, c.app_rate_usage_factor_ppm);
    assert_eq!(250_000, c.method_rate_usage_factor_ppm);
}
