use webshot::config::{
    bucket_lookup, default_bucket, default_browser_args, default_buckets_dal, Bucket,
    BucketEntry, BrowserConfig, HttpConfig, ServerConfig,
};
use webshot::rate_limiting::{
    admission_response, quota_for, IpRateLimitingMiddleware, KeyedLimiter, MiddlewareDecision,
    NSRateLimitingMiddleware, RateLimitingConfig,
};
use webshot::storage::{local_signed_url, resolve_local_path, StorageScheme};

#[test]
fn quota_uses_true_hour_scaling() {
    assert_eq!(quota_for(&RateLimitingConfig::QPS(100)), (100, 1));
    assert_eq!(quota_for(&RateLimitingConfig::QPM(15)), (15, 60));
    assert_eq!(quota_for(&RateLimitingConfig::QPH(7)), (7, 3600));
}

#[test]
fn per_minute_limit_admits_once_then_denies() {
    // One query per minute per bucket: the first request passes, the
    // back-to-back second is denied with a wait within the window.
    let mw = NSRateLimitingMiddleware::from_config(9, &RateLimitingConfig::QPM(1)).unwrap();
    assert_eq!(mw.handle(), MiddlewareDecision::Forward);
    match mw.handle() {
        MiddlewareDecision::TooManyRequests { retry_after_secs } => {
            assert!(retry_after_secs <= 60);
        },
        MiddlewareDecision::Forward => panic!("second request must be limited"),
    }
}

#[test]
fn distinct_keys_do_not_share_a_bucket() {
    let mw = IpRateLimitingMiddleware::from_config(&RateLimitingConfig::QPM(1)).unwrap();
    assert_eq!(mw.handle(1), MiddlewareDecision::Forward);
    assert_eq!(mw.handle(2), MiddlewareDecision::Forward);
    assert!(matches!(mw.handle(1), MiddlewareDecision::TooManyRequests { .. }));
}

#[test]
fn zero_quota_is_refused() {
    assert!(KeyedLimiter::from_config(&RateLimitingConfig::QPS(0)).is_none());
    assert!(IpRateLimitingMiddleware::from_config(&RateLimitingConfig::QPH(0)).is_none());
    assert!(KeyedLimiter::from_config(&RateLimitingConfig::QPH(1)).is_some());
    assert!(matches!(
        IpRateLimitingMiddleware::try_from_config(&Some(RateLimitingConfig::QPS(0))),
        Err(webshot::error::GlobalError::Unknown)
    ));
    assert!(IpRateLimitingMiddleware::try_from_config(&Some(RateLimitingConfig::QPS(3))).is_ok());
    assert!(NSRateLimitingMiddleware::try_from_config(4, &Some(RateLimitingConfig::QPM(2)))
        .is_ok());
}

#[test]
fn admission_outcomes_map_to_http() {
    assert_eq!(admission_response(Ok(())), MiddlewareDecision::Forward);
    assert_eq!(
        admission_response(Err(42)),
        MiddlewareDecision::TooManyRequests { retry_after_secs: 42 }
    );
}

#[test]
fn default_configuration_matches_the_documented_values() {
    let c = ServerConfig::default();
    assert_eq!(c.browser.width, 1920);
    assert_eq!(c.browser.height, 1080);
    assert_eq!(c.browser.port, 0);
    assert_eq!(c.browser.pool_size, 2);
    assert_eq!(c.browser.args, default_browser_args());
    assert_eq!(c.browser.args.len(), 35);
    assert_eq!(c.browser.args[0], "--disable-background-networking");
    assert_eq!(c.browser.args[34], "--single-process");
    assert_eq!(c.http.listen, "0.0.0.0:2023");
    assert_eq!(c.http.rate_limiting, RateLimitingConfig::QPS(100));
    assert_eq!(c.buckets.len(), 1);
    assert_eq!(c.buckets[0].name, "default");
    let b = &c.buckets[0].bucket;
    assert_eq!(b.access_token, "");
    assert_eq!(b.rate_limiting, RateLimitingConfig::QPM(15));
    assert_eq!(b.dal, vec![("root".to_string(), "./static".to_string())]);
    let sp = b.screenshot_task_params.as_ref().unwrap();
    assert_eq!(sp.quality, Some(40));
    assert_eq!(sp.width, Some(1920));
    assert_eq!(sp.height, Some(1080));
    assert_eq!(sp.scale, Some(5));
    assert_eq!(sp.ttl, Some(60));
    let pp = b.pdf_task_params.as_ref().unwrap();
    assert_eq!(pp.scale, Some(5));
    assert_eq!(pp.ttl, Some(60));
    assert_eq!(default_buckets_dal().len(), 1);
}

#[test]
fn buckets_are_found_by_name() {
    let buckets = default_bucket();
    assert!(bucket_lookup(&buckets, "default").is_some());
    assert!(bucket_lookup(&buckets, "missing").is_none());
    let mut two = default_bucket();
    two.push(BucketEntry { name: "tenant".to_string(), bucket: Bucket::default() });
    assert!(bucket_lookup(&two, "tenant").is_some());
    let _ = (BrowserConfig::default(), HttpConfig::default());
}

#[test]
fn local_path_resolution_matches_the_store() {
    // Resolving against the working directory agrees with the store's
    // own path arithmetic.
    let mine = resolve_local_path("/", "/static/", "ab/cd.png");
    let theirs = opendal::raw::build_rel_path(
        "/",
        &opendal::raw::build_abs_path("/static/", "ab/cd.png"),
    );
    assert_eq!(mine, theirs);
    assert_eq!(mine, "static/ab/cd.png");
    let deeper = resolve_local_path("/srv", "/srv/static/", "x.pdf");
    assert_eq!(
        deeper,
        opendal::raw::build_rel_path(
            "/srv",
            &opendal::raw::build_abs_path("/srv/static/", "x.pdf"),
        )
    );
    assert_eq!(deeper, "/static/x.pdf");
    assert_eq!(StorageScheme::Fs, StorageScheme::Fs);
}

#[test]
fn local_signed_url_is_path_then_query() {
    let url = local_signed_url("static/ab/cd.png", "tok", 1234);
    let (path, query) = url.split_once('?').unwrap();
    assert_eq!(path, "static/ab/cd.png");
    assert!(query.contains("X-Amz-Algorithm=AWS4-HMAC-SHA256"));
    assert!(query.contains("X-Amz-Date=1234"));
    assert!(query.contains("X-Amz-Expires=3600"));
    // And it verifies as a presigned URL.
    let cred =
        webshot::signature_v4::PresignedUrl::verify_query(path, query, 1234).unwrap();
    assert_eq!(cred, "tok");
}
