//! Typed server configuration: browser, HTTP and per-bucket settings,
//! with the defaults the service starts from. The configuration is
//! loaded once at startup and read-only afterwards.
use vstd::prelude::*;

use crate::pdf::{default_buckets_pdf_task_params, PDFRequestParams};
use crate::rate_limiting::RateLimitingConfig;
use crate::screenshot::{default_buckets_screenshot_task_params, ScreenshotRequestParams};
use crate::text::str_eq;

verus! {

/// How the headless browser is launched.
#[derive(Debug, Clone)]
pub struct BrowserConfig {
    pub args: Vec<String>,
    pub width: u32,
    pub height: u32,
    pub port: u16,
    pub pool_size: u8,
}

/// Where the HTTP server listens and its global per-address rate limit.
#[derive(Debug, Clone)]
pub struct HttpConfig {
    pub listen: String,
    pub rate_limiting: RateLimitingConfig,
}

/// One tenant namespace: its access token, rate limit, blob-store
/// settings, and per-route default render parameters.
#[derive(Debug, Clone)]
pub struct Bucket {
    pub access_token: String,
    pub rate_limiting: RateLimitingConfig,
    pub dal: Vec<(String, String)>,
    pub screenshot_task_params: Option<ScreenshotRequestParams>,
    pub pdf_task_params: Option<PDFRequestParams>,
}

/// A named bucket; the names are unique across the configuration.
#[derive(Debug, Clone)]
pub struct BucketEntry {
    pub name: String,
    pub bucket: Bucket,
}

/// The whole server configuration.
#[derive(Debug, Clone)]
pub struct ServerConfig {
    pub browser: BrowserConfig,
    pub http: HttpConfig,
    pub buckets: Vec<BucketEntry>,
}

/// The browser arguments the service launches with when none are
/// configured.
pub open spec fn spec_default_browser_args() -> Seq<Seq<char>> {
    seq![
        "--disable-background-networking"@,
        "--enable-features=NetworkService,NetworkServiceInProcess"@,
        "--disable-background-timer-throttling"@,
        "--disable-backgrounding-occluded-windows"@,
        "--disable-breakpad"@,
        "--disable-client-side-phishing-detection"@,
        "--disable-component-extensions-with-background-pages"@,
        "--disable-default-apps"@,
        "--disable-dev-shm-usage"@,
        "--disable-extensions"@,
        "--disable-features=TranslateUI"@,
        "--disable-hang-monitor"@,
        "--disable-ipc-flooding-protection"@,
        "--disable-popup-blocking"@,
        "--disable-prompt-on-repost"@,
        "--disable-renderer-backgrounding"@,
        "--disable-sync"@,
        "--force-color-profile=srgb"@,
        "--metrics-recording-only"@,
        "--no-first-run"@,
        "--enable-automation"@,
        "--password-store=basic"@,
        "--use-mock-keychain"@,
        "--enable-blink-features=IdleDetection"@,
        "--lang=en_US"@,
        "--disable-gpu"@,
        "--no-default-browser-check"@,
        "--hide-scrollbars"@,
        "--no-sandbox"@,
        "--disable-namespace-sandbox"@,
        "--disable-setuid-sandbox"@,
        "--block-new-web-contents"@,
        "--force-device-scale-factor=2"@,
        "--headless"@,
        "--single-process"@,
    ]
}

/// The default browser arguments, in launch order.
pub fn default_browser_args() -> (r: Vec<String>)
    ensures
        r@.map_values(|s: String| s@) == spec_default_browser_args(),
{
    let mut v: Vec<String> = Vec::new();
    v.push("--disable-background-networking".to_owned());
    v.push("--enable-features=NetworkService,NetworkServiceInProcess".to_owned());
    v.push("--disable-background-timer-throttling".to_owned());
    v.push("--disable-backgrounding-occluded-windows".to_owned());
    v.push("--disable-breakpad".to_owned());
    v.push("--disable-client-side-phishing-detection".to_owned());
    v.push("--disable-component-extensions-with-background-pages".to_owned());
    v.push("--disable-default-apps".to_owned());
    v.push("--disable-dev-shm-usage".to_owned());
    v.push("--disable-extensions".to_owned());
    v.push("--disable-features=TranslateUI".to_owned());
    v.push("--disable-hang-monitor".to_owned());
    v.push("--disable-ipc-flooding-protection".to_owned());
    v.push("--disable-popup-blocking".to_owned());
    v.push("--disable-prompt-on-repost".to_owned());
    v.push("--disable-renderer-backgrounding".to_owned());
    v.push("--disable-sync".to_owned());
    v.push("--force-color-profile=srgb".to_owned());
    v.push("--metrics-recording-only".to_owned());
    v.push("--no-first-run".to_owned());
    v.push("--enable-automation".to_owned());
    v.push("--password-store=basic".to_owned());
    v.push("--use-mock-keychain".to_owned());
    v.push("--enable-blink-features=IdleDetection".to_owned());
    v.push("--lang=en_US".to_owned());
    v.push("--disable-gpu".to_owned());
    v.push("--no-default-browser-check".to_owned());
    v.push("--hide-scrollbars".to_owned());
    v.push("--no-sandbox".to_owned());
    v.push("--disable-namespace-sandbox".to_owned());
    v.push("--disable-setuid-sandbox".to_owned());
    v.push("--block-new-web-contents".to_owned());
    v.push("--force-device-scale-factor=2".to_owned());
    v.push("--headless".to_owned());
    v.push("--single-process".to_owned());
    proof {
        assert(v@.map_values(|s: String| s@) =~~= spec_default_browser_args());
    }
    v
}

/// Default browser window width.
pub fn default_browser_width() -> (r: u32)
    ensures
        r == 1920u32,
{
    1920
}

/// Default browser window height.
pub fn default_browser_height() -> (r: u32)
    ensures
        r == 1080u32,
{
    1080
}

/// Default number of screenshot workers.
pub fn default_browser_pool_size() -> (r: u8)
    ensures
        r == 2u8,
{
    2
}

/// Default listen address.
pub fn default_http_listen() -> (r: String)
    ensures
        r@ == "0.0.0.0:2023"@,
{
    "0.0.0.0:2023".to_owned()
}

/// Default global rate limit: a hundred queries per second per address.
pub fn default_http_rate_limiting() -> (r: RateLimitingConfig)
    ensures
        r == RateLimitingConfig::QPS(100u32),
{
    RateLimitingConfig::QPS(100)
}

/// Default bucket access token: empty.
pub fn default_buckets_access_token() -> (r: String)
    ensures
        r@ == Seq::<char>::empty(),
{
    String::new()
}

/// Default per-bucket rate limit: fifteen queries per minute.
pub fn default_buckets_rate_limiting() -> (r: RateLimitingConfig)
    ensures
        r == RateLimitingConfig::QPM(15u32),
{
    RateLimitingConfig::QPM(15)
}

/// Default blob-store settings: a local root under `./static`.
pub fn default_buckets_dal() -> (r: Vec<(String, String)>)
    ensures
        r@.len() == 1,
        r@[0].0@ == "root"@,
        r@[0].1@ == "./static"@,
{
    let mut map: Vec<(String, String)> = Vec::new();
    map.push(("root".to_owned(), "./static".to_owned()));
    map
}

impl Default for Bucket {
    /// A bucket with an empty token, the default rate limit, the local
    /// blob root, and the default render parameters of both routes.
    fn default() -> (r: Self)
        ensures
            r.access_token@ == Seq::<char>::empty(),
            r.rate_limiting == RateLimitingConfig::QPM(15u32),
            r.dal@.len() == 1 && r.dal@[0].0@ == "root"@ && r.dal@[0].1@ == "./static"@,
            r.screenshot_task_params is Some,
            r.pdf_task_params is Some,
    {
        Bucket {
            access_token: default_buckets_access_token(),
            rate_limiting: default_buckets_rate_limiting(),
            dal: default_buckets_dal(),
            screenshot_task_params: default_buckets_screenshot_task_params(),
            pdf_task_params: default_buckets_pdf_task_params(),
        }
    }
}

/// The buckets a fresh configuration holds: one bucket named `default`.
pub fn default_bucket() -> (r: Vec<BucketEntry>)
    ensures
        r@.len() == 1,
        r@[0].name@ == "default"@,
{
    let mut v: Vec<BucketEntry> = Vec::new();
    v.push(BucketEntry { name: "default".to_owned(), bucket: Bucket::default() });
    v
}

impl Default for BrowserConfig {
    /// The default launch settings.
    fn default() -> (r: Self)
        ensures
            r.args@.map_values(|s: String| s@) == spec_default_browser_args(),
            r.width == 1920u32,
            r.height == 1080u32,
            r.port == 0u16,
            r.pool_size == 2u8,
    {
        BrowserConfig {
            args: default_browser_args(),
            width: default_browser_width(),
            height: default_browser_height(),
            port: 0,
            pool_size: default_browser_pool_size(),
        }
    }
}

impl Default for HttpConfig {
    /// The default listen address and global rate limit.
    fn default() -> (r: Self)
        ensures
            r.listen@ == "0.0.0.0:2023"@,
            r.rate_limiting == RateLimitingConfig::QPS(100u32),
    {
        HttpConfig { listen: default_http_listen(), rate_limiting: default_http_rate_limiting() }
    }
}

impl Default for ServerConfig {
    /// The configuration a fresh install writes and runs with.
    fn default() -> (r: Self)
        ensures
            r.browser.pool_size == 2u8,
            r.http.rate_limiting == RateLimitingConfig::QPS(100u32),
            r.buckets@.len() == 1 && r.buckets@[0].name@ == "default"@,
    {
        ServerConfig {
            browser: BrowserConfig::default(),
            http: HttpConfig::default(),
            buckets: default_bucket(),
        }
    }
}

/// The first bucket with the given name.
pub open spec fn spec_bucket_lookup(buckets: Seq<BucketEntry>, name: Seq<char>) -> Option<Bucket>
    decreases buckets.len(),
{
    if buckets.len() == 0 {
        None
    } else if buckets[0].name@ == name {
        Some(buckets[0].bucket)
    } else {
        spec_bucket_lookup(buckets.drop_first(), name)
    }
}

/// Finds the bucket a route name refers to.
pub fn bucket_lookup<'a>(buckets: &'a Vec<BucketEntry>, name: &str) -> (r: Option<&'a Bucket>)
    ensures
        match r {
            Some(b) => spec_bucket_lookup(buckets@, name@) == Some(*b),
            None => spec_bucket_lookup(buckets@, name@) is None,
        },
{
    let mut i: usize = 0;
    proof {
        assert(buckets@.skip(0) =~= buckets@);
    }
    while i < buckets.len()
        invariant
            i <= buckets@.len(),
            spec_bucket_lookup(buckets@, name@) == spec_bucket_lookup(
                buckets@.skip(i as int),
                name@,
            ),
        decreases buckets@.len() - i,
    {
        proof {
            assert(buckets@.skip(i as int)[0] == buckets@[i as int]);
        }
        if str_eq(buckets[i].name.as_str(), name) {
            return Some(&buckets[i].bucket);
        }
        proof {
            assert(buckets@.skip(i as int).drop_first() =~= buckets@.skip(i as int + 1));
        }
        i = i + 1;
    }
    proof {
        assert(buckets@.skip(i as int).len() == 0);
    }
    None
}

} // verus!
