//! The request handlers' decisions: the cache-freshness rule, the
//! resolution of request parameters against per-bucket defaults, and the
//! per-request plan — serve the stored artifact or enqueue a render.
use vstd::prelude::*;

use crate::pdf::{PDFRequestParams, PDFRequestQSParams};
use crate::request::origin_ascii_of;
use crate::screenshot::{ext_of, ImageFormat, ScreenshotRequestParams, ScreenshotRequestQSParams};

verus! {

/// A stored artifact is fresh at `now` while `now` has not passed
/// `last_modified + ttl`.
pub open spec fn spec_cache_fresh(last_modified: u64, ttl: u64, now: u64) -> bool {
    now <= last_modified + ttl
}

/// Checks freshness without overflowing: a window reaching past the
/// clock's range never expires.
pub fn cache_fresh(last_modified: u64, ttl: u64, now: u64) -> (r: bool)
    ensures
        r == spec_cache_fresh(last_modified, ttl, now),
{
    match last_modified.checked_add(ttl) {
        Some(end) => now <= end,
        None => true,
    }
}

/// When the handler serves the stored artifact instead of rendering: it
/// exists, the request names a `ttl`, the store dated it, and it is
/// still fresh.
pub open spec fn spec_use_cached(
    exists: bool,
    last_modified: Option<u64>,
    ttl: Option<u64>,
    now: u64,
) -> bool {
    exists && ttl is Some && last_modified is Some && spec_cache_fresh(
        last_modified.unwrap(),
        ttl.unwrap(),
        now,
    )
}

/// The cache probe's verdict.
pub fn use_cached(exists: bool, last_modified: Option<u64>, ttl: Option<u64>, now: u64) -> (r:
    bool)
    ensures
        r == spec_use_cached(exists, last_modified, ttl, now),
{
    if !exists {
        return false;
    }
    match (last_modified, ttl) {
        (Some(lm), Some(t)) => cache_fresh(lm, t, now),
        _ => false,
    }
}

/// Cache freshness, away from the exact boundary: an artifact whose age
/// has passed the `ttl` is re-rendered, a younger one is served from the
/// store. At `now == last_modified + ttl` itself the stored artifact is
/// still served.
pub proof fn lemma_cache_freshness(
    exists: bool,
    last_modified: u64,
    ttl: u64,
    now: u64,
)
    requires
        exists,
        last_modified + ttl != now,
    ensures
        last_modified <= now - ttl ==> !spec_use_cached(exists, Some(last_modified), Some(ttl), now),
        last_modified > now - ttl ==> spec_use_cached(exists, Some(last_modified), Some(ttl), now),
{
}

/// The fully resolved parameters a screenshot task hands to a worker:
/// every capture field concrete, the two switches as requested, and the
/// artifact location.
pub struct ScreenshotTaskSpec {
    pub url: String,
    pub format: ImageFormat,
    pub quality: u16,
    pub width: u16,
    pub height: u16,
    pub scale_tenths: u8,
    pub full_page: Option<bool>,
    pub omit_background: Option<bool>,
    pub bucket: String,
    pub filename: String,
}

/// The fully resolved parameters of a PDF task: the print scale in
/// tenths, whether the background is printed, and the artifact location.
pub struct PdfTaskSpec {
    pub url: String,
    pub scale_tenths: u8,
    pub print_background: bool,
    pub bucket: String,
    pub filename: String,
}

/// Resolves a screenshot request against the bucket defaults: each unset
/// capture field takes the default, the switches pass through untouched.
pub fn resolve_screenshot_task(
    params: &ScreenshotRequestQSParams,
    defaults: &ScreenshotRequestParams,
    bucket: &str,
    filename: &str,
) -> (r: ScreenshotTaskSpec)
    requires
        defaults.format is Some,
        defaults.quality is Some,
        defaults.width is Some,
        defaults.height is Some,
        defaults.scale is Some,
    ensures
        r.url@ == params.url@,
        r.format == if params.format is Some {
            params.format.unwrap()
        } else {
            defaults.format.unwrap()
        },
        r.quality == if params.quality is Some {
            params.quality.unwrap()
        } else {
            defaults.quality.unwrap()
        },
        r.width == if params.width is Some {
            params.width.unwrap()
        } else {
            defaults.width.unwrap()
        },
        r.height == if params.height is Some {
            params.height.unwrap()
        } else {
            defaults.height.unwrap()
        },
        r.scale_tenths == if params.scale is Some {
            params.scale.unwrap()
        } else {
            defaults.scale.unwrap()
        },
        r.full_page == params.full_page,
        r.omit_background == params.omit_background,
        r.bucket@ == bucket@,
        r.filename@ == filename@,
{
    ScreenshotTaskSpec {
        url: params.url.clone(),
        format: match params.format {
            Some(f) => f,
            None => defaults.format.unwrap(),
        },
        quality: match params.quality {
            Some(q) => q,
            None => defaults.quality.unwrap(),
        },
        width: match params.width {
            Some(w) => w,
            None => defaults.width.unwrap(),
        },
        height: match params.height {
            Some(h) => h,
            None => defaults.height.unwrap(),
        },
        scale_tenths: match params.scale {
            Some(s) => s,
            None => defaults.scale.unwrap(),
        },
        full_page: params.full_page,
        omit_background: params.omit_background,
        bucket: bucket.to_owned(),
        filename: filename.to_owned(),
    }
}

/// Resolves a PDF request against the bucket defaults: an unset scale
/// takes the default, and the background is printed unless the request
/// omits it.
pub fn resolve_pdf_task(
    params: &PDFRequestQSParams,
    defaults: &PDFRequestParams,
    bucket: &str,
    filename: &str,
) -> (r: PdfTaskSpec)
    requires
        defaults.scale is Some,
    ensures
        r.url@ == params.url@,
        r.scale_tenths == if params.scale is Some {
            params.scale.unwrap()
        } else {
            defaults.scale.unwrap()
        },
        r.print_background == !(params.omit_background is Some && params.omit_background.unwrap()),
        r.bucket@ == bucket@,
        r.filename@ == filename@,
{
    PdfTaskSpec {
        url: params.url.clone(),
        scale_tenths: match params.scale {
            Some(s) => s,
            None => defaults.scale.unwrap(),
        },
        print_background: match params.omit_background {
            Some(true) => false,
            _ => true,
        },
        bucket: bucket.to_owned(),
        filename: filename.to_owned(),
    }
}

/// What a render route answers a request with, once the store has been
/// probed.
pub enum RenderPlan<T> {
    /// The URL does not parse: the request is rejected.
    InvalidUrl,
    /// The stored artifact at `path` is fresh: redirect to its signed
    /// URL, no render happens.
    UseCached { path: String },
    /// Render: enqueue the task and await its reply; on success the
    /// artifact lands at `path`.
    Render { task: T, path: String },
}

/// The screenshot route's plan: reject an unparseable URL; otherwise
/// resolve the request against the bucket defaults, compute the
/// artifact key and path from the resolved request — so the probe path
/// is exactly the path a render would write — and either serve the
/// fresh stored artifact or hand a resolved task to the queue.
pub fn screenshot_plan(
    params: &ScreenshotRequestQSParams,
    defaults: &ScreenshotRequestParams,
    bucket: &str,
    exists: bool,
    last_modified: Option<u64>,
    now: u64,
) -> (r: RenderPlan<ScreenshotTaskSpec>)
    requires
        defaults.format is Some,
        defaults.quality is Some,
        defaults.width is Some,
        defaults.height is Some,
        defaults.scale is Some,
    ensures
        match r {
            RenderPlan::InvalidUrl => origin_ascii_of(params.url@) is None,
            RenderPlan::UseCached { path } => {
                let resolved = crate::screenshot::spec_with_defaults(*params, *defaults);
                &&& origin_ascii_of(params.url@) is Some
                &&& spec_use_cached(exists, last_modified, params.ttl, now)
                &&& path@ == crate::request::spec_key_chars(
                    origin_ascii_of(params.url@).unwrap(),
                    crate::screenshot::spec_fingerprint(resolved),
                ) + "."@ + ext_of(resolved.format.unwrap())
            },
            RenderPlan::Render { task, path } => {
                let resolved = crate::screenshot::spec_with_defaults(*params, *defaults);
                &&& origin_ascii_of(params.url@) is Some
                &&& !spec_use_cached(exists, last_modified, params.ttl, now)
                &&& task.url@ == params.url@
                &&& task.bucket@ == bucket@
                &&& task.filename@ == crate::request::spec_key_chars(
                    origin_ascii_of(params.url@).unwrap(),
                    crate::screenshot::spec_fingerprint(resolved),
                )
                &&& task.format == resolved.format.unwrap()
                &&& task.quality == resolved.quality.unwrap()
                &&& task.width == resolved.width.unwrap()
                &&& task.height == resolved.height.unwrap()
                &&& task.scale_tenths == resolved.scale.unwrap()
                &&& task.full_page == resolved.full_page
                &&& task.omit_background == resolved.omit_background
                &&& path@ == task.filename@ + "."@ + ext_of(task.format)
            },
        },
{
    let resolved = params.with_defaults(defaults);
    let filename = match resolved.filename() {
        Some(f) => f,
        None => {
            return RenderPlan::InvalidUrl;
        },
    };
    let path = match resolved.path() {
        Some(p) => p,
        None => {
            return RenderPlan::InvalidUrl;
        },
    };
    if use_cached(exists, last_modified, params.ttl, now) {
        return RenderPlan::UseCached { path };
    }
    let task = resolve_screenshot_task(&resolved, defaults, bucket, filename.as_str());
    RenderPlan::Render { task, path }
}

/// The PDF route's plan, the same shape as the screenshot one; a PDF's
/// path always carries the `pdf` extension.
pub fn pdf_plan(
    params: &PDFRequestQSParams,
    defaults: &PDFRequestParams,
    bucket: &str,
    exists: bool,
    last_modified: Option<u64>,
    now: u64,
) -> (r: RenderPlan<PdfTaskSpec>)
    requires
        defaults.scale is Some,
    ensures
        match r {
            RenderPlan::InvalidUrl => origin_ascii_of(params.url@) is None,
            RenderPlan::UseCached { path } => {
                let resolved = crate::pdf::spec_pdf_with_defaults(*params, *defaults);
                &&& origin_ascii_of(params.url@) is Some
                &&& spec_use_cached(exists, last_modified, params.ttl, now)
                &&& path@ == crate::request::spec_key_chars(
                    origin_ascii_of(params.url@).unwrap(),
                    crate::pdf::spec_pdf_fingerprint(resolved),
                ) + ".pdf"@
            },
            RenderPlan::Render { task, path } => {
                let resolved = crate::pdf::spec_pdf_with_defaults(*params, *defaults);
                &&& origin_ascii_of(params.url@) is Some
                &&& !spec_use_cached(exists, last_modified, params.ttl, now)
                &&& task.url@ == params.url@
                &&& task.bucket@ == bucket@
                &&& task.filename@ == crate::request::spec_key_chars(
                    origin_ascii_of(params.url@).unwrap(),
                    crate::pdf::spec_pdf_fingerprint(resolved),
                )
                &&& task.scale_tenths == resolved.scale.unwrap()
                &&& task.print_background == !(resolved.omit_background is Some
                    && resolved.omit_background.unwrap())
                &&& path@ == task.filename@ + ".pdf"@
            },
        },
{
    let resolved = params.with_defaults(defaults);
    let filename = match resolved.filename() {
        Some(f) => f,
        None => {
            return RenderPlan::InvalidUrl;
        },
    };
    let path = match resolved.path() {
        Some(p) => p,
        None => {
            return RenderPlan::InvalidUrl;
        },
    };
    if use_cached(exists, last_modified, params.ttl, now) {
        return RenderPlan::UseCached { path };
    }
    let task = resolve_pdf_task(&resolved, defaults, bucket, filename.as_str());
    RenderPlan::Render { task, path }
}

/// What the handler answers once the reply channel resolves: the worker
/// delivered a signed URL and the client is redirected to it, or it
/// failed and the client sees a server error.
pub fn reply_status(reply: Option<String>) -> (r: (u16, Option<String>))
    ensures
        match reply {
            Some(u) => r == (302u16, Some(u)),
            None => r == (500u16, None::<String>),
        },
{
    match reply {
        Some(u) => (302, Some(u)),
        None => (500, None),
    }
}

/// What the handler answers when the queue itself is gone: the service
/// is shutting down and the client is told to come back later.
pub fn queue_down_status() -> (r: u16)
    ensures
        r == 503u16,
{
    503
}

} // verus!
